//! Dates as Things stores them: bit-packed day numbers and Unix timestamps,
//! rendered as `YYYY-MM-DD`.

use vstd::prelude::*;
use vstd::arithmetic::power2::{pow2, lemma2_to64, lemma2_to64_rest, lemma_pow2_pos, lemma_pow2_strictly_increases};
use vstd::arithmetic::div_mod::{lemma_basic_div, lemma_div_is_ordered_by_denominator};
use vstd::arithmetic::mul::{lemma_mul_inequality, lemma_mul_is_commutative};
use vstd::bits::{lemma_u64_shl_is_mul, lemma_u64_shr_is_div};
use crate::text::{
    all_digits, decimal, digits_value, is_digit, lemma_decimal_digits, lemma_digits_canonical,
    lemma_digits_value_bound, lemma_pad_left_value, lemma_split_concat, lemma_split_no_sep,
    parse_i64, parse_i64_str, push_char, push_zero_padded, split_char, split_on,
    zero_padded,
};

verus! {

// ---------------------------------------------------------------------------
// Bit-packed dates
// ---------------------------------------------------------------------------

/// The year field of a packed date: bits 16 to 26.
pub open spec fn packed_year(v: i64) -> i64 {
    (v >> 16u64) & 0x7FF
}

/// The month field of a packed date: bits 12 to 15.
pub open spec fn packed_month(v: i64) -> i64 {
    (v >> 12u64) & 0xF
}

/// The day field of a packed date: bits 7 to 11.
pub open spec fn packed_day(v: i64) -> i64 {
    (v >> 7u64) & 0x1F
}

/// `YYYY-MM-DD`, each field zero-padded as `format!("{:04}-{:02}-{:02}")` does.
pub open spec fn date_text(year: int, month: int, day: int) -> Seq<char> {
    zero_padded(year, 4) + seq!['-'] + zero_padded(month, 2) + seq!['-'] + zero_padded(day, 2)
}

/// What a packed date reads as: nothing for 0, else its three fields.
pub open spec fn decoded_date(v: i64) -> Option<Seq<char>> {
    if v == 0 {
        None
    } else {
        Some(date_text(packed_year(v) as int, packed_month(v) as int, packed_day(v) as int))
    }
}

/// The packed form of three fields, each shifted into place and or-ed together.
pub open spec fn pack(year: i64, month: i64, day: i64) -> i64 {
    (year << 16u64) | (month << 12u64) | (day << 7u64)
}

/// What a `YYYY-MM-DD` string packs to: exactly three `-`-separated
/// pieces, each an `i64` as `str::parse` reads it.
pub open spec fn encoded_date(s: Seq<char>) -> Option<i64> {
    let parts = split_on(s, '-');
    if parts.len() != 3 {
        None
    } else {
        match (parse_i64(parts[0]), parse_i64(parts[1]), parse_i64(parts[2])) {
            (Some(y), Some(m), Some(d)) => Some(pack(y, m, d)),
            _ => None,
        }
    }
}

/// Decode a Things 3 bit-packed date integer to a `YYYY-MM-DD` string.
///
/// Format: year in bits 16-26, month in bits 12-15, day in bits 7-11;
/// 0 stands for no date.
pub fn decode_things_date(value: i64) -> (r: Option<String>)
    ensures
        match r {
            None => decoded_date(value) is None,
            Some(s) => decoded_date(value) == Some(s@),
        },
{
    if value == 0 {
        return None;
    }
    let year = (value >> 16u64) & 0x7FF;
    let month = (value >> 12u64) & 0xF;
    let day = (value >> 7u64) & 0x1F;
    let mut s = String::new();
    push_zero_padded(&mut s, year, 4);
    push_char(&mut s, '-');
    push_zero_padded(&mut s, month, 2);
    push_char(&mut s, '-');
    push_zero_padded(&mut s, day, 2);
    proof {
        assert(s@ =~= date_text(year as int, month as int, day as int));
    }
    Some(s)
}

/// Encode a `YYYY-MM-DD` date string to a Things 3 bit-packed integer.
pub fn encode_things_date(date: &str) -> (r: Option<i64>)
    ensures
        r == encoded_date(date@),
{
    let parts = split_char(date, '-');
    if parts.len() != 3 {
        return None;
    }
    let year = match parse_i64_str(parts[0].as_str()) {
        Some(v) => v,
        None => return None,
    };
    let month = match parse_i64_str(parts[1].as_str()) {
        Some(v) => v,
        None => return None,
    };
    let day = match parse_i64_str(parts[2].as_str()) {
        Some(v) => v,
        None => return None,
    };
    Some((year << 16u64) | (month << 12u64) | (day << 7u64))
}


// ---------------------------------------------------------------------------
// The proleptic Gregorian calendar
// ---------------------------------------------------------------------------

pub open spec fn is_leap_year(y: int) -> bool {
    y % 4 == 0 && (y % 100 != 0 || y % 400 == 0)
}

pub open spec fn month_length(y: int, m: int) -> int {
    if m == 2 {
        if is_leap_year(y) { 29 } else { 28 }
    } else if m == 4 || m == 6 || m == 9 || m == 11 {
        30
    } else {
        31
    }
}

pub open spec fn is_valid_date(y: int, m: int, d: int) -> bool {
    1 <= m <= 12 && 1 <= d <= month_length(y, m)
}

/// Leap years among the years 1 to `n` (negated, and counted back from 0,
/// when `n` is negative); years are numbered astronomically, so year 0 is leap.
pub open spec fn leap_years_through(n: int) -> int {
    n / 4 - n / 100 + n / 400
}

/// Days in the months of year `y` that come before month `m`.
pub open spec fn days_before_month(y: int, m: int) -> int {
    let common: int = if m == 1 {
        0
    } else if m == 2 {
        31
    } else if m == 3 {
        59
    } else if m == 4 {
        90
    } else if m == 5 {
        120
    } else if m == 6 {
        151
    } else if m == 7 {
        181
    } else if m == 8 {
        212
    } else if m == 9 {
        243
    } else if m == 10 {
        273
    } else if m == 11 {
        304
    } else {
        334
    };
    common + if m > 2 && is_leap_year(y) { 1int } else { 0int }
}

/// The number of days from 1970-01-01 to the given date.
pub open spec fn days_from_civil(y: int, m: int, d: int) -> int {
    365 * (y - 1970) + leap_years_through(y - 1) - leap_years_through(1969)
        + days_before_month(y, m) + d - 1
}

/// Days from the start of an era's year 0 (a 1 March) to the start of its year `k`.
spec fn start_of_year(k: int) -> int {
    365 * k + k / 4 - k / 100
}

#[verifier::spinoff_prover]
#[verifier::rlimit(60)]
proof fn lemma_year_of_era(doe: int)
    requires
        0 <= doe <= 146096,
    ensures
        ({
            let yoe = (doe - doe / 1460 + doe / 36524 - doe / 146096) / 365;
            &&& 0 <= yoe <= 399
            &&& start_of_year(yoe) <= doe
            &&& doe < start_of_year(yoe + 1) + (if yoe == 399 { 1int } else { 0 })
        }),
{
}

#[verifier::spinoff_prover]
#[verifier::rlimit(60)]
proof fn lemma_month_of_year(doy: int)
    requires
        0 <= doy <= 365,
    ensures
        ({
            let mp = (5 * doy + 2) / 153;
            &&& 0 <= mp <= 11
            &&& (153 * mp + 2) / 5 <= doy
            &&& mp < 11 ==> doy < (153 * (mp + 1) + 2) / 5
        }),
{
}

proof fn lemma_leap_years_era(era: int, k: int)
    requires
        -1 <= k <= 400,
    ensures
        leap_years_through(400 * era + k) == 97 * era + leap_years_through(k),
        is_leap_year(400 * era + k) == is_leap_year(k),
{
    assert((400 * era + k) / 4 == 100 * era + k / 4);
    assert((400 * era + k) / 100 == 4 * era + k / 100);
    assert((400 * era + k) / 400 == era + k / 400);
    assert((400 * era + k) % 4 == k % 4);
    assert((400 * era + k) % 100 == k % 100);
    assert((400 * era + k) % 400 == k % 400);
}

/// Within an era, the year starting 1 March of year `yoe` is one day longer
/// exactly when the year after it is a leap year.
proof fn lemma_year_length(era: int, yoe: int)
    requires
        0 <= yoe <= 399,
    ensures
        start_of_year(yoe + 1) - start_of_year(yoe) + (if yoe == 399 { 1int } else { 0 })
            == 365 + if is_leap_year(400 * era + yoe + 1) { 1int } else { 0 },
{
    lemma_leap_years_era(era, yoe + 1);
}

/// The date at day `doy` of the March-based year `yoe` of era `era`.
proof fn lemma_civil_date(era: int, yoe: int, doy: int)
    requires
        0 <= yoe <= 399,
        0 <= doy,
        doy < 365 + if is_leap_year(400 * era + yoe + 1) { 1int } else { 0 },
    ensures
        ({
            let mp = (5 * doy + 2) / 153;
            let d = doy - (153 * mp + 2) / 5 + 1;
            let m = if mp < 10 { mp + 3 } else { mp - 9 };
            let y = yoe + era * 400 + if m <= 2 { 1int } else { 0 };
            &&& is_valid_date(y, m, d)
            &&& days_from_civil(y, m, d) == era * 146097 + start_of_year(yoe) + doy - 719468
        }),
{
    lemma_month_of_year(doy);
    let mp = (5 * doy + 2) / 153;
    let d = doy - (153 * mp + 2) / 5 + 1;
    let m = if mp < 10 { mp + 3 } else { mp - 9 };
    let y = yoe + era * 400 + if m <= 2 { 1int } else { 0 };
    lemma_leap_years_era(era, yoe);
    lemma_leap_years_era(era, yoe - 1);
    lemma_leap_years_era(era, yoe + 1);
    assert(leap_years_through(1969) == 477);
    assert(leap_years_through(yoe) == yoe / 4 - yoe / 100);
    assert(leap_years_through(yoe - 1) + (if is_leap_year(yoe) { 1int } else { 0 })
        == leap_years_through(yoe));
    if m <= 2 {
        assert(y == 400 * era + (yoe + 1));
        assert(is_leap_year(y) == is_leap_year(400 * era + yoe + 1));
        assert(leap_years_through(y - 1) == 97 * era + leap_years_through(yoe));
    } else {
        assert(y == 400 * era + yoe);
        assert(leap_years_through(y - 1) == 97 * era + leap_years_through(yoe - 1));
        assert(is_leap_year(y) == is_leap_year(yoe));
    }
}

proof fn lemma_leap_step(y: int)
    ensures
        leap_years_through(y) - leap_years_through(y - 1) == if is_leap_year(y) { 1int } else { 0 },
{
    assert(y / 4 - (y - 1) / 4 == if y % 4 == 0 { 1int } else { 0 });
    assert(y / 100 - (y - 1) / 100 == if y % 100 == 0 { 1int } else { 0 });
    assert(y / 400 - (y - 1) / 400 == if y % 400 == 0 { 1int } else { 0 });
}

proof fn lemma_year_starts_increase(a: int, b: int)
    requires
        a <= b,
    ensures
        days_from_civil(a, 1, 1) + 365 * (b - a) <= days_from_civil(b, 1, 1),
    decreases b - a,
{
    if a < b {
        lemma_year_starts_increase(a, b - 1);
        lemma_leap_step(b - 1);
    }
}

proof fn lemma_date_within_year(y: int, m: int, d: int)
    requires
        is_valid_date(y, m, d),
    ensures
        days_from_civil(y, 1, 1) <= days_from_civil(y, m, d) < days_from_civil(y + 1, 1, 1),
        days_from_civil(y, m, d) - days_from_civil(y, 1, 1) == days_before_month(y, m) + d - 1,
{
    lemma_leap_step(y);
}

/// Law: distinct valid dates are distinct days; each day number names one date.
pub proof fn lemma_civil_unique(y1: int, m1: int, d1: int, y2: int, m2: int, d2: int)
    requires
        is_valid_date(y1, m1, d1),
        is_valid_date(y2, m2, d2),
        days_from_civil(y1, m1, d1) == days_from_civil(y2, m2, d2),
    ensures
        y1 == y2 && m1 == m2 && d1 == d2,
{
    lemma_date_within_year(y1, m1, d1);
    lemma_date_within_year(y2, m2, d2);
    if y1 < y2 {
        lemma_year_starts_increase(y1 + 1, y2);
    } else if y2 < y1 {
        lemma_year_starts_increase(y2 + 1, y1);
    }
    assert(y1 == y2);
}

/// The date that lies `n` days after 1970-01-01.
pub open spec fn civil_from_days(n: int) -> (int, int, int) {
    choose|t: (int, int, int)| is_valid_date(t.0, t.1, t.2) && days_from_civil(t.0, t.1, t.2) == n
}

/// For `secs < 0`, with `n == -(secs + 1)`, the floor of `secs / 86400`
/// is `-(n / 86400) - 1`.
proof fn lemma_floor_div_negative(secs: int, n: int, q: int)
    requires
        secs < 0,
        n == -(secs + 1),
        q == n / 86400,
    ensures
        secs / 86400 == -q - 1,
{
    assert(0 <= n - 86400 * q < 86400);
    assert(secs == 86400 * (-q - 1) + (86399 - (n - 86400 * q)));
    assert(0 <= 86399 - (n - 86400 * q) < 86400);
    vstd::arithmetic::div_mod::lemma_fundamental_div_mod_converse(
        secs,
        86400,
        -q - 1,
        86399 - (n - 86400 * q),
    );
}

/// The civil date `days_since_epoch` days after 1970-01-01.
pub fn days_to_ymd(days_since_epoch: i64) -> (r: (i64, i64, i64))
    requires
        days_since_epoch <= i64::MAX - 719468,
    ensures
        is_valid_date(r.0 as int, r.1 as int, r.2 as int),
        days_from_civil(r.0 as int, r.1 as int, r.2 as int) == days_since_epoch,
        (r.0 as int, r.1 as int, r.2 as int) == civil_from_days(days_since_epoch as int),
{
    // Algorithm from http://howardhinnant.github.io/date_algorithms.html
    let z = days_since_epoch + 719468;
    let era = (if z >= 0 { z } else { z - 146096 }) / 146097;
    assert(era * 146097 <= z < era * 146097 + 146097);
    let doe = z - era * 146097;
    let yoe = (doe - doe / 1460 + doe / 36524 - doe / 146096) / 365;
    proof {
        lemma_year_of_era(doe as int);
        lemma_year_length(era as int, yoe as int);
    }
    let y = yoe + era * 400;
    let doy = doe - (365 * yoe + yoe / 4 - yoe / 100);
    let mp = (5 * doy + 2) / 153;
    proof {
        lemma_month_of_year(doy as int);
        lemma_civil_date(era as int, yoe as int, doy as int);
    }
    let d = doy - (153 * mp + 2) / 5 + 1;
    let m = if mp < 10 { mp + 3 } else { mp - 9 };
    let y = if m <= 2 { y + 1 } else { y };
    proof {
        let t = (y as int, m as int, d as int);
        let c = civil_from_days(days_since_epoch as int);
        assert(is_valid_date(t.0, t.1, t.2) && days_from_civil(t.0, t.1, t.2) == days_since_epoch);
        lemma_civil_unique(t.0, t.1, t.2, c.0, c.1, c.2);
    }
    (y, m, d)
}

// ---------------------------------------------------------------------------
// Unix timestamps
// ---------------------------------------------------------------------------

/// Biased exponent field of an IEEE 754 double given by its bits.
pub open spec fn f64_exponent(bits: u64) -> int {
    ((bits >> 52u64) & 0x7FF) as int
}

/// Fraction field of an IEEE 754 double given by its bits.
pub open spec fn f64_fraction(bits: u64) -> int {
    (bits & 0xFFFFFFFFFFFFFu64) as int
}

pub open spec fn f64_sign_set(bits: u64) -> bool {
    (bits >> 63u64) == 1
}

pub open spec fn f64_is_nan(bits: u64) -> bool {
    f64_exponent(bits) == 2047 && f64_fraction(bits) != 0
}

/// Whether the double with these bits compares greater than `0.0`.
pub open spec fn f64_is_positive(bits: u64) -> bool {
    !f64_sign_set(bits) && !f64_is_nan(bits) && (f64_exponent(bits) != 0 || f64_fraction(bits)
        != 0)
}

/// The magnitude of a finite, normal double with these bits, rounded toward zero.
pub open spec fn f64_truncated_magnitude(bits: u64) -> int {
    let e = f64_exponent(bits);
    let mantissa = f64_fraction(bits) + pow2(52);
    if e >= 1075 {
        mantissa * pow2((e - 1075) as nat)
    } else {
        mantissa / (pow2((1075 - e) as nat) as int)
    }
}

/// What `x as i64` gives for the double `x` with these bits: 0 for NaN,
/// otherwise `x` rounded toward zero and clamped to the range of `i64`.
pub open spec fn f64_as_i64(bits: u64) -> i64 {
    if f64_is_nan(bits) {
        0
    } else if f64_exponent(bits) == 0 {
        0
    } else {
        let magnitude = if f64_exponent(bits) == 2047 {
            pow2(64) as int
        } else {
            f64_truncated_magnitude(bits)
        };
        let v = if f64_sign_set(bits) { -magnitude } else { magnitude };
        if v > i64::MAX {
            i64::MAX
        } else if v < i64::MIN {
            i64::MIN
        } else {
            v as i64
        }
    }
}

/// Whether a double given by its bits is greater than `0.0`.
pub fn f64_bits_positive(bits: u64) -> (r: bool)
    ensures
        r == f64_is_positive(bits),
{
    let exponent = (bits >> 52u64) & 0x7FF;
    let fraction = bits & 0xFFFFFFFFFFFFFu64;
    let negative = (bits >> 63u64) == 1;
    !negative && !(exponent == 2047 && fraction != 0) && (exponent != 0 || fraction != 0)
}

proof fn lemma_pow2_facts()
    ensures
        pow2(52) == 0x10000000000000,
        pow2(53) == 0x20000000000000,
        pow2(63) == 0x8000000000000000,
        pow2(64) == 0x10000000000000000,
{
    lemma2_to64();
    lemma2_to64_rest();
}

/// Converts the double with these bits to `i64` as `x as i64` does.
pub fn seconds_from_f64_bits(bits: u64) -> (r: i64)
    ensures
        r == f64_as_i64(bits),
{
    let exponent = (bits >> 52u64) & 0x7FF;
    let fraction = bits & 0xFFFFFFFFFFFFFu64;
    let negative = (bits >> 63u64) == 1;
    proof {
        lemma_pow2_facts();
        assert(fraction < 0x10000000000000) by (bit_vector)
            requires
                fraction == bits & 0xFFFFFFFFFFFFFu64,
        ;
        assert(exponent <= 2047) by (bit_vector)
            requires
                exponent == (bits >> 52u64) & 0x7FF,
        ;
    }
    if exponent == 2047 {
        if fraction != 0 {
            return 0;
        }
        return if negative { i64::MIN } else { i64::MAX };
    }
    if exponent == 0 {
        return 0;
    }
    let mantissa: u64 = fraction | 0x10000000000000u64;
    assert(mantissa == fraction + 0x10000000000000u64) by (bit_vector)
        requires
            fraction < 0x10000000000000,
            mantissa == fraction | 0x10000000000000u64,
    ;
    if exponent < 1023 {
        proof {
            if 1075 - exponent > 53 {
                lemma_pow2_strictly_increases(53, (1075 - exponent) as nat);
            }
            lemma_basic_div(mantissa as int, pow2((1075 - exponent) as nat) as int);
        }
        return 0;
    }
    if exponent >= 1086 {
        proof {
            if exponent - 1075 > 11 {
                lemma_pow2_strictly_increases(11, (exponent - 1075) as nat);
            }
            assert(pow2(11) == 2048) by {
                lemma2_to64();
            }
            lemma_mul_inequality(2048, pow2((exponent - 1075) as nat) as int, mantissa as int);
            lemma_mul_is_commutative(mantissa as int, pow2((exponent - 1075) as nat) as int);
        }
        return if negative { i64::MIN } else { i64::MAX };
    }
    let t: u64 = if exponent >= 1075 {
        let shift = exponent - 1075;
        proof {
            if shift < 10 {
                lemma_pow2_strictly_increases(shift as nat, 10);
            }
            assert(pow2(10) == 1024) by {
                lemma2_to64();
            }
            lemma_mul_inequality(pow2(shift as nat) as int, 1024, mantissa as int);
            lemma_mul_is_commutative(mantissa as int, pow2(shift as nat) as int);
            lemma_u64_shl_is_mul(mantissa, shift);
        }
        mantissa << shift
    } else {
        let shift = 1075 - exponent;
        proof {
            lemma_u64_shr_is_div(mantissa, shift);
            lemma_pow2_pos(shift as nat);
            lemma_div_is_ordered_by_denominator(mantissa as int, 1, pow2(shift as nat) as int);
        }
        mantissa >> shift
    };
    assert(t < 0x8000000000000000u64);
    if negative {
        -(t as i64)
    } else {
        t as i64
    }
}

/// The day that holds the instant `secs` seconds after 1970-01-01T00:00:00Z,
/// counted in days from 1970-01-01 (rounded down).
fn unix_days(secs: i64) -> (r: i64)
    ensures
        r == secs as int / 86400,
{
    if secs >= 0 {
        secs / 86400
    } else {
        let n: i64 = -(secs + 1);
        let q: i64 = n / 86400;
        proof {
            lemma_floor_div_negative(secs as int, n as int, q as int);
        }
        -q - 1
    }
}

/// The calendar date, `YYYY-MM-DD`, of a Unix timestamp in whole seconds:
/// the date of the day that holds the instant, so that the seconds before
/// 1970 fall on 1969-12-31 and earlier.
pub fn date_from_unix_seconds(secs: i64) -> (r: String)
    ensures
        ({
            let c = civil_from_days(secs as int / 86400);
            r@ == date_text(c.0, c.1, c.2)
        }),
{
    let days = unix_days(secs);
    let (year, month, day) = days_to_ymd(days);
    let mut s = String::new();
    push_zero_padded(&mut s, year, 4);
    push_char(&mut s, '-');
    push_zero_padded(&mut s, month, 2);
    push_char(&mut s, '-');
    push_zero_padded(&mut s, day, 2);
    proof {
        assert(s@ =~= date_text(year as int, month as int, day as int));
    }
    s
}

/// The packed date of the day that holds a Unix timestamp in whole seconds
/// (the day rounded down, as for `date_from_unix_seconds`).
pub fn packed_date_from_unix_seconds(secs: i64) -> (r: i64)
    ensures
        ({
            let c = civil_from_days(secs as int / 86400);
            r == pack(c.0 as i64, c.1 as i64, c.2 as i64)
        }),
{
    let days = unix_days(secs);
    let (year, month, day) = days_to_ymd(days);
    (year << 16u64) | (month << 12u64) | (day << 7u64)
}

// ---------------------------------------------------------------------------
// Laws of the packed format
// ---------------------------------------------------------------------------

/// A `YYYY-MM-DD` string of digits whose fields fit the packed format
/// (year below 2048, month below 16, day below 32) and are not all zero.
pub open spec fn is_packable_date_text(s: Seq<char>) -> bool {
    &&& s.len() == 10
    &&& s[4] == '-'
    &&& s[7] == '-'
    &&& all_digits(s.subrange(0, 4))
    &&& all_digits(s.subrange(5, 7))
    &&& all_digits(s.subrange(8, 10))
    &&& digits_value(s.subrange(0, 4)) < 2048
    &&& digits_value(s.subrange(5, 7)) < 16
    &&& digits_value(s.subrange(8, 10)) < 32
    &&& (digits_value(s.subrange(0, 4)) != 0 || digits_value(s.subrange(5, 7)) != 0
        || digits_value(s.subrange(8, 10)) != 0)
}

proof fn lemma_pack_fields(y: i64, m: i64, d: i64)
    by (bit_vector)
    requires
        0 <= y < 2048,
        0 <= m < 16,
        0 <= d < 32,
    ensures
        packed_year(pack(y, m, d)) == y,
        packed_month(pack(y, m, d)) == m,
        packed_day(pack(y, m, d)) == d,
        pack(y, m, d) == 0 <==> (y == 0 && m == 0 && d == 0),
{
}

proof fn lemma_unpack_fields(v: i64)
    by (bit_vector)
    requires
        0 < v < 134217728,
        v & 0x7F == 0,
    ensures
        0 <= packed_year(v) < 2048,
        0 <= packed_month(v) < 16,
        0 <= packed_day(v) < 32,
        pack(packed_year(v), packed_month(v), packed_day(v)) == v,
        !(packed_year(v) == 0 && packed_month(v) == 0 && packed_day(v) == 0),
{
}

proof fn lemma_mod_128(v: i64)
    by (bit_vector)
    requires
        0 <= v,
    ensures
        v % 128 == 0 <==> v & 0x7F == 0,
{
}

/// A digit string without a sign parses to its value.
proof fn lemma_parse_digits(t: Seq<char>)
    requires
        all_digits(t),
        t.len() >= 1,
        digits_value(t) <= i64::MAX,
    ensures
        parse_i64(t) == Some(digits_value(t) as i64),
{
    assert(is_digit(t[0]));
    lemma_digits_value_bound(t);
}

/// The zero-padded form of a non-negative field parses back to the field.
proof fn lemma_parse_zero_padded(n: i64, width: int)
    requires
        n >= 0,
    ensures
        all_digits(zero_padded(n as int, width)),
        parse_i64(zero_padded(n as int, width)) == Some(n),
        forall|i: int|
            0 <= i < zero_padded(n as int, width).len() ==> #[trigger] zero_padded(
                n as int,
                width,
            )[i] != '-',
{
    let t = zero_padded(n as int, width);
    lemma_decimal_digits(n as nat);
    lemma_pad_left_value(decimal(n as nat), width);
    crate::text::lemma_decimal_len(n as nat);
    lemma_parse_digits(t);
    assert forall|i: int| 0 <= i < t.len() implies #[trigger] t[i] != '-' by {
        assert(is_digit(t[i]));
    }
}

/// Three non-negative fields written as `YYYY-MM-DD` read back as the
/// packed form of the same fields.
proof fn lemma_encoded_date_text(y: i64, m: i64, d: i64)
    requires
        y >= 0,
        m >= 0,
        d >= 0,
    ensures
        encoded_date(date_text(y as int, m as int, d as int)) == Some(pack(y, m, d)),
{
    let a = zero_padded(y as int, 4);
    let b = zero_padded(m as int, 2);
    let c = zero_padded(d as int, 2);
    lemma_parse_zero_padded(y, 4);
    lemma_parse_zero_padded(m, 2);
    lemma_parse_zero_padded(d, 2);
    let s = date_text(y as int, m as int, d as int);
    assert(s =~= a + seq!['-'] + (b + seq!['-'] + c));
    lemma_split_concat(a, b + seq!['-'] + c, '-');
    lemma_split_concat(b, c, '-');
    lemma_split_no_sep(a, '-');
    lemma_split_no_sep(b, '-');
    lemma_split_no_sep(c, '-');
    assert(split_on(s, '-') =~= seq![a, b, c]);
}

/// Law: a packed date read as text and packed again is the same number.
/// It holds of every positive value that uses only the year, month and day
/// bits (below 2^27, low seven bits clear).
pub proof fn lemma_encode_decode_roundtrip(v: i64)
    requires
        0 < v < 134217728,
        v % 128 == 0,
    ensures
        decoded_date(v) matches Some(s) && encoded_date(s) == Some(v),
{
    lemma_mod_128(v);
    lemma_unpack_fields(v);
    lemma_encoded_date_text(packed_year(v), packed_month(v), packed_day(v));
}

/// Law: a `YYYY-MM-DD` text whose fields fit the packed format packs to a
/// number that reads back as the same text.
pub proof fn lemma_decode_encode_roundtrip(s: Seq<char>)
    requires
        is_packable_date_text(s),
    ensures
        encoded_date(s) matches Some(v) && decoded_date(v) == Some(s),
{
    let a = s.subrange(0, 4);
    let b = s.subrange(5, 7);
    let c = s.subrange(8, 10);
    let y = digits_value(a) as i64;
    let m = digits_value(b) as i64;
    let d = digits_value(c) as i64;
    lemma_digits_value_bound(a);
    lemma_digits_value_bound(b);
    lemma_digits_value_bound(c);
    lemma_digits_canonical(a);
    lemma_digits_canonical(b);
    lemma_digits_canonical(c);
    assert(s =~= date_text(y as int, m as int, d as int));
    lemma_encoded_date_text(y, m, d);
    lemma_pack_fields(y, m, d);
}

/// Law: writing year, month and day as `YYYY-MM-DD`, encoding that text and
/// decoding the result gives the same text back, for every year of the
/// packed range and every month and day that the fields can hold.
pub proof fn lemma_date_fields_roundtrip(y: i64, m: i64, d: i64)
    requires
        0 <= y < 2048,
        0 <= m < 16,
        0 <= d < 32,
        !(y == 0 && m == 0 && d == 0),
    ensures
        encoded_date(date_text(y as int, m as int, d as int)) == Some(pack(y, m, d)),
        decoded_date(pack(y, m, d)) == Some(date_text(y as int, m as int, d as int)),
{
    lemma_encoded_date_text(y, m, d);
    lemma_pack_fields(y, m, d);
}

} // verus!
