//! Text building blocks: decimal numbers, zero padding, splitting, trimming,
//! joining and integer parsing, each with the meaning std gives it.

use vstd::prelude::*;
use vstd::string::*;

verus! {

// ---------------------------------------------------------------------------
// Specifications
// ---------------------------------------------------------------------------

/// The ASCII digit for `d` (0 <= d < 10).
pub open spec fn digit_char(d: int) -> char {
    (d + 48) as char
}

/// Decimal digits of `n`, most significant first, without leading zeros.
pub open spec fn decimal(n: nat) -> Seq<char>
    decreases n,
{
    if n < 10 {
        seq![digit_char(n as int)]
    } else {
        decimal(n / 10).push(digit_char((n % 10) as int))
    }
}

/// `k` copies of `'0'` (none when `k <= 0`).
pub open spec fn zeros(k: int) -> Seq<char> {
    Seq::new(if k > 0 { k as nat } else { 0 }, |i: int| '0')
}

/// `s` with zeros in front until it is `width` long.
pub open spec fn pad_left(s: Seq<char>, width: int) -> Seq<char> {
    zeros(width - s.len()) + s
}

/// What `format!("{:0w$}", n)` gives for a signed integer: the sign first,
/// then zeros so that the whole is at least `width` long, then the digits.
pub open spec fn zero_padded(n: int, width: int) -> Seq<char> {
    if n < 0 {
        seq!['-'] + pad_left(decimal((-n) as nat), width - 1)
    } else {
        pad_left(decimal(n as nat), width)
    }
}

/// Pieces of `s` between occurrences of `sep`, as `str::split` yields them.
pub open spec fn split_on(s: Seq<char>, sep: char) -> Seq<Seq<char>>
    decreases s.len(),
{
    if s.len() == 0 {
        seq![Seq::<char>::empty()]
    } else {
        let before = split_on(s.drop_last(), sep);
        if s.last() == sep {
            before.push(Seq::<char>::empty())
        } else {
            before.update(before.len() - 1, before.last().push(s.last()))
        }
    }
}

/// The first index at or after `j` where `s` holds `c`, or the length of `s`.
pub open spec fn stop_index(s: Seq<char>, c: char, j: nat) -> nat
    decreases s.len() - j,
{
    if j >= s.len() {
        s.len()
    } else if s[j as int] == c {
        j
    } else {
        stop_index(s, c, (j + 1) as nat)
    }
}

/// `parts` with `sep` between consecutive parts, as `[T]::join` builds it.
pub open spec fn join(parts: Seq<Seq<char>>, sep: Seq<char>) -> Seq<char>
    decreases parts.len(),
{
    if parts.len() == 0 {
        Seq::<char>::empty()
    } else if parts.len() == 1 {
        parts[0]
    } else {
        join(parts.drop_last(), sep) + sep + parts.last()
    }
}

/// The characters of each string.
pub open spec fn views(v: Seq<String>) -> Seq<Seq<char>> {
    v.map_values(|s: String| s@)
}

/// The characters of each string slice.
pub open spec fn str_views(v: Seq<&str>) -> Seq<Seq<char>> {
    v.map_values(|s: &str| s@)
}

/// Unicode `White_Space`, which `char::is_whitespace` tests.
pub open spec fn is_whitespace(c: char) -> bool {
    ||| ('\t' <= c <= '\r')
    ||| c == ' '
    ||| c == '\u{85}'
    ||| c == '\u{a0}'
    ||| c == '\u{1680}'
    ||| ('\u{2000}' <= c <= '\u{200a}')
    ||| c == '\u{2028}'
    ||| c == '\u{2029}'
    ||| c == '\u{202f}'
    ||| c == '\u{205f}'
    ||| c == '\u{3000}'
}

/// Number of leading whitespace characters of `s`.
pub open spec fn leading_ws(s: Seq<char>) -> nat
    decreases s.len(),
{
    if s.len() > 0 && is_whitespace(s[0]) {
        1 + leading_ws(s.drop_first())
    } else {
        0
    }
}

/// Number of trailing whitespace characters of `s`.
pub open spec fn trailing_ws(s: Seq<char>) -> nat
    decreases s.len(),
{
    if s.len() > 0 && is_whitespace(s.last()) {
        1 + trailing_ws(s.drop_last())
    } else {
        0
    }
}

/// `s` without leading and trailing whitespace, as `str::trim` gives it.
pub open spec fn trim(s: Seq<char>) -> Seq<char> {
    let front = leading_ws(s);
    if front == s.len() {
        Seq::<char>::empty()
    } else {
        s.subrange(front as int, s.len() - trailing_ws(s))
    }
}

pub open spec fn is_digit(c: char) -> bool {
    '0' <= c <= '9'
}

pub open spec fn all_digits(s: Seq<char>) -> bool {
    forall|i: int| 0 <= i < s.len() ==> is_digit(#[trigger] s[i])
}

/// Value of a string of decimal digits.
pub open spec fn digits_value(s: Seq<char>) -> int
    decreases s.len(),
{
    if s.len() == 0 {
        0
    } else {
        digits_value(s.drop_last()) * 10 + (s.last() as int - 48)
    }
}

/// What `str::parse::<i64>` accepts: an optional `+` or `-`, then one or
/// more ASCII digits, whose value lies in the range of `i64`.
pub open spec fn parse_i64(s: Seq<char>) -> Option<i64> {
    let signed = s.len() > 0 && (s[0] == '+' || s[0] == '-');
    let body = if signed { s.drop_first() } else { s };
    let magnitude = digits_value(body);
    let v = if signed && s[0] == '-' { -magnitude } else { magnitude };
    if body.len() == 0 || !all_digits(body) || v < i64::MIN || v > i64::MAX {
        None
    } else {
        Some(v as i64)
    }
}

// ---------------------------------------------------------------------------
// Lemmas
// ---------------------------------------------------------------------------

pub proof fn lemma_decimal_len(n: nat)
    ensures
        decimal(n).len() >= 1,
        n < 10 ==> decimal(n).len() == 1,
        10 <= n < 100 ==> decimal(n).len() == 2,
        100 <= n < 1000 ==> decimal(n).len() == 3,
        1000 <= n < 10000 ==> decimal(n).len() == 4,
    decreases n,
{
    if n >= 10 {
        lemma_decimal_len(n / 10);
    }
}

pub proof fn lemma_decimal_digits(n: nat)
    ensures
        all_digits(decimal(n)),
        digits_value(decimal(n)) == n,
    decreases n,
{
    if n >= 10 {
        lemma_decimal_digits(n / 10);
        let d = decimal(n);
        assert(d.drop_last() =~= decimal(n / 10));
        let m = (n % 10) as int;
        assert(digit_char(m) as int == m + 48);
        assert forall|i: int| 0 <= i < d.len() implies is_digit(#[trigger] d[i]) by {
            if i < d.len() - 1 {
                assert(d[i] == decimal(n / 10)[i]);
            }
        }
        assert(n / 10 * 10 + n % 10 == n);
        assert(d.last() == digit_char(m));
        assert(digits_value(d) == digits_value(d.drop_last()) * 10 + (d.last() as int - 48));
        assert(digits_value(d) == (n / 10) * 10 + m);
    } else {
        assert(digit_char(n as int) as int == n + 48);
        assert(decimal(n).drop_last() =~= Seq::<char>::empty());
        assert(digits_value(Seq::<char>::empty()) == 0);
    }
}

pub proof fn lemma_pow10_20()
    ensures
        pow10(20) == 100000000000000000000,
{
    reveal_with_fuel(pow10, 21);
}

/// A number below `10^k` has at most `k` digits.
pub proof fn lemma_decimal_len_bound(n: nat, k: nat)
    requires
        k >= 1,
        n < pow10(k),
    ensures
        decimal(n).len() <= k,
    decreases k,
{
    if n >= 10 {
        assert(k > 1) by {
            if k == 1 {
                assert(pow10(1) == 10 * pow10(0));
            }
        }
        assert(pow10(k) == 10 * pow10((k - 1) as nat));
        lemma_decimal_len_bound(n / 10, (k - 1) as nat);
    }
}

pub proof fn lemma_digits_value_zeros(z: Seq<char>, s: Seq<char>)
    requires
        forall|i: int| 0 <= i < z.len() ==> z[i] == '0',
    ensures
        digits_value(z + s) == digits_value(s) + digits_value(z) * pow10(s.len()),
        digits_value(z) == 0,
    decreases z.len() + s.len(),
{
    if s.len() == 0 {
        assert(z + s =~= z);
        lemma_zeros_value(z);
    } else {
        assert((z + s).drop_last() =~= z + s.drop_last());
        lemma_digits_value_zeros(z, s.drop_last());
        lemma_zeros_value(z);
    }
}

proof fn lemma_zeros_value(z: Seq<char>)
    requires
        forall|i: int| 0 <= i < z.len() ==> z[i] == '0',
    ensures
        digits_value(z) == 0,
    decreases z.len(),
{
    if z.len() > 0 {
        lemma_zeros_value(z.drop_last());
    }
}

pub open spec fn pow10(k: nat) -> int
    decreases k,
{
    if k == 0 {
        1
    } else {
        10 * pow10((k - 1) as nat)
    }
}

/// Zero padding leaves the value of a digit string unchanged.
pub proof fn lemma_pad_left_value(s: Seq<char>, width: int)
    requires
        all_digits(s),
    ensures
        all_digits(pad_left(s, width)),
        digits_value(pad_left(s, width)) == digits_value(s),
        pad_left(s, width).len() == if s.len() < width { width } else { s.len() as int },
{
    let z = zeros(width - s.len());
    lemma_digits_value_zeros(z, s);
    assert(all_digits(pad_left(s, width))) by {
        assert forall|i: int| 0 <= i < pad_left(s, width).len() implies is_digit(
            #[trigger] pad_left(s, width)[i],
        ) by {
            if i >= z.len() {
                assert(pad_left(s, width)[i] == s[i - z.len()]);
            }
        }
    }
}

pub proof fn lemma_digits_value_bound(s: Seq<char>)
    requires
        all_digits(s),
    ensures
        0 <= digits_value(s) < pow10(s.len()),
    decreases s.len(),
{
    if s.len() > 0 {
        lemma_digits_value_bound(s.drop_last());
        assert(is_digit(s[s.len() - 1]));
    }
}

/// A digit string's value is at least the value of any prefix of it.
pub proof fn lemma_digits_value_prefix(s: Seq<char>, k: int)
    requires
        all_digits(s),
        0 <= k <= s.len(),
    ensures
        digits_value(s.take(k)) <= digits_value(s),
    decreases s.len() - k,
{
    if k < s.len() {
        lemma_digits_value_prefix(s, k + 1);
        assert(s.take(k + 1).drop_last() =~= s.take(k));
        lemma_digits_value_bound(s.take(k));
        assert(is_digit(s[k]));
    } else {
        assert(s.take(k) =~= s);
    }
}

pub proof fn lemma_views_push(v: Seq<String>, x: String)
    ensures
        views(v.push(x)) =~= views(v).push(x@),
{
}

pub proof fn lemma_split_len(s: Seq<char>, sep: char)
    ensures
        split_on(s, sep).len() >= 1,
    decreases s.len(),
{
    if s.len() > 0 {
        lemma_split_len(s.drop_last(), sep);
    }
}

/// A string without the separator is a single piece.
pub proof fn lemma_split_no_sep(t: Seq<char>, sep: char)
    requires
        forall|i: int| 0 <= i < t.len() ==> t[i] != sep,
    ensures
        split_on(t, sep) == seq![t],
    decreases t.len(),
{
    if t.len() > 0 {
        lemma_split_no_sep(t.drop_last(), sep);
        assert(t[t.len() - 1] != sep);
        assert(t.drop_last().push(t.last()) =~= t);
        let before = split_on(t.drop_last(), sep);
        assert(before == seq![t.drop_last()]);
        let r = split_on(t, sep);
        assert(r == before.update(0, t.drop_last().push(t.last())));
        assert(r.len() == 1);
        assert(r[0] == t);
        assert(r =~= seq![t]);
    } else {
        assert(t =~= Seq::<char>::empty());
    }
}

/// Splitting at a separator splits the two sides apart.
pub proof fn lemma_split_concat(a: Seq<char>, b: Seq<char>, sep: char)
    ensures
        split_on(a + seq![sep] + b, sep) == split_on(a, sep) + split_on(b, sep),
    decreases b.len(),
{
    let whole = a + seq![sep] + b;
    if b.len() == 0 {
        assert(whole.drop_last() =~= a);
        assert(split_on(b, sep) =~= seq![Seq::<char>::empty()]);
        assert(split_on(whole, sep) =~= split_on(a, sep) + split_on(b, sep));
    } else {
        assert(whole.drop_last() =~= a + seq![sep] + b.drop_last());
        lemma_split_concat(a, b.drop_last(), sep);
        lemma_split_len(b.drop_last(), sep);
        lemma_split_len(a, sep);
        assert(split_on(whole, sep) =~= split_on(a, sep) + split_on(b, sep));
    }
}

/// Parts without `sep`, joined with `sep`, split back into the same parts.
pub proof fn lemma_split_join_char(parts: Seq<Seq<char>>, sep: char)
    requires
        parts.len() >= 1,
        forall|i: int, j: int| 0 <= i < parts.len() && 0 <= j < parts[i].len() ==> #[trigger] parts[i][j] != sep,
    ensures
        split_on(join(parts, seq![sep]), sep) == parts,
    decreases parts.len(),
{
    let last = parts.last();
    assert forall|j: int| 0 <= j < last.len() implies last[j] != sep by {
        assert(last[j] == parts[parts.len() - 1][j]);
    }
    lemma_split_no_sep(last, sep);
    if parts.len() == 1 {
        assert(seq![last] =~= parts);
    } else {
        let front = parts.drop_last();
        assert forall|i: int, j: int| 0 <= i < front.len() && 0 <= j < front[i].len() implies #[trigger] front[i][j] != sep by {
            assert(front[i] == parts[i]);
        }
        lemma_split_join_char(front, sep);
        lemma_split_concat(join(front, seq![sep]), last, sep);
        assert(front + seq![last] =~= parts);
    }
}

proof fn lemma_value_zero_is_zeros(t: Seq<char>)
    requires
        all_digits(t),
        digits_value(t) == 0,
    ensures
        t =~= zeros(t.len() as int),
    decreases t.len(),
{
    if t.len() > 0 {
        lemma_digits_value_bound(t.drop_last());
        assert(is_digit(t[t.len() - 1]));
        assert(all_digits(t.drop_last())) by {
            assert forall|i: int| 0 <= i < t.drop_last().len() implies is_digit(
                #[trigger] t.drop_last()[i],
            ) by {
                assert(t.drop_last()[i] == t[i]);
            }
        }
        lemma_value_zero_is_zeros(t.drop_last());
        assert(t =~= t.drop_last().push(t.last()));
    }
}

/// A digit string is the zero-padded decimal form of its own value.
pub proof fn lemma_digits_canonical(t: Seq<char>)
    requires
        all_digits(t),
        t.len() >= 1,
    ensures
        pad_left(decimal(digits_value(t) as nat), t.len() as int) == t,
    decreases t.len(),
{
    let v = digits_value(t);
    let front = t.drop_last();
    lemma_digits_value_bound(front);
    lemma_digits_value_bound(t);
    assert(is_digit(t[t.len() - 1]));
    assert(all_digits(front)) by {
        assert forall|i: int| 0 <= i < front.len() implies is_digit(#[trigger] front[i]) by {
            assert(front[i] == t[i]);
        }
    }
    let c = t.last();
    assert(digit_char(c as int - 48) == c);
    if v < 10 {
        assert(digits_value(front) == 0);
        lemma_value_zero_is_zeros(front);
        assert(decimal(v as nat) =~= seq![c]);
        assert(pad_left(decimal(v as nat), t.len() as int) =~= t);
    } else {
        assert(front.len() >= 1);
        lemma_digits_canonical(front);
        assert(v / 10 == digits_value(front));
        assert(v % 10 == c as int - 48);
        lemma_decimal_len(v as nat);
        lemma_decimal_len((v / 10) as nat);
        assert(pad_left(decimal(v as nat), t.len() as int) =~= pad_left(
            decimal(digits_value(front) as nat),
            front.len() as int,
        ).push(c));
    }
}

// ---------------------------------------------------------------------------
// Executable functions
// ---------------------------------------------------------------------------

/// Appends one character to a string.
/// Calls std's `String::push`, which, as its documentation states, appends
/// the given char to the end of the string; the contract says just that.
#[verifier::external_body]
pub(crate) fn push_char(s: &mut String, c: char)
    ensures
        final(s)@ == old(s)@.push(c),
{
    s.push(c);
}

/// The ASCII digit for `d`.
pub(crate) fn digit(d: u64) -> (c: char)
    requires
        d < 10,
    ensures
        c == digit_char(d as int),
{
    ((48u8 + d as u8) as char)
}

/// Appends the decimal digits of `n`.
pub(crate) fn push_decimal(s: &mut String, n: u64)
    ensures
        final(s)@ == old(s)@ + decimal(n as nat),
    decreases n,
{
    if n >= 10 {
        push_decimal(s, n / 10);
    }
    push_char(s, digit(n % 10));
    proof {
        if n < 10 {
            assert(decimal(n as nat) =~= seq![digit_char(n as int)]);
        }
    }
}

/// Number of decimal digits of `n`.
pub(crate) fn decimal_len(n: u64) -> (r: usize)
    ensures
        r == decimal(n as nat).len(),
        1 <= r <= 20,
    decreases n,
{
    if n < 10 {
        1
    } else {
        proof {
            lemma_decimal_len((n / 10) as nat);
            lemma_pow10_20();
            lemma_decimal_len_bound(n as nat, 20);
        }
        let k = decimal_len(n / 10);
        k + 1
    }
}

/// Appends `n` formatted as `format!("{:0width$}", n)` does.
pub fn push_zero_padded(s: &mut String, n: i64, width: usize)
    ensures
        final(s)@ == old(s)@ + zero_padded(n as int, width as int),
{
    let magnitude: u64 = if n < 0 {
        push_char(s, '-');
        ((-(n + 1)) as u64) + 1
    } else {
        n as u64
    };
    let digits = decimal_len(magnitude);
    let target: usize = if n < 0 {
        if width > 0 { width - 1 } else { 0 }
    } else {
        width
    };
    let ghost before = s@;
    let mut k: usize = digits;
    while k < target
        invariant
            digits <= k <= target || (k == digits && target <= digits),
            s@ == before + zeros(k - digits),
        decreases target - k,
    {
        push_char(s, '0');
        k = k + 1;
        assert(s@ =~= before + zeros(k - digits));
    }
    push_decimal(s, magnitude);
    proof {
        assert(zeros(k - digits) =~= zeros(target - decimal(magnitude as nat).len()));
        if n < 0 {
            assert(zeros(k - digits) =~= zeros((width as int - 1) - decimal(magnitude as nat).len()));
        }
    }
}

/// The pieces of `s` between occurrences of `sep` (`str::split`).
pub fn split_char(s: &str, sep: char) -> (parts: Vec<String>)
    ensures
        views(parts@) == split_on(s@, sep),
{
    let n = s.unicode_len();
    let mut parts: Vec<String> = Vec::new();
    parts.push(String::new());
    let mut i: usize = 0;
    proof {
        assert(s@.take(0) =~= Seq::<char>::empty());
        assert(views(parts@) =~= split_on(s@.take(0), sep));
    }
    while i < n
        invariant
            n == s@.len(),
            0 <= i <= n,
            parts@.len() >= 1,
            views(parts@) == split_on(s@.take(i as int), sep),
        decreases n - i,
    {
        let c = s.get_char(i);
        let ghost prev = views(parts@);
        assert(s@.take(i + 1).drop_last() =~= s@.take(i as int));
        if c == sep {
            parts.push(String::new());
            assert(views(parts@) =~= prev.push(Seq::<char>::empty()));
        } else {
            let last = parts.len() - 1;
            let mut piece = parts.remove(last);
            push_char(&mut piece, c);
            parts.push(piece);
            assert(views(parts@) =~= prev.update(prev.len() - 1, prev.last().push(c)));
        }
        i = i + 1;
    }
    assert(s@.take(n as int) =~= s@);
    parts
}

/// Whether `c` is Unicode whitespace (`char::is_whitespace`).
pub fn whitespace(c: char) -> (r: bool)
    ensures
        r == is_whitespace(c),
{
    ('\t' <= c && c <= '\r') || c == ' ' || c == '\u{85}' || c == '\u{a0}' || c == '\u{1680}'
        || ('\u{2000}' <= c && c <= '\u{200a}') || c == '\u{2028}' || c == '\u{2029}'
        || c == '\u{202f}' || c == '\u{205f}' || c == '\u{3000}'
}

proof fn lemma_leading_ws(s: Seq<char>, k: int)
    requires
        0 <= k <= s.len(),
        forall|j: int| 0 <= j < k ==> is_whitespace(#[trigger] s[j]),
        k == s.len() || !is_whitespace(s[k]),
    ensures
        leading_ws(s) == k,
    decreases k,
{
    if k > 0 {
        lemma_leading_ws(s.drop_first(), k - 1);
    }
}

proof fn lemma_trailing_ws(s: Seq<char>, k: int)
    requires
        0 <= k <= s.len(),
        forall|j: int| s.len() - k <= j < s.len() ==> is_whitespace(#[trigger] s[j]),
        k == s.len() || !is_whitespace(s[s.len() - k - 1]),
    ensures
        trailing_ws(s) == k,
    decreases k,
{
    if k > 0 {
        lemma_trailing_ws(s.drop_last(), k - 1);
    }
}

/// `s` without leading and trailing whitespace (`str::trim`).
pub fn trim_str(s: &str) -> (r: String)
    ensures
        r@ == trim(s@),
{
    let n = s.unicode_len();
    let mut start: usize = 0;
    while start < n && whitespace(s.get_char(start))
        invariant
            n == s@.len(),
            0 <= start <= n,
            forall|j: int| 0 <= j < start ==> is_whitespace(#[trigger] s@[j]),
        decreases n - start,
    {
        start = start + 1;
    }
    proof {
        lemma_leading_ws(s@, start as int);
    }
    let mut r = String::new();
    if start == n {
        return r;
    }
    let mut end: usize = n;
    while end > start && whitespace(s.get_char(end - 1))
        invariant
            n == s@.len(),
            start < n,
            !is_whitespace(s@[start as int]),
            start <= end <= n,
            forall|j: int| end <= j < n ==> is_whitespace(#[trigger] s@[j]),
        decreases end,
    {
        end = end - 1;
    }
    proof {
        lemma_trailing_ws(s@, n - end);
    }
    let mut i = start;
    while i < end
        invariant
            n == s@.len(),
            start <= i <= end <= n,
            r@ == s@.subrange(start as int, i as int),
        decreases end - i,
    {
        push_char(&mut r, s.get_char(i));
        i = i + 1;
        assert(r@ =~= s@.subrange(start as int, i as int));
    }
    r
}

/// The strings of `parts` with `sep` between them (`[String]::join`).
pub fn join_strings(parts: &[String], sep: &str) -> (r: String)
    ensures
        r@ == join(views(parts@), sep@),
{
    let mut r = String::new();
    let mut i: usize = 0;
    while i < parts.len()
        invariant
            0 <= i <= parts@.len(),
            r@ == join(views(parts@.take(i as int)), sep@),
        decreases parts@.len() - i,
    {
        let ghost prev = views(parts@.take(i as int));
        if i > 0 {
            r.append(sep);
        }
        r.append(parts[i].as_str());
        proof {
            let now = views(parts@.take(i + 1));
            assert(now.drop_last() =~= prev);
            assert(now.last() == parts@[i as int]@);
            if i == 0 {
                assert(now =~= seq![parts@[0]@]);
            }
        }
        i = i + 1;
    }
    assert(parts@.take(parts@.len() as int) =~= parts@);
    r
}

/// Parses a decimal integer as `str::parse::<i64>` does.
pub fn parse_i64_str(s: &str) -> (r: Option<i64>)
    ensures
        r == parse_i64(s@),
{
    let n = s.unicode_len();
    if n == 0 {
        return None;
    }
    let first = s.get_char(0);
    let signed = first == '+' || first == '-';
    let negative = first == '-';
    let start: usize = if signed { 1 } else { 0 };
    let ghost body = if signed { s@.drop_first() } else { s@ };
    assert(signed == (s@.len() > 0 && (s@[0] == '+' || s@[0] == '-')));
    assert(body =~= s@.subrange(start as int, n as int));
    if start == n {
        return None;
    }
    let limit: i128 = 9223372036854775808;
    let mut acc: i128 = 0;
    let mut i: usize = start;
    while i < n
        invariant
            n == s@.len(),
            start <= i <= n,
            body == s@.subrange(start as int, n as int),
            body == (if s@.len() > 0 && (s@[0] == '+' || s@[0] == '-') {
                s@.drop_first()
            } else {
                s@
            }),
            negative == (s@.len() > 0 && s@[0] == '-'),
            all_digits(body.take(i - start)),
            acc == digits_value(body.take(i - start)),
            0 <= acc <= limit,
            limit == 9223372036854775808,
        decreases n - i,
    {
        let c = s.get_char(i);
        if !('0' <= c && c <= '9') {
            assert(!is_digit(body[i - start]));
            assert(!all_digits(body));
            assert(parse_i64(s@) is None);
            return None;
        }
        let d = (c as u32 - 48) as i128;
        assert(body.take(i + 1 - start).drop_last() =~= body.take(i - start));
        acc = acc * 10 + d;
        i = i + 1;
        assert(all_digits(body.take(i - start))) by {
            assert forall|j: int| 0 <= j < body.take(i - start).len() implies is_digit(
                #[trigger] body.take(i - start)[j],
            ) by {
                if j < i - 1 - start {
                    assert(body.take(i - start)[j] == body.take(i - 1 - start)[j]);
                }
            }
        }
        if acc > limit {
            proof {
                if all_digits(body) {
                    lemma_digits_value_prefix(body, i - start);
                    assert(digits_value(body) > limit);
                }
            }
            return None;
        }
    }
    assert(body.take(n - start) =~= body);
    if negative {
        if acc == limit {
            Some(-9223372036854775807i64 - 1)
        } else {
            Some(-(acc as i64))
        }
    } else if acc == limit {
        None
    } else {
        Some(acc as i64)
    }
}

} // verus!
