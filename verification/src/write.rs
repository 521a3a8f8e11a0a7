//! Things URL scheme: the `things:///` URLs that create and change items.

use vstd::prelude::*;
use vstd::string::*;
use vstd::utf8::encode_utf8;
use crate::json::{json_quote, json_string};
use crate::text::{join, join_strings, lemma_split_concat, lemma_split_no_sep, push_char, split_on, stop_index, views};

verus! {

// ---------------------------------------------------------------------------
// Percent-encoding
// ---------------------------------------------------------------------------

/// Bytes that stand for themselves in a URL: `A-Z a-z 0-9 - _ . ~`.
pub open spec fn is_unreserved(b: u8) -> bool {
    (65 <= b <= 90) || (97 <= b <= 122) || (48 <= b <= 57) || b == 45 || b == 95 || b == 46
        || b == 126
}

/// Upper-case hexadecimal digit for `d` (0 <= d < 16).
pub open spec fn hex_upper(d: int) -> char {
    if d < 10 {
        (d + 48) as char
    } else {
        (d + 55) as char
    }
}

/// One byte in a URL: itself when unreserved, else `%` and two upper-case hex digits.
pub open spec fn percent_encode_byte(b: u8) -> Seq<char> {
    if is_unreserved(b) {
        seq![b as char]
    } else {
        seq!['%', hex_upper((b as int) / 16), hex_upper((b as int) % 16)]
    }
}

pub open spec fn percent_encode(bytes: Seq<u8>) -> Seq<char>
    decreases bytes.len(),
{
    if bytes.len() == 0 {
        Seq::<char>::empty()
    } else {
        percent_encode(bytes.drop_last()) + percent_encode_byte(bytes.last())
    }
}

/// `s` percent-encoded byte by byte over its UTF-8 encoding.
pub open spec fn url_encoded(s: Seq<char>) -> Seq<char> {
    percent_encode(encode_utf8(s))
}

fn hex_digit(d: u8) -> (c: char)
    requires
        d < 16,
    ensures
        c == hex_upper(d as int),
{
    if d < 10 {
        (48u8 + d) as char
    } else {
        (55u8 + d) as char
    }
}

/// Percent-encodes `s` over its UTF-8 bytes, keeping `A-Z a-z 0-9 - _ . ~`.
pub fn url_encode(s: &str) -> (r: String)
    ensures
        r@ == url_encoded(s@),
{
    let bytes = s.as_bytes();
    let mut result = String::new();
    let mut i: usize = 0;
    while i < bytes.len()
        invariant
            bytes@ == encode_utf8(s@),
            0 <= i <= bytes@.len(),
            result@ == percent_encode(bytes@.take(i as int)),
        decreases bytes@.len() - i,
    {
        let b = bytes[i];
        if (65 <= b && b <= 90) || (97 <= b && b <= 122) || (48 <= b && b <= 57) || b == 45
            || b == 95 || b == 46 || b == 126 {
            push_char(&mut result, b as char);
        } else {
            push_char(&mut result, '%');
            push_char(&mut result, hex_digit(b / 16));
            push_char(&mut result, hex_digit(b % 16));
        }
        assert(bytes@.take(i + 1).drop_last() =~= bytes@.take(i as int));
        i = i + 1;
    }
    assert(bytes@.take(bytes@.len() as int) =~= bytes@);
    result
}

/// The value of a hexadecimal digit (either case).
pub open spec fn hex_value(c: char) -> int {
    if '0' <= c <= '9' {
        c as int - 48
    } else if 'A' <= c <= 'F' {
        c as int - 55
    } else {
        c as int - 87
    }
}

/// Percent-decoding: `%` and two hex digits stand for one byte, any other
/// character for its own code.
pub open spec fn percent_decode(s: Seq<char>) -> Seq<u8>
    decreases s.len(),
{
    if s.len() == 0 {
        Seq::<u8>::empty()
    } else if s[0] == '%' && s.len() >= 3 {
        seq![(hex_value(s[1]) * 16 + hex_value(s[2])) as u8] + percent_decode(s.subrange(3, s.len() as int))
    } else {
        seq![s[0] as u8] + percent_decode(s.drop_first())
    }
}

proof fn lemma_percent_encode_concat(a: Seq<u8>, b: Seq<u8>)
    ensures
        percent_encode(a + b) == percent_encode(a) + percent_encode(b),
    decreases b.len(),
{
    if b.len() == 0 {
        assert(a + b =~= a);
        assert(percent_encode(a) + percent_encode(b) =~= percent_encode(a));
    } else {
        assert((a + b).drop_last() =~= a + b.drop_last());
        lemma_percent_encode_concat(a, b.drop_last());
        assert(percent_encode(a + b) =~= percent_encode(a) + percent_encode(b));
    }
}

proof fn lemma_decode_one(b: u8, rest: Seq<char>)
    ensures
        percent_decode(percent_encode_byte(b) + rest) == seq![b] + percent_decode(rest),
{
    let e = percent_encode_byte(b);
    if is_unreserved(b) {
        assert((e + rest)[0] == b as char);
        assert((e + rest).drop_first() =~= rest);
    } else {
        let hi = (b as int) / 16;
        let lo = (b as int) % 16;
        assert(hex_value(hex_upper(hi)) == hi);
        assert(hex_value(hex_upper(lo)) == lo);
        assert((e + rest).subrange(3, (e + rest).len() as int) =~= rest);
        assert((e + rest)[0] == '%');
    }
}

/// Law: percent-decoding an encoded string gives back its UTF-8 bytes, so
/// no two strings are encoded alike.
pub proof fn lemma_url_decode_encode(bytes: Seq<u8>)
    ensures
        percent_decode(percent_encode(bytes)) == bytes,
    decreases bytes.len(),
{
    if bytes.len() > 0 {
        let tail = bytes.drop_first();
        assert(bytes =~= seq![bytes[0]] + tail);
        lemma_percent_encode_concat(seq![bytes[0]], tail);
        assert(seq![bytes[0]].drop_last() =~= Seq::<u8>::empty());
        assert(percent_encode(Seq::<u8>::empty()) =~= Seq::<char>::empty());
        assert(seq![bytes[0]].last() == bytes[0]);
        assert(percent_encode(seq![bytes[0]]) =~= percent_encode_byte(bytes[0]));
        lemma_decode_one(bytes[0], percent_encode(tail));
        lemma_url_decode_encode(tail);
    }
}

/// Law: an encoded string holds only unreserved characters, `%` and
/// upper-case hex digits, so it contains no `&`, `=`, space or newline.
pub proof fn lemma_url_encoded_charset(bytes: Seq<u8>)
    ensures
        forall|i: int|
            0 <= i < percent_encode(bytes).len() ==> {
                let c = #[trigger] percent_encode(bytes)[i];
                ('A' <= c <= 'Z') || ('a' <= c <= 'z') || ('0' <= c <= '9') || c == '-' || c == '_'
                    || c == '.' || c == '~' || c == '%'
            },
    decreases bytes.len(),
{
    if bytes.len() > 0 {
        lemma_url_encoded_charset(bytes.drop_last());
        let prev = percent_encode(bytes.drop_last());
        let e = percent_encode_byte(bytes.last());
        assert forall|i: int| 0 <= i < percent_encode(bytes).len() implies {
            let c = #[trigger] percent_encode(bytes)[i];
            ('A' <= c <= 'Z') || ('a' <= c <= 'z') || ('0' <= c <= '9') || c == '-' || c == '_'
                || c == '.' || c == '~' || c == '%'
        } by {
            if i >= prev.len() {
                assert(percent_encode(bytes)[i] == e[i - prev.len()]);
            } else {
                assert(percent_encode(bytes)[i] == prev[i]);
            }
        }
    }
}

/// An upper-case hexadecimal digit: `0-9` or `A-F`.
pub open spec fn is_upper_hex(c: char) -> bool {
    ('0' <= c <= '9') || ('A' <= c <= 'F')
}

/// Law: in an encoded string every `%` starts a triple: it is followed by
/// two upper-case hexadecimal digits.
pub proof fn lemma_url_encoded_triples(bytes: Seq<u8>)
    ensures
        forall|i: int|
            0 <= i < percent_encode(bytes).len() && #[trigger] percent_encode(bytes)[i] == '%'
                ==> i + 2 < percent_encode(bytes).len() && is_upper_hex(percent_encode(bytes)[i + 1])
                && is_upper_hex(percent_encode(bytes)[i + 2]),
    decreases bytes.len(),
{
    if bytes.len() > 0 {
        lemma_url_encoded_triples(bytes.drop_last());
        let prev = percent_encode(bytes.drop_last());
        let b = bytes.last();
        let e = percent_encode_byte(b);
        let all = percent_encode(bytes);
        assert(all == prev + e);
        assert forall|i: int| 0 <= i < all.len() && #[trigger] all[i] == '%' implies i + 2
            < all.len() && is_upper_hex(all[i + 1]) && is_upper_hex(all[i + 2]) by {
            if i < prev.len() {
                assert(all[i] == prev[i]);
                assert(all[i + 1] == prev[i + 1]);
                assert(all[i + 2] == prev[i + 2]);
            } else {
                assert(all[i] == e[i - prev.len()]);
                if is_unreserved(b) {
                    assert(e[0] == b as char);
                    assert(false);
                } else {
                    let hi = (b as int) / 16;
                    let lo = (b as int) % 16;
                    assert(e == seq!['%', hex_upper(hi), hex_upper(lo)]);
                    assert(i - prev.len() == 0) by {
                        if i - prev.len() == 1 {
                            assert(e[1] == hex_upper(hi));
                        } else if i - prev.len() == 2 {
                            assert(e[2] == hex_upper(lo));
                        }
                    }
                    assert(all[i + 1] == hex_upper(hi));
                    assert(all[i + 2] == hex_upper(lo));
                }
            }
        }
    }
}

// ---------------------------------------------------------------------------
// Parameters
// ---------------------------------------------------------------------------

/// Parameters for adding a new todo.
pub struct AddParams<'a> {
    pub title: &'a str,
    pub notes: Option<&'a str>,
    pub when: Option<&'a str>,
    pub deadline: Option<&'a str>,
    pub tags: Option<&'a str>,
    pub list: Option<&'a str>,
    pub heading: Option<&'a str>,
    pub checklist_items: &'a [String],
}

/// Parameters for updating an existing item.
pub struct UpdateParams<'a> {
    pub id: &'a str,
    pub auth_token: &'a str,
    pub title: Option<&'a str>,
    pub notes: Option<&'a str>,
    pub append_notes: Option<&'a str>,
    pub prepend_notes: Option<&'a str>,
    pub when: Option<&'a str>,
    pub deadline: Option<&'a str>,
    pub add_tags: Option<&'a str>,
    pub list: Option<&'a str>,
    pub heading: Option<&'a str>,
}

/// Parameters for adding a new project.
pub struct AddProjectParams<'a> {
    pub title: &'a str,
    pub notes: Option<&'a str>,
    pub when: Option<&'a str>,
    pub deadline: Option<&'a str>,
    pub tags: Option<&'a str>,
    pub area: Option<&'a str>,
    pub todos: &'a [String],
}

/// Opens URLs with the macOS `open` command.
pub struct MacOsUrlOpener;

/// `key` (which ends in `=`) followed by the encoded value.
pub open spec fn param(key: Seq<char>, value: Seq<char>) -> Seq<char> {
    key + url_encoded(value)
}

/// The characters of an optional string slice.
pub open spec fn str_opt(o: Option<&str>) -> Option<Seq<char>> {
    match o {
        Some(s) => Some(s@),
        None => None,
    }
}

/// The characters of an optional string.
pub open spec fn string_opt(o: Option<String>) -> Option<Seq<char>> {
    match o {
        Some(s) => Some(s@),
        None => None,
    }
}

/// The parameter for an optional value: one part when it is present.
pub open spec fn opt_param(key: Seq<char>, value: Option<Seq<char>>) -> Seq<Seq<char>> {
    match value {
        Some(v) => seq![param(key, v)],
        None => Seq::<Seq<char>>::empty(),
    }
}

/// The `title` object of one to-do in a new project's `to-dos` list.
pub open spec fn todo_json(title: Seq<char>) -> Seq<char> {
    "{\"title\":"@ + json_string(title) + "}"@
}

/// The JSON array of to-do objects for a new project.
pub open spec fn todos_json(todos: Seq<Seq<char>>) -> Seq<char> {
    "["@ + join(todos.map_values(|t: Seq<char>| todo_json(t)), ","@) + "]"@
}

/// The query parameters of an add URL, in order.
pub open spec fn add_parts(
    title: Seq<char>,
    notes: Option<Seq<char>>,
    when: Option<Seq<char>>,
    deadline: Option<Seq<char>>,
    tags: Option<Seq<char>>,
    list: Option<Seq<char>>,
    heading: Option<Seq<char>>,
    checklist_items: Seq<Seq<char>>,
) -> Seq<Seq<char>> {
    seq![param("title="@, title)] + opt_param("notes="@, notes) + opt_param("when="@, when)
        + opt_param("deadline="@, deadline) + opt_param("tags="@, tags) + opt_param(
        "list="@,
        list,
    ) + opt_param("heading="@, heading) + if checklist_items.len() == 0 {
        Seq::<Seq<char>>::empty()
    } else {
        seq![param("checklist-items="@, join(checklist_items, "\n"@))]
    }
}

pub open spec fn add_url_of(
    title: Seq<char>,
    notes: Option<Seq<char>>,
    when: Option<Seq<char>>,
    deadline: Option<Seq<char>>,
    tags: Option<Seq<char>>,
    list: Option<Seq<char>>,
    heading: Option<Seq<char>>,
    checklist_items: Seq<Seq<char>>,
) -> Seq<char> {
    "things:///add?"@ + join(
        add_parts(title, notes, when, deadline, tags, list, heading, checklist_items),
        "&"@,
    )
}

pub open spec fn add_url(p: AddParams) -> Seq<char> {
    add_url_of(
        p.title@,
        str_opt(p.notes),
        str_opt(p.when),
        str_opt(p.deadline),
        str_opt(p.tags),
        str_opt(p.list),
        str_opt(p.heading),
        views(p.checklist_items@),
    )
}

// ---------------------------------------------------------------------------
// Reading an add URL back
// ---------------------------------------------------------------------------

/// Whether `s` holds no `c`.
pub open spec fn lacks(s: Seq<char>, c: char) -> bool {
    forall|i: int| 0 <= i < s.len() ==> s[i] != c
}

/// One query parameter read back: its name, up to the first `=`, and the
/// percent-decoded bytes of what follows.
pub open spec fn read_param(part: Seq<char>) -> (Seq<char>, Seq<u8>) {
    let k = stop_index(part, '=', 0) as int;
    if k < part.len() {
        (part.take(k), percent_decode(part.skip(k + 1)))
    } else {
        (part, Seq::<u8>::empty())
    }
}

/// The query of a URL read back: split on `&`, each part read as a parameter.
pub open spec fn read_query(query: Seq<char>) -> Seq<(Seq<char>, Seq<u8>)> {
    split_on(query, '&').map_values(|p: Seq<char>| read_param(p))
}

/// A parameter with an optional value, as read back.
pub open spec fn opt_pair(name: Seq<char>, value: Option<Seq<char>>) -> Seq<(Seq<char>, Seq<u8>)> {
    match value {
        Some(v) => seq![(name, encode_utf8(v))],
        None => Seq::<(Seq<char>, Seq<u8>)>::empty(),
    }
}

/// The parameters of an add URL by name, with the UTF-8 bytes of their
/// values, in the order the URL gives them.
pub open spec fn add_pairs(
    title: Seq<char>,
    notes: Option<Seq<char>>,
    when: Option<Seq<char>>,
    deadline: Option<Seq<char>>,
    tags: Option<Seq<char>>,
    list: Option<Seq<char>>,
    heading: Option<Seq<char>>,
    checklist_items: Seq<Seq<char>>,
) -> Seq<(Seq<char>, Seq<u8>)> {
    seq![("title"@, encode_utf8(title))] + opt_pair("notes"@, notes) + opt_pair("when"@, when)
        + opt_pair("deadline"@, deadline) + opt_pair("tags"@, tags) + opt_pair("list"@, list)
        + opt_pair("heading"@, heading) + if checklist_items.len() == 0 {
        Seq::<(Seq<char>, Seq<u8>)>::empty()
    } else {
        seq![("checklist-items"@, encode_utf8(join(checklist_items, "\n"@)))]
    }
}

proof fn lemma_stop_index_at(s: Seq<char>, c: char, j: nat, k: nat)
    requires
        j <= k < s.len(),
        s[k as int] == c,
        forall|i: int| j <= i < k ==> s[i] != c,
    ensures
        stop_index(s, c, j) == k,
    decreases k - j,
{
    if j < k {
        lemma_stop_index_at(s, c, (j + 1) as nat, k);
    }
}

/// A parameter `name=value` reads back as the name and the value's bytes,
/// and holds no `&`.
proof fn lemma_param_reads_back(name: Seq<char>, v: Seq<char>)
    requires
        lacks(name, '='),
        lacks(name, '&'),
    ensures
        read_param(param(name + seq!['='], v)) == (name, encode_utf8(v)),
        lacks(param(name + seq!['='], v), '&'),
{
    let enc = url_encoded(v);
    let part = name + seq!['='] + enc;
    assert(param(name + seq!['='], v) == part);
    lemma_stop_index_at(part, '=', 0, name.len());
    assert(part.take(name.len() as int) =~= name);
    assert(part.skip(name.len() as int + 1) =~= enc);
    lemma_url_decode_encode(encode_utf8(v));
    lemma_url_encoded_charset(encode_utf8(v));
    assert forall|i: int| 0 <= i < part.len() implies part[i] != '&' by {
        if i > name.len() {
            assert(part[i] == enc[i - name.len() - 1]);
        }
    }
}

/// The same for an optional parameter.
proof fn lemma_opt_param_reads_back(name: Seq<char>, v: Option<Seq<char>>)
    requires
        lacks(name, '='),
        lacks(name, '&'),
    ensures
        opt_param(name + seq!['='], v).map_values(|p: Seq<char>| read_param(p)) == opt_pair(
            name,
            v,
        ),
        forall|i: int|
            0 <= i < opt_param(name + seq!['='], v).len() ==> lacks(
                #[trigger] opt_param(name + seq!['='], v)[i],
                '&',
            ),
{
    match v {
        Some(x) => {
            lemma_param_reads_back(name, x);
            assert(opt_param(name + seq!['='], v).map_values(|p: Seq<char>| read_param(p))
                =~= opt_pair(name, v));
        },
        None => {
            assert(opt_param(name + seq!['='], v).map_values(|p: Seq<char>| read_param(p))
                =~= opt_pair(name, v));
        },
    }
}

/// Parts without `&`, joined with `&`, split back into the same parts.
proof fn lemma_split_join(parts: Seq<Seq<char>>)
    requires
        parts.len() >= 1,
        forall|i: int| 0 <= i < parts.len() ==> lacks(#[trigger] parts[i], '&'),
    ensures
        split_on(join(parts, "&"@), '&') == parts,
    decreases parts.len(),
{
    reveal_strlit("&");
    assert("&"@ =~= seq!['&']);
    let last = parts.last();
    lemma_split_no_sep(last, '&');
    if parts.len() == 1 {
        assert(join(parts, "&"@) == parts[0]);
        assert(seq![last] =~= parts);
    } else {
        let front = parts.drop_last();
        assert forall|i: int| 0 <= i < front.len() implies lacks(#[trigger] front[i], '&') by {
            assert(front[i] == parts[i]);
        }
        lemma_split_join(front);
        assert(join(parts, "&"@) == join(front, "&"@) + seq!['&'] + last);
        lemma_split_concat(join(front, "&"@), last, '&');
        assert(front + seq![last] =~= parts);
    }
}

proof fn lemma_lacks_concat(a: Seq<Seq<char>>, b: Seq<Seq<char>>)
    requires
        forall|i: int| 0 <= i < a.len() ==> lacks(#[trigger] a[i], '&'),
        forall|i: int| 0 <= i < b.len() ==> lacks(#[trigger] b[i], '&'),
    ensures
        forall|i: int| 0 <= i < (a + b).len() ==> lacks(#[trigger] (a + b)[i], '&'),
{
    assert forall|i: int| 0 <= i < (a + b).len() implies lacks(#[trigger] (a + b)[i], '&') by {
        if i < a.len() {
            assert((a + b)[i] == a[i]);
        } else {
            assert((a + b)[i] == b[i - a.len()]);
        }
    }
}

proof fn lemma_map_concat(a: Seq<Seq<char>>, b: Seq<Seq<char>>)
    ensures
        (a + b).map_values(|p: Seq<char>| read_param(p)) == a.map_values(
            |p: Seq<char>| read_param(p),
        ) + b.map_values(|p: Seq<char>| read_param(p)),
{
    assert((a + b).map_values(|p: Seq<char>| read_param(p)) =~= a.map_values(
        |p: Seq<char>| read_param(p),
    ) + b.map_values(|p: Seq<char>| read_param(p)));
}

/// Law: an add URL is `things:///add?` and a query that reads back as the
/// parameters given, in order: the title, then each of notes, when,
/// deadline, tags, list and heading that is present, then the checklist
/// items joined by newlines when there are any. Each value reads back as
/// its UTF-8 bytes.
#[verifier::spinoff_prover]
#[verifier::rlimit(60)]
pub proof fn lemma_add_url_reads_back(
    title: Seq<char>,
    notes: Option<Seq<char>>,
    when: Option<Seq<char>>,
    deadline: Option<Seq<char>>,
    tags: Option<Seq<char>>,
    list: Option<Seq<char>>,
    heading: Option<Seq<char>>,
    checklist_items: Seq<Seq<char>>,
)
    ensures
        ({
            let url = add_url_of(title, notes, when, deadline, tags, list, heading, checklist_items);
            &&& url.take(14) == "things:///add?"@
            &&& read_query(url.skip(14)) == add_pairs(
                title,
                notes,
                when,
                deadline,
                tags,
                list,
                heading,
                checklist_items,
            )
        }),
{
    reveal_strlit("things:///add?");
    reveal_strlit("title=");
    reveal_strlit("title");
    reveal_strlit("notes=");
    reveal_strlit("notes");
    reveal_strlit("when=");
    reveal_strlit("when");
    reveal_strlit("deadline=");
    reveal_strlit("deadline");
    reveal_strlit("tags=");
    reveal_strlit("tags");
    reveal_strlit("list=");
    reveal_strlit("list");
    reveal_strlit("heading=");
    reveal_strlit("heading");
    reveal_strlit("checklist-items=");
    reveal_strlit("checklist-items");
    assert("title="@ =~= "title"@ + seq!['=']);
    assert("notes="@ =~= "notes"@ + seq!['=']);
    assert("when="@ =~= "when"@ + seq!['=']);
    assert("deadline="@ =~= "deadline"@ + seq!['=']);
    assert("tags="@ =~= "tags"@ + seq!['=']);
    assert("list="@ =~= "list"@ + seq!['=']);
    assert("heading="@ =~= "heading"@ + seq!['=']);
    assert("checklist-items="@ =~= "checklist-items"@ + seq!['=']);
    let parts = add_parts(title, notes, when, deadline, tags, list, heading, checklist_items);
    let query = join(parts, "&"@);
    let url = add_url_of(title, notes, when, deadline, tags, list, heading, checklist_items);
    assert(url == "things:///add?"@ + query);
    assert(url.take(14) =~= "things:///add?"@);
    assert(url.skip(14) =~= query);

    let p0 = seq![param("title="@, title)];
    lemma_param_reads_back("title"@, title);
    assert(p0.map_values(|p: Seq<char>| read_param(p)) =~= seq![("title"@, encode_utf8(title))]);
    lemma_opt_param_reads_back("notes"@, notes);
    lemma_opt_param_reads_back("when"@, when);
    lemma_opt_param_reads_back("deadline"@, deadline);
    lemma_opt_param_reads_back("tags"@, tags);
    lemma_opt_param_reads_back("list"@, list);
    lemma_opt_param_reads_back("heading"@, heading);
    let p1 = opt_param("notes="@, notes);
    let p2 = opt_param("when="@, when);
    let p3 = opt_param("deadline="@, deadline);
    let p4 = opt_param("tags="@, tags);
    let p5 = opt_param("list="@, list);
    let p6 = opt_param("heading="@, heading);
    let p7 = if checklist_items.len() == 0 {
        Seq::<Seq<char>>::empty()
    } else {
        seq![param("checklist-items="@, join(checklist_items, "\n"@))]
    };
    let q7 = if checklist_items.len() == 0 {
        Seq::<(Seq<char>, Seq<u8>)>::empty()
    } else {
        seq![("checklist-items"@, encode_utf8(join(checklist_items, "\n"@)))]
    };
    lemma_param_reads_back("checklist-items"@, join(checklist_items, "\n"@));
    assert(p7.map_values(|p: Seq<char>| read_param(p)) =~= q7);
    assert(parts == p0 + p1 + p2 + p3 + p4 + p5 + p6 + p7);

    assert forall|i: int| 0 <= i < p0.len() implies lacks(#[trigger] p0[i], '&') by {}
    assert forall|i: int| 0 <= i < p7.len() implies lacks(#[trigger] p7[i], '&') by {}
    lemma_lacks_concat(p0, p1);
    lemma_lacks_concat(p0 + p1, p2);
    lemma_lacks_concat(p0 + p1 + p2, p3);
    lemma_lacks_concat(p0 + p1 + p2 + p3, p4);
    lemma_lacks_concat(p0 + p1 + p2 + p3 + p4, p5);
    lemma_lacks_concat(p0 + p1 + p2 + p3 + p4 + p5, p6);
    lemma_lacks_concat(p0 + p1 + p2 + p3 + p4 + p5 + p6, p7);
    lemma_split_join(parts);

    lemma_map_concat(p0, p1);
    lemma_map_concat(p0 + p1, p2);
    lemma_map_concat(p0 + p1 + p2, p3);
    lemma_map_concat(p0 + p1 + p2 + p3, p4);
    lemma_map_concat(p0 + p1 + p2 + p3 + p4, p5);
    lemma_map_concat(p0 + p1 + p2 + p3 + p4 + p5, p6);
    lemma_map_concat(p0 + p1 + p2 + p3 + p4 + p5 + p6, p7);
}

/// The parameters of an update URL by name, with the UTF-8 bytes of their
/// values, in the order the URL gives them: the id, the auth token, then each
/// optional field that is present, and nothing for one that is absent.
pub open spec fn update_pairs(
    id: Seq<char>,
    auth_token: Seq<char>,
    title: Option<Seq<char>>,
    notes: Option<Seq<char>>,
    append_notes: Option<Seq<char>>,
    prepend_notes: Option<Seq<char>>,
    when: Option<Seq<char>>,
    deadline: Option<Seq<char>>,
    add_tags: Option<Seq<char>>,
    list: Option<Seq<char>>,
    heading: Option<Seq<char>>,
) -> Seq<(Seq<char>, Seq<u8>)> {
    seq![("id"@, encode_utf8(id)), ("auth-token"@, encode_utf8(auth_token))] + opt_pair("title"@, title) + opt_pair("notes"@, notes) + opt_pair("append-notes"@, append_notes) + opt_pair("prepend-notes"@, prepend_notes) + opt_pair("when"@, when) + opt_pair("deadline"@, deadline) + opt_pair("add-tags"@, add_tags) + opt_pair("list"@, list) + opt_pair("heading"@, heading)
}

/// Law: an update URL is `things:///update?` and a query that reads back as
/// the id, the auth token, then each optional field that was given, in order;
/// a field that was not given has no parameter at all (so, for one, an update
/// without a deadline sends no `deadline` and leaves the item's deadline be).
#[verifier::spinoff_prover]
#[verifier::rlimit(60)]
pub proof fn lemma_update_url_reads_back(
    id: Seq<char>,
    auth_token: Seq<char>,
    title: Option<Seq<char>>,
    notes: Option<Seq<char>>,
    append_notes: Option<Seq<char>>,
    prepend_notes: Option<Seq<char>>,
    when: Option<Seq<char>>,
    deadline: Option<Seq<char>>,
    add_tags: Option<Seq<char>>,
    list: Option<Seq<char>>,
    heading: Option<Seq<char>>,
)
    ensures
        ({
            let url = update_url_of(id, auth_token, title, notes, append_notes, prepend_notes, when, deadline, add_tags, list, heading);
            &&& url.take(17) == "things:///update?"@
            &&& read_query(url.skip(17)) == update_pairs(id, auth_token, title, notes, append_notes, prepend_notes, when, deadline, add_tags, list, heading)
        }),
{
    reveal_strlit("things:///update?");
    reveal_strlit("title=");
    reveal_strlit("title");
    assert("title="@ =~= "title"@ + seq!['=']);
    reveal_strlit("notes=");
    reveal_strlit("notes");
    assert("notes="@ =~= "notes"@ + seq!['=']);
    reveal_strlit("append-notes=");
    reveal_strlit("append-notes");
    assert("append-notes="@ =~= "append-notes"@ + seq!['=']);
    reveal_strlit("prepend-notes=");
    reveal_strlit("prepend-notes");
    assert("prepend-notes="@ =~= "prepend-notes"@ + seq!['=']);
    reveal_strlit("when=");
    reveal_strlit("when");
    assert("when="@ =~= "when"@ + seq!['=']);
    reveal_strlit("deadline=");
    reveal_strlit("deadline");
    assert("deadline="@ =~= "deadline"@ + seq!['=']);
    reveal_strlit("add-tags=");
    reveal_strlit("add-tags");
    assert("add-tags="@ =~= "add-tags"@ + seq!['=']);
    reveal_strlit("list=");
    reveal_strlit("list");
    assert("list="@ =~= "list"@ + seq!['=']);
    reveal_strlit("heading=");
    reveal_strlit("heading");
    assert("heading="@ =~= "heading"@ + seq!['=']);
    reveal_strlit("id=");
    reveal_strlit("id");
    assert("id="@ =~= "id"@ + seq!['=']);
    reveal_strlit("auth-token=");
    reveal_strlit("auth-token");
    assert("auth-token="@ =~= "auth-token"@ + seq!['=']);
    let parts = update_parts(id, auth_token, title, notes, append_notes, prepend_notes, when, deadline, add_tags, list, heading);
    let query = join(parts, "&"@);
    let url = update_url_of(id, auth_token, title, notes, append_notes, prepend_notes, when, deadline, add_tags, list, heading);
    assert(url == "things:///update?"@ + query);
    assert(url.take(17) =~= "things:///update?"@);
    assert(url.skip(17) =~= query);
    let p0 = seq![param("id="@, id), param("auth-token="@, auth_token)];
    lemma_param_reads_back("id"@, id);
    lemma_param_reads_back("auth-token"@, auth_token);
    assert(p0.map_values(|p: Seq<char>| read_param(p)) =~= seq![
        ("id"@, encode_utf8(id)),
        ("auth-token"@, encode_utf8(auth_token)),
    ]);
    assert forall|i: int| 0 <= i < p0.len() implies lacks(#[trigger] p0[i], '&') by {}
    lemma_opt_param_reads_back("title"@, title);
    lemma_opt_param_reads_back("notes"@, notes);
    lemma_opt_param_reads_back("append-notes"@, append_notes);
    lemma_opt_param_reads_back("prepend-notes"@, prepend_notes);
    lemma_opt_param_reads_back("when"@, when);
    lemma_opt_param_reads_back("deadline"@, deadline);
    lemma_opt_param_reads_back("add-tags"@, add_tags);
    lemma_opt_param_reads_back("list"@, list);
    lemma_opt_param_reads_back("heading"@, heading);
    lemma_lacks_concat(p0, opt_param("title="@, title));
    lemma_lacks_concat(p0 + opt_param("title="@, title), opt_param("notes="@, notes));
    lemma_lacks_concat(p0 + opt_param("title="@, title) + opt_param("notes="@, notes), opt_param("append-notes="@, append_notes));
    lemma_lacks_concat(p0 + opt_param("title="@, title) + opt_param("notes="@, notes) + opt_param("append-notes="@, append_notes), opt_param("prepend-notes="@, prepend_notes));
    lemma_lacks_concat(p0 + opt_param("title="@, title) + opt_param("notes="@, notes) + opt_param("append-notes="@, append_notes) + opt_param("prepend-notes="@, prepend_notes), opt_param("when="@, when));
    lemma_lacks_concat(p0 + opt_param("title="@, title) + opt_param("notes="@, notes) + opt_param("append-notes="@, append_notes) + opt_param("prepend-notes="@, prepend_notes) + opt_param("when="@, when), opt_param("deadline="@, deadline));
    lemma_lacks_concat(p0 + opt_param("title="@, title) + opt_param("notes="@, notes) + opt_param("append-notes="@, append_notes) + opt_param("prepend-notes="@, prepend_notes) + opt_param("when="@, when) + opt_param("deadline="@, deadline), opt_param("add-tags="@, add_tags));
    lemma_lacks_concat(p0 + opt_param("title="@, title) + opt_param("notes="@, notes) + opt_param("append-notes="@, append_notes) + opt_param("prepend-notes="@, prepend_notes) + opt_param("when="@, when) + opt_param("deadline="@, deadline) + opt_param("add-tags="@, add_tags), opt_param("list="@, list));
    lemma_lacks_concat(p0 + opt_param("title="@, title) + opt_param("notes="@, notes) + opt_param("append-notes="@, append_notes) + opt_param("prepend-notes="@, prepend_notes) + opt_param("when="@, when) + opt_param("deadline="@, deadline) + opt_param("add-tags="@, add_tags) + opt_param("list="@, list), opt_param("heading="@, heading));
    assert(parts == p0 + opt_param("title="@, title) + opt_param("notes="@, notes) + opt_param("append-notes="@, append_notes) + opt_param("prepend-notes="@, prepend_notes) + opt_param("when="@, when) + opt_param("deadline="@, deadline) + opt_param("add-tags="@, add_tags) + opt_param("list="@, list) + opt_param("heading="@, heading));
    lemma_split_join(parts);
    lemma_map_concat(p0, opt_param("title="@, title));
    lemma_map_concat(p0 + opt_param("title="@, title), opt_param("notes="@, notes));
    lemma_map_concat(p0 + opt_param("title="@, title) + opt_param("notes="@, notes), opt_param("append-notes="@, append_notes));
    lemma_map_concat(p0 + opt_param("title="@, title) + opt_param("notes="@, notes) + opt_param("append-notes="@, append_notes), opt_param("prepend-notes="@, prepend_notes));
    lemma_map_concat(p0 + opt_param("title="@, title) + opt_param("notes="@, notes) + opt_param("append-notes="@, append_notes) + opt_param("prepend-notes="@, prepend_notes), opt_param("when="@, when));
    lemma_map_concat(p0 + opt_param("title="@, title) + opt_param("notes="@, notes) + opt_param("append-notes="@, append_notes) + opt_param("prepend-notes="@, prepend_notes) + opt_param("when="@, when), opt_param("deadline="@, deadline));
    lemma_map_concat(p0 + opt_param("title="@, title) + opt_param("notes="@, notes) + opt_param("append-notes="@, append_notes) + opt_param("prepend-notes="@, prepend_notes) + opt_param("when="@, when) + opt_param("deadline="@, deadline), opt_param("add-tags="@, add_tags));
    lemma_map_concat(p0 + opt_param("title="@, title) + opt_param("notes="@, notes) + opt_param("append-notes="@, append_notes) + opt_param("prepend-notes="@, prepend_notes) + opt_param("when="@, when) + opt_param("deadline="@, deadline) + opt_param("add-tags="@, add_tags), opt_param("list="@, list));
    lemma_map_concat(p0 + opt_param("title="@, title) + opt_param("notes="@, notes) + opt_param("append-notes="@, append_notes) + opt_param("prepend-notes="@, prepend_notes) + opt_param("when="@, when) + opt_param("deadline="@, deadline) + opt_param("add-tags="@, add_tags) + opt_param("list="@, list), opt_param("heading="@, heading));
}

/// The query parameters of an add-project URL, in order.
pub open spec fn add_project_parts(
    title: Seq<char>,
    notes: Option<Seq<char>>,
    when: Option<Seq<char>>,
    deadline: Option<Seq<char>>,
    tags: Option<Seq<char>>,
    area: Option<Seq<char>>,
    todos: Seq<Seq<char>>,
) -> Seq<Seq<char>> {
    seq![param("title="@, title)] + opt_param("notes="@, notes) + opt_param("when="@, when)
        + opt_param("deadline="@, deadline) + opt_param("tags="@, tags) + opt_param(
        "area="@,
        area,
    ) + if todos.len() == 0 {
        Seq::<Seq<char>>::empty()
    } else {
        seq![param("to-dos="@, todos_json(todos))]
    }
}

pub open spec fn add_project_url_of(
    title: Seq<char>,
    notes: Option<Seq<char>>,
    when: Option<Seq<char>>,
    deadline: Option<Seq<char>>,
    tags: Option<Seq<char>>,
    area: Option<Seq<char>>,
    todos: Seq<Seq<char>>,
) -> Seq<char> {
    "things:///add-project?"@ + join(
        add_project_parts(title, notes, when, deadline, tags, area, todos),
        "&"@,
    )
}

pub open spec fn add_project_url(p: AddProjectParams) -> Seq<char> {
    add_project_url_of(
        p.title@,
        str_opt(p.notes),
        str_opt(p.when),
        str_opt(p.deadline),
        str_opt(p.tags),
        str_opt(p.area),
        views(p.todos@),
    )
}

/// The query parameters of an update URL, in order.
pub open spec fn update_parts(
    id: Seq<char>,
    auth_token: Seq<char>,
    title: Option<Seq<char>>,
    notes: Option<Seq<char>>,
    append_notes: Option<Seq<char>>,
    prepend_notes: Option<Seq<char>>,
    when: Option<Seq<char>>,
    deadline: Option<Seq<char>>,
    add_tags: Option<Seq<char>>,
    list: Option<Seq<char>>,
    heading: Option<Seq<char>>,
) -> Seq<Seq<char>> {
    seq![param("id="@, id), param("auth-token="@, auth_token)] + opt_param("title="@, title)
        + opt_param("notes="@, notes) + opt_param("append-notes="@, append_notes) + opt_param(
        "prepend-notes="@,
        prepend_notes,
    ) + opt_param("when="@, when) + opt_param("deadline="@, deadline) + opt_param(
        "add-tags="@,
        add_tags,
    ) + opt_param("list="@, list) + opt_param("heading="@, heading)
}

pub open spec fn update_url_of(
    id: Seq<char>,
    auth_token: Seq<char>,
    title: Option<Seq<char>>,
    notes: Option<Seq<char>>,
    append_notes: Option<Seq<char>>,
    prepend_notes: Option<Seq<char>>,
    when: Option<Seq<char>>,
    deadline: Option<Seq<char>>,
    add_tags: Option<Seq<char>>,
    list: Option<Seq<char>>,
    heading: Option<Seq<char>>,
) -> Seq<char> {
    "things:///update?"@ + join(
        update_parts(
            id,
            auth_token,
            title,
            notes,
            append_notes,
            prepend_notes,
            when,
            deadline,
            add_tags,
            list,
            heading,
        ),
        "&"@,
    )
}

pub open spec fn update_url(p: UpdateParams) -> Seq<char> {
    update_url_of(
        p.id@,
        p.auth_token@,
        str_opt(p.title),
        str_opt(p.notes),
        str_opt(p.append_notes),
        str_opt(p.prepend_notes),
        str_opt(p.when),
        str_opt(p.deadline),
        str_opt(p.add_tags),
        str_opt(p.list),
        str_opt(p.heading),
    )
}

pub open spec fn complete_url(id: Seq<char>, auth_token: Seq<char>) -> Seq<char> {
    "things:///update?id="@ + url_encoded(id) + "&completed=true&auth-token="@ + url_encoded(
        auth_token,
    )
}

pub open spec fn cancel_url(id: Seq<char>, auth_token: Seq<char>) -> Seq<char> {
    "things:///update?id="@ + url_encoded(id) + "&canceled=true&auth-token="@ + url_encoded(
        auth_token,
    )
}

pub open spec fn move_url(id: Seq<char>, auth_token: Seq<char>, list: Seq<char>) -> Seq<char> {
    "things:///update?id="@ + url_encoded(id) + "&list="@ + url_encoded(list) + "&auth-token="@
        + url_encoded(auth_token)
}

/// The parameters of an add-project URL by name, with the UTF-8 bytes of
/// their values, in order: the title, each optional field that is present,
/// then the to-dos as a JSON array when there are any.
pub open spec fn add_project_pairs(
    title: Seq<char>,
    notes: Option<Seq<char>>,
    when: Option<Seq<char>>,
    deadline: Option<Seq<char>>,
    tags: Option<Seq<char>>,
    area: Option<Seq<char>>,
    todos: Seq<Seq<char>>,
) -> Seq<(Seq<char>, Seq<u8>)> {
    seq![("title"@, encode_utf8(title))] + opt_pair("notes"@, notes) + opt_pair("when"@, when) + opt_pair("deadline"@, deadline) + opt_pair("tags"@, tags) + opt_pair("area"@, area) + if todos.len() == 0 {
        Seq::<(Seq<char>, Seq<u8>)>::empty()
    } else {
        seq![("to-dos"@, encode_utf8(todos_json(todos)))]
    }
}

/// Law: an add-project URL is `things:///add-project?` and a query that
/// reads back as the title, each optional field that was given, in order,
/// then the to-dos array when there are to-dos; an absent field has no
/// parameter.
#[verifier::spinoff_prover]
#[verifier::rlimit(60)]
pub proof fn lemma_add_project_url_reads_back(
    title: Seq<char>,
    notes: Option<Seq<char>>,
    when: Option<Seq<char>>,
    deadline: Option<Seq<char>>,
    tags: Option<Seq<char>>,
    area: Option<Seq<char>>,
    todos: Seq<Seq<char>>,
)
    ensures
        ({
            let url = add_project_url_of(title, notes, when, deadline, tags, area, todos);
            &&& url.take(22) == "things:///add-project?"@
            &&& read_query(url.skip(22)) == add_project_pairs(title, notes, when, deadline, tags, area, todos)
        }),
{
    reveal_strlit("things:///add-project?");
    reveal_strlit("notes=");
    reveal_strlit("notes");
    assert("notes="@ =~= "notes"@ + seq!['=']);
    reveal_strlit("when=");
    reveal_strlit("when");
    assert("when="@ =~= "when"@ + seq!['=']);
    reveal_strlit("deadline=");
    reveal_strlit("deadline");
    assert("deadline="@ =~= "deadline"@ + seq!['=']);
    reveal_strlit("tags=");
    reveal_strlit("tags");
    assert("tags="@ =~= "tags"@ + seq!['=']);
    reveal_strlit("area=");
    reveal_strlit("area");
    assert("area="@ =~= "area"@ + seq!['=']);
    reveal_strlit("title=");
    reveal_strlit("title");
    assert("title="@ =~= "title"@ + seq!['=']);
    reveal_strlit("to-dos=");
    reveal_strlit("to-dos");
    assert("to-dos="@ =~= "to-dos"@ + seq!['=']);
    let parts = add_project_parts(title, notes, when, deadline, tags, area, todos);
    let query = join(parts, "&"@);
    let url = add_project_url_of(title, notes, when, deadline, tags, area, todos);
    assert(url == "things:///add-project?"@ + query);
    assert(url.take(22) =~= "things:///add-project?"@);
    assert(url.skip(22) =~= query);
    let p0 = seq![param("title="@, title)];
    lemma_param_reads_back("title"@, title);
    assert(p0.map_values(|p: Seq<char>| read_param(p)) =~= seq![("title"@, encode_utf8(title))]);
    assert forall|i: int| 0 <= i < p0.len() implies lacks(#[trigger] p0[i], '&') by {}
    lemma_opt_param_reads_back("notes"@, notes);
    lemma_opt_param_reads_back("when"@, when);
    lemma_opt_param_reads_back("deadline"@, deadline);
    lemma_opt_param_reads_back("tags"@, tags);
    lemma_opt_param_reads_back("area"@, area);
    let p7 = if todos.len() == 0 {
        Seq::<Seq<char>>::empty()
    } else {
        seq![param("to-dos="@, todos_json(todos))]
    };
    let q7 = if todos.len() == 0 {
        Seq::<(Seq<char>, Seq<u8>)>::empty()
    } else {
        seq![("to-dos"@, encode_utf8(todos_json(todos)))]
    };
    lemma_param_reads_back("to-dos"@, todos_json(todos));
    assert(p7.map_values(|p: Seq<char>| read_param(p)) =~= q7);
    assert forall|i: int| 0 <= i < p7.len() implies lacks(#[trigger] p7[i], '&') by {}
    lemma_lacks_concat(p0, opt_param("notes="@, notes));
    lemma_lacks_concat(p0 + opt_param("notes="@, notes), opt_param("when="@, when));
    lemma_lacks_concat(p0 + opt_param("notes="@, notes) + opt_param("when="@, when), opt_param("deadline="@, deadline));
    lemma_lacks_concat(p0 + opt_param("notes="@, notes) + opt_param("when="@, when) + opt_param("deadline="@, deadline), opt_param("tags="@, tags));
    lemma_lacks_concat(p0 + opt_param("notes="@, notes) + opt_param("when="@, when) + opt_param("deadline="@, deadline) + opt_param("tags="@, tags), opt_param("area="@, area));
    lemma_lacks_concat(p0 + opt_param("notes="@, notes) + opt_param("when="@, when) + opt_param("deadline="@, deadline) + opt_param("tags="@, tags) + opt_param("area="@, area), p7);
    assert(parts == p0 + opt_param("notes="@, notes) + opt_param("when="@, when) + opt_param("deadline="@, deadline) + opt_param("tags="@, tags) + opt_param("area="@, area) + p7);
    lemma_split_join(parts);
    lemma_map_concat(p0, opt_param("notes="@, notes));
    lemma_map_concat(p0 + opt_param("notes="@, notes), opt_param("when="@, when));
    lemma_map_concat(p0 + opt_param("notes="@, notes) + opt_param("when="@, when), opt_param("deadline="@, deadline));
    lemma_map_concat(p0 + opt_param("notes="@, notes) + opt_param("when="@, when) + opt_param("deadline="@, deadline), opt_param("tags="@, tags));
    lemma_map_concat(p0 + opt_param("notes="@, notes) + opt_param("when="@, when) + opt_param("deadline="@, deadline) + opt_param("tags="@, tags), opt_param("area="@, area));
    lemma_map_concat(p0 + opt_param("notes="@, notes) + opt_param("when="@, when) + opt_param("deadline="@, deadline) + opt_param("tags="@, tags) + opt_param("area="@, area), p7);
}

/// The bytes of `true`.
pub open spec fn true_bytes() -> Seq<u8> {
    seq![116u8, 114u8, 117u8, 101u8]
}

/// A flag parameter `name=true` reads back as the name and the bytes of `true`.
proof fn lemma_flag_reads_back(name: Seq<char>)
    requires
        lacks(name, '='),
        lacks(name, '&'),
    ensures
        read_param(name + "=true"@) == (name, true_bytes()),
        lacks(name + "=true"@, '&'),
{
    reveal_strlit("=true");
    let part = name + "=true"@;
    assert(part[name.len() as int] == '=');
    lemma_stop_index_at(part, '=', 0, name.len());
    assert(part.take(name.len() as int) =~= name);
    let t = part.skip(name.len() as int + 1);
    assert(t =~= seq!['t', 'r', 'u', 'e']);
    reveal_with_fuel(percent_decode, 5);
    assert(t.drop_first() =~= seq!['r', 'u', 'e']);
    assert(t.drop_first().drop_first() =~= seq!['u', 'e']);
    assert(t.drop_first().drop_first().drop_first() =~= seq!['e']);
    assert(t.drop_first().drop_first().drop_first().drop_first() =~= Seq::<char>::empty());
    assert(percent_decode(seq!['e']) =~= seq![101u8]);
    assert(percent_decode(seq!['u', 'e']) =~= seq![117u8, 101u8]);
    assert(percent_decode(seq!['r', 'u', 'e']) =~= seq![114u8, 117u8, 101u8]);
    assert(percent_decode(t) =~= true_bytes());
    assert forall|i: int| 0 <= i < part.len() implies part[i] != '&' by {
        if i >= name.len() {
            assert(part[i] == "=true"@[i - name.len()]);
        }
    }
}

/// Three parameters joined with `&` read back one by one.
proof fn lemma_three_read_back(a: Seq<char>, b: Seq<char>, c: Seq<char>)
    requires
        lacks(a, '&'),
        lacks(b, '&'),
        lacks(c, '&'),
    ensures
        read_query(a + seq!['&'] + b + seq!['&'] + c) == seq![read_param(a), read_param(b), read_param(c)],
{
    reveal_strlit("&");
    let parts = seq![a, b, c];
    assert forall|i: int| 0 <= i < parts.len() implies lacks(#[trigger] parts[i], '&') by {}
    lemma_split_join(parts);
    assert(parts.drop_last() =~= seq![a, b]);
    assert(seq![a, b].drop_last() =~= seq![a]);
    assert("&"@ =~= seq!['&']);
    assert(seq![a].len() == 1);
    assert(join(seq![a], "&"@) == a);
    assert(seq![a, b].last() == b);
    assert(join(seq![a, b], "&"@) == join(seq![a], "&"@) + "&"@ + b);
    assert(parts.last() == c);
    assert(join(parts, "&"@) == join(seq![a, b], "&"@) + "&"@ + c);
    assert(join(parts, "&"@) =~= a + seq!['&'] + b + seq!['&'] + c);
    assert(read_query(a + seq!['&'] + b + seq!['&'] + c) =~= seq![
        read_param(a),
        read_param(b),
        read_param(c),
    ]);
}

/// Law: a complete URL is `things:///update?` and a query that reads back as
/// the id, `completed` set to `true`, and the auth token, in that order.
pub proof fn lemma_complete_url_reads_back(id: Seq<char>, auth_token: Seq<char>)
    ensures
        complete_url(id, auth_token).take(17) == "things:///update?"@,
        read_query(complete_url(id, auth_token).skip(17)) == seq![
            ("id"@, encode_utf8(id)),
            ("completed"@, true_bytes()),
            ("auth-token"@, encode_utf8(auth_token)),
        ],
{
    reveal_strlit("things:///update?");
    reveal_strlit("things:///update?id=");
    reveal_strlit("&completed=true&auth-token=");
    reveal_strlit("id=");
    reveal_strlit("id");
    reveal_strlit("completed");
    reveal_strlit("=true");
    reveal_strlit("auth-token=");
    reveal_strlit("auth-token");
    let a = param("id="@, id);
    let b = "completed"@ + "=true"@;
    let c = param("auth-token="@, auth_token);
    assert("id="@ =~= "id"@ + seq!['=']);
    assert("auth-token="@ =~= "auth-token"@ + seq!['=']);
    lemma_param_reads_back("id"@, id);
    lemma_param_reads_back("auth-token"@, auth_token);
    lemma_flag_reads_back("completed"@);
    let u = complete_url(id, auth_token);
    assert(u =~= "things:///update?"@ + (a + seq!['&'] + b + seq!['&'] + c));
    assert(u.take(17) =~= "things:///update?"@);
    assert(u.skip(17) =~= a + seq!['&'] + b + seq!['&'] + c);
    lemma_three_read_back(a, b, c);
}

/// Law: a cancel URL is `things:///update?` and a query that reads back as
/// the id, `canceled` set to `true`, and the auth token, in that order.
pub proof fn lemma_cancel_url_reads_back(id: Seq<char>, auth_token: Seq<char>)
    ensures
        cancel_url(id, auth_token).take(17) == "things:///update?"@,
        read_query(cancel_url(id, auth_token).skip(17)) == seq![
            ("id"@, encode_utf8(id)),
            ("canceled"@, true_bytes()),
            ("auth-token"@, encode_utf8(auth_token)),
        ],
{
    reveal_strlit("things:///update?");
    reveal_strlit("things:///update?id=");
    reveal_strlit("&canceled=true&auth-token=");
    reveal_strlit("id=");
    reveal_strlit("id");
    reveal_strlit("canceled");
    reveal_strlit("=true");
    reveal_strlit("auth-token=");
    reveal_strlit("auth-token");
    let a = param("id="@, id);
    let b = "canceled"@ + "=true"@;
    let c = param("auth-token="@, auth_token);
    assert("id="@ =~= "id"@ + seq!['=']);
    assert("auth-token="@ =~= "auth-token"@ + seq!['=']);
    lemma_param_reads_back("id"@, id);
    lemma_param_reads_back("auth-token"@, auth_token);
    lemma_flag_reads_back("canceled"@);
    let u = cancel_url(id, auth_token);
    assert(u =~= "things:///update?"@ + (a + seq!['&'] + b + seq!['&'] + c));
    assert(u.take(17) =~= "things:///update?"@);
    assert(u.skip(17) =~= a + seq!['&'] + b + seq!['&'] + c);
    lemma_three_read_back(a, b, c);
}

/// Law: a move URL is `things:///update?` and a query that reads back as the
/// id, the target list, and the auth token, in that order.
pub proof fn lemma_move_url_reads_back(id: Seq<char>, auth_token: Seq<char>, list: Seq<char>)
    ensures
        move_url(id, auth_token, list).take(17) == "things:///update?"@,
        read_query(move_url(id, auth_token, list).skip(17)) == seq![
            ("id"@, encode_utf8(id)),
            ("list"@, encode_utf8(list)),
            ("auth-token"@, encode_utf8(auth_token)),
        ],
{
    reveal_strlit("things:///update?");
    reveal_strlit("things:///update?id=");
    reveal_strlit("&list=");
    reveal_strlit("&auth-token=");
    reveal_strlit("id=");
    reveal_strlit("id");
    reveal_strlit("list=");
    reveal_strlit("list");
    reveal_strlit("auth-token=");
    reveal_strlit("auth-token");
    let a = param("id="@, id);
    let b = param("list="@, list);
    let c = param("auth-token="@, auth_token);
    assert("id="@ =~= "id"@ + seq!['=']);
    assert("list="@ =~= "list"@ + seq!['=']);
    assert("auth-token="@ =~= "auth-token"@ + seq!['=']);
    lemma_param_reads_back("id"@, id);
    lemma_param_reads_back("list"@, list);
    lemma_param_reads_back("auth-token"@, auth_token);
    let u = move_url(id, auth_token, list);
    assert(u =~= "things:///update?"@ + (a + seq!['&'] + b + seq!['&'] + c));
    assert(u.take(17) =~= "things:///update?"@);
    assert(u.skip(17) =~= a + seq!['&'] + b + seq!['&'] + c);
    lemma_three_read_back(a, b, c);
}

// ---------------------------------------------------------------------------
// URL builders
// ---------------------------------------------------------------------------

fn param_string(key: &str, value: &str) -> (r: String)
    ensures
        r@ == param(key@, value@),
{
    let mut r = String::new();
    r.append(key);
    let encoded = url_encode(value);
    r.append(encoded.as_str());
    assert(r@ =~= param(key@, value@));
    r
}

fn push_opt_param(parts: &mut Vec<String>, key: &str, value: Option<&str>)
    ensures
        views(final(parts)@) == views(old(parts)@) + opt_param(key@, str_opt(value)),
{
    let ghost before = views(parts@);
    match value {
        Some(v) => {
            parts.push(param_string(key, v));
            assert(views(parts@) =~= before + opt_param(key@, str_opt(value)));
        },
        None => {
            assert(views(parts@) =~= before + opt_param(key@, str_opt(value)));
        },
    }
}

fn finish_url(prefix: &str, parts: &Vec<String>) -> (r: String)
    ensures
        r@ == prefix@ + join(views(parts@), "&"@),
{
    let mut r = String::new();
    r.append(prefix);
    let joined = join_strings(parts.as_slice(), "&");
    r.append(joined.as_str());
    r
}

/// Build a Things URL for adding a new todo.
pub fn build_add_url(params: &AddParams) -> (r: String)
    ensures
        r@ == add_url(*params),
{
    let mut parts: Vec<String> = Vec::new();
    parts.push(param_string("title=", params.title));
    assert(views(parts@) =~= seq![param("title="@, params.title@)]);
    push_opt_param(&mut parts, "notes=", params.notes);
    push_opt_param(&mut parts, "when=", params.when);
    push_opt_param(&mut parts, "deadline=", params.deadline);
    push_opt_param(&mut parts, "tags=", params.tags);
    push_opt_param(&mut parts, "list=", params.list);
    push_opt_param(&mut parts, "heading=", params.heading);
    let ghost before = views(parts@);
    if params.checklist_items.len() > 0 {
        let items = join_strings(params.checklist_items, "\n");
        parts.push(param_string("checklist-items=", items.as_str()));
        assert(views(parts@) =~= before + seq![
            param("checklist-items="@, join(views(params.checklist_items@), "\n"@)),
        ]);
    } else {
        assert(views(parts@) =~= before + Seq::<Seq<char>>::empty());
    }
    finish_url("things:///add?", &parts)
}

/// The JSON array of `{"title": ...}` objects for a project's to-dos.
fn todos_array(todos: &[String]) -> (r: String)
    ensures
        r@ == todos_json(views(todos@)),
{
    let ghost titles = views(todos@);
    let ghost objects = titles.map_values(|t: Seq<char>| todo_json(t));
    let mut items: Vec<String> = Vec::new();
    let mut i: usize = 0;
    while i < todos.len()
        invariant
            0 <= i <= todos@.len(),
            titles == views(todos@),
            objects == titles.map_values(|t: Seq<char>| todo_json(t)),
            views(items@) == objects.take(i as int),
        decreases todos@.len() - i,
    {
        let mut object = String::new();
        object.append("{\"title\":");
        let quoted = json_quote(todos[i].as_str());
        object.append(quoted.as_str());
        object.append("}");
        assert(object@ =~= todo_json(todos@[i as int]@));
        assert(titles[i as int] == todos@[i as int]@);
        assert(objects[i as int] == todo_json(titles[i as int]));
        let ghost prev = views(items@);
        items.push(object);
        assert(views(items@) =~= prev.push(objects[i as int]));
        assert(views(items@) =~= objects.take(i + 1));
        i = i + 1;
    }
    assert(objects.take(todos@.len() as int) =~= objects);
    let mut r = String::new();
    r.append("[");
    let joined = join_strings(items.as_slice(), ",");
    r.append(joined.as_str());
    r.append("]");
    r
}

/// Build a Things URL for adding a new project.
pub fn build_add_project_url(params: &AddProjectParams) -> (r: String)
    ensures
        r@ == add_project_url(*params),
{
    let mut parts: Vec<String> = Vec::new();
    parts.push(param_string("title=", params.title));
    assert(views(parts@) =~= seq![param("title="@, params.title@)]);
    push_opt_param(&mut parts, "notes=", params.notes);
    push_opt_param(&mut parts, "when=", params.when);
    push_opt_param(&mut parts, "deadline=", params.deadline);
    push_opt_param(&mut parts, "tags=", params.tags);
    push_opt_param(&mut parts, "area=", params.area);
    let ghost before = views(parts@);
    if params.todos.len() > 0 {
        let json = todos_array(params.todos);
        parts.push(param_string("to-dos=", json.as_str()));
        assert(views(parts@) =~= before + seq![
            param("to-dos="@, todos_json(views(params.todos@))),
        ]);
    } else {
        assert(views(parts@) =~= before + Seq::<Seq<char>>::empty());
    }
    finish_url("things:///add-project?", &parts)
}

/// Build a Things URL for completing an item.
pub fn build_complete_url(id: &str, auth_token: &str) -> (r: String)
    ensures
        r@ == complete_url(id@, auth_token@),
{
    let mut r = String::new();
    r.append("things:///update?id=");
    r.append(url_encode(id).as_str());
    r.append("&completed=true&auth-token=");
    r.append(url_encode(auth_token).as_str());
    r
}

/// Build a Things URL for cancelling an item.
pub fn build_cancel_url(id: &str, auth_token: &str) -> (r: String)
    ensures
        r@ == cancel_url(id@, auth_token@),
{
    let mut r = String::new();
    r.append("things:///update?id=");
    r.append(url_encode(id).as_str());
    r.append("&canceled=true&auth-token=");
    r.append(url_encode(auth_token).as_str());
    r
}

/// Build a Things URL for updating an item.
pub fn build_update_url(params: &UpdateParams) -> (r: String)
    ensures
        r@ == update_url(*params),
{
    let mut parts: Vec<String> = Vec::new();
    parts.push(param_string("id=", params.id));
    parts.push(param_string("auth-token=", params.auth_token));
    assert(views(parts@) =~= seq![
        param("id="@, params.id@),
        param("auth-token="@, params.auth_token@),
    ]);
    push_opt_param(&mut parts, "title=", params.title);
    push_opt_param(&mut parts, "notes=", params.notes);
    push_opt_param(&mut parts, "append-notes=", params.append_notes);
    push_opt_param(&mut parts, "prepend-notes=", params.prepend_notes);
    push_opt_param(&mut parts, "when=", params.when);
    push_opt_param(&mut parts, "deadline=", params.deadline);
    push_opt_param(&mut parts, "add-tags=", params.add_tags);
    push_opt_param(&mut parts, "list=", params.list);
    push_opt_param(&mut parts, "heading=", params.heading);

    finish_url("things:///update?", &parts)
}

/// Build a Things URL for moving an item.
pub fn build_move_url(id: &str, auth_token: &str, list: &str) -> (r: String)
    ensures
        r@ == move_url(id@, auth_token@, list@),
{
    let mut r = String::new();
    r.append("things:///update?id=");
    r.append(url_encode(id).as_str());
    r.append("&list=");
    r.append(url_encode(list).as_str());
    r.append("&auth-token=");
    r.append(url_encode(auth_token).as_str());
    r
}

} // verus!
