//! JSON text: the string literal form that serde_json writes, and compact
//! serialization of the library's own JSON values.

use vstd::prelude::*;
use vstd::string::*;
use crate::text::{push_char, zero_padded};

verus! {

/// Declares serde_json's error type, which its serializer can return.
#[verifier::external_type_specification]
#[verifier::external_body]
pub struct ExJsonError(serde_json::Error);

/// Lower-case hexadecimal digit for `d` (0 <= d < 16).
pub open spec fn hex_lower(d: int) -> char {
    if d < 10 {
        (d + 48) as char
    } else {
        (d + 87) as char
    }
}

/// How serde_json writes one character inside a string literal.
pub open spec fn json_escape_char(c: char) -> Seq<char> {
    if c == '"' {
        seq!['\\', '"']
    } else if c == '\\' {
        seq!['\\', '\\']
    } else if c == '\u{8}' {
        seq!['\\', 'b']
    } else if c == '\t' {
        seq!['\\', 't']
    } else if c == '\n' {
        seq!['\\', 'n']
    } else if c == '\u{c}' {
        seq!['\\', 'f']
    } else if c == '\r' {
        seq!['\\', 'r']
    } else if (c as int) < 0x20 {
        seq!['\\', 'u', '0', '0', hex_lower((c as int) / 16), hex_lower((c as int) % 16)]
    } else {
        seq![c]
    }
}

/// The characters of `s`, each escaped as serde_json writes it.
pub open spec fn json_escaped(s: Seq<char>) -> Seq<char>
    decreases s.len(),
{
    if s.len() == 0 {
        Seq::<char>::empty()
    } else {
        json_escaped(s.drop_last()) + json_escape_char(s.last())
    }
}

/// `s` as a JSON string literal: quoted, with its characters escaped.
pub open spec fn json_string(s: Seq<char>) -> Seq<char> {
    seq!['"'] + json_escaped(s) + seq!['"']
}

/// The value of a hexadecimal digit (either case).
pub open spec fn hex_digit_value(c: char) -> int {
    if '0' <= c <= '9' {
        c as int - 48
    } else if 'A' <= c <= 'F' {
        c as int - 55
    } else {
        c as int - 87
    }
}

/// Reads the inside of a JSON string literal back: each escape stands for
/// the character it names, any other character for itself.
pub open spec fn json_unescape(s: Seq<char>) -> Seq<char>
    decreases s.len(),
{
    if s.len() == 0 {
        Seq::<char>::empty()
    } else if s[0] == '\\' && s.len() >= 2 {
        let c = s[1];
        if c == 'u' && s.len() >= 6 {
            let v = hex_digit_value(s[2]) * 4096 + hex_digit_value(s[3]) * 256 + hex_digit_value(
                s[4],
            ) * 16 + hex_digit_value(s[5]);
            seq![v as char] + json_unescape(s.subrange(6, s.len() as int))
        } else {
            let named = if c == 'b' {
                '\u{8}'
            } else if c == 't' {
                '\t'
            } else if c == 'n' {
                '\n'
            } else if c == 'f' {
                '\u{c}'
            } else if c == 'r' {
                '\r'
            } else {
                c
            };
            seq![named] + json_unescape(s.subrange(2, s.len() as int))
        }
    } else {
        seq![s[0]] + json_unescape(s.drop_first())
    }
}

proof fn lemma_json_escaped_concat(a: Seq<char>, b: Seq<char>)
    ensures
        json_escaped(a + b) == json_escaped(a) + json_escaped(b),
    decreases b.len(),
{
    if b.len() == 0 {
        assert(a + b =~= a);
        assert(json_escaped(a) + json_escaped(b) =~= json_escaped(a));
    } else {
        assert((a + b).drop_last() =~= a + b.drop_last());
        lemma_json_escaped_concat(a, b.drop_last());
        assert(json_escaped(a + b) =~= json_escaped(a) + json_escaped(b));
    }
}

proof fn lemma_unescape_one(c: char, rest: Seq<char>)
    ensures
        json_unescape(json_escape_char(c) + rest) == seq![c] + json_unescape(rest),
{
    let e = json_escape_char(c);
    let s = e + rest;
    if c == '"' || c == '\\' || c == '\u{8}' || c == '\t' || c == '\n' || c == '\u{c}' || c
        == '\r' {
        assert(s.subrange(2, s.len() as int) =~= rest);
    } else if (c as int) < 0x20 {
        let hi = (c as int) / 16;
        let lo = (c as int) % 16;
        assert(hex_digit_value(hex_lower(hi)) == hi);
        assert(hex_digit_value(hex_lower(lo)) == lo);
        assert(hex_digit_value('0') == 0);
        assert(s.subrange(6, s.len() as int) =~= rest);
        assert(((c as int) as char) == c);
    } else {
        assert(s.drop_first() =~= rest);
    }
}

/// Law: reading back the inside of a JSON string literal that serde_json
/// wrote gives back the string it was written from.
pub proof fn lemma_json_unescape_escaped(s: Seq<char>)
    ensures
        json_unescape(json_escaped(s)) == s,
    decreases s.len(),
{
    if s.len() > 0 {
        let tail = s.drop_first();
        assert(s =~= seq![s[0]] + tail);
        lemma_json_escaped_concat(seq![s[0]], tail);
        assert(seq![s[0]].drop_last() =~= Seq::<char>::empty());
        assert(json_escaped(Seq::<char>::empty()) =~= Seq::<char>::empty());
        assert(json_escaped(seq![s[0]]) =~= json_escape_char(s[0]));
        lemma_unescape_one(s[0], json_escaped(tail));
        lemma_json_unescape_escaped(tail);
    }
}

/// Writes `s` as a JSON string literal with `serde_json::to_string`.
///
/// The contract restates serde_json's serializer for a `str`
/// (`format_escaped_str` in its `ser.rs`): it writes `"`, then each
/// character, escaping `"`, `\` and the characters below U+0020 (`\b`, `\t`,
/// `\n`, `\f`, `\r` by name, the others as `\u00` and two lower-case hex
/// digits), then `"`. It writes into a `Vec`, which cannot fail, so the
/// result is `Ok`.
#[verifier::external_body]
fn serde_string_literal(s: &str) -> (r: Result<String, serde_json::Error>)
    ensures
        r is Ok,
        r->Ok_0@ == json_string(s@),
{
    serde_json::to_string(s)
}

/// `s` as a JSON string literal.
pub fn json_quote(s: &str) -> (r: String)
    ensures
        r@ == json_string(s@),
{
    match serde_string_literal(s) {
        Ok(t) => t,
        Err(_) => String::new(),
    }
}

// ---------------------------------------------------------------------------
// Values
// ---------------------------------------------------------------------------

/// A JSON value as the library's rows hold it. Numbers are integers, the
/// only kind the rows carry; an object keeps its entries in the order given.
#[derive(Debug)]
pub enum Value {
    Null,
    Bool(bool),
    Number(i64),
    String(String),
    Array(Vec<Value>),
    Object(Vec<(String, Value)>),
}

/// The mathematical content of a JSON value.
pub enum Json {
    Null,
    Bool(bool),
    Number(int),
    Text(Seq<char>),
    List(Seq<Json>),
    Record(Seq<(Seq<char>, Json)>),
}

/// What a value holds.
pub open spec fn json_of(v: Value) -> Json
    decreases v,
{
    match v {
        Value::Null => Json::Null,
        Value::Bool(b) => Json::Bool(b),
        Value::Number(n) => Json::Number(n as int),
        Value::String(s) => Json::Text(s@),
        Value::Array(items) => Json::List(json_of_items(items@)),
        Value::Object(entries) => Json::Record(json_of_entries(entries@)),
    }
}

pub open spec fn json_of_items(items: Seq<Value>) -> Seq<Json>
    decreases items,
{
    if items.len() == 0 {
        Seq::<Json>::empty()
    } else {
        json_of_items(items.drop_last()).push(json_of(items.last()))
    }
}

pub open spec fn json_of_entries(entries: Seq<(String, Value)>) -> Seq<(Seq<char>, Json)>
    decreases entries,
{
    if entries.len() == 0 {
        Seq::<(Seq<char>, Json)>::empty()
    } else {
        json_of_entries(entries.drop_last()).push(
            (entries.last().0@, json_of(entries.last().1)),
        )
    }
}

/// Decimal text of an integer, with a leading `-` when negative.
pub open spec fn int_text(n: int) -> Seq<char> {
    zero_padded(n, 1)
}

/// Compact JSON text, as serde_json's `to_string` writes it: no spaces,
/// object entries in the order the record holds them.
pub open spec fn json_text(j: Json) -> Seq<char>
    decreases j,
{
    match j {
        Json::Null => "null"@,
        Json::Bool(b) => if b { "true"@ } else { "false"@ },
        Json::Number(n) => int_text(n),
        Json::Text(s) => json_string(s),
        Json::List(items) => seq!['['] + json_list_text(items) + seq![']'],
        Json::Record(entries) => seq!['{'] + json_record_text(entries) + seq!['}'],
    }
}

/// The JSON texts of `items`, separated by commas.
pub open spec fn json_list_text(items: Seq<Json>) -> Seq<char>
    decreases items,
{
    if items.len() == 0 {
        Seq::<char>::empty()
    } else if items.len() == 1 {
        json_text(items[0])
    } else {
        json_list_text(items.drop_last()) + seq![','] + json_text(items.last())
    }
}

/// `"key":value` for each entry, separated by commas.
pub open spec fn json_record_text(entries: Seq<(Seq<char>, Json)>) -> Seq<char>
    decreases entries,
{
    if entries.len() == 0 {
        Seq::<char>::empty()
    } else {
        let e = entries.last();
        let one = json_string(e.0) + seq![':'] + json_text(e.1);
        if entries.len() == 1 {
            one
        } else {
            json_record_text(entries.drop_last()) + seq![','] + one
        }
    }
}

/// Appends the compact JSON text of `v`.
///
/// `Value` is the library's own type, which serde cannot serialise here; the
/// library writes the brackets, commas and colons, and every string is
/// escaped by serde_json itself (`json_quote`).
pub fn push_json(out: &mut String, v: &Value)
    ensures
        final(out)@ == old(out)@ + json_text(json_of(*v)),
    decreases v,
{
    match v {
        Value::Null => {
            out.append("null");
        },
        Value::Bool(b) => {
            if *b {
                out.append("true");
            } else {
                out.append("false");
            }
        },
        Value::Number(n) => {
            crate::text::push_zero_padded(out, *n, 1);
        },
        Value::String(s) => {
            let q = json_quote(s.as_str());
            out.append(q.as_str());
        },
        Value::Array(items) => {
            push_char(out, '[');
            let ghost start = out@;
            let mut i: usize = 0;
            while i < items.len()
                invariant
                    0 <= i <= items@.len(),
                    out@ == start + json_list_text(json_of_items(items@.take(i as int))),
                    *v == Value::Array(*items),
                decreases items@.len() - i,
            {
                proof {
                    assert(decreases_to!(*v => (*v)->Array_0));
                    assert(decreases_to!(*items => items@));
                    assert(decreases_to!(items@ => items@[i as int]));
                }
                let ghost prev = out@;
                if i > 0 {
                    push_char(out, ',');
                }
                push_json(out, &items[i]);
                proof {
                    let now = items@.take(i + 1);
                    assert(now.drop_last() =~= items@.take(i as int));
                    assert(now.last() == items@[i as int]);
                    let js = json_of_items(now);
                    assert(js == json_of_items(items@.take(i as int)).push(json_of(items@[i as int])));
                    assert(js.drop_last() =~= json_of_items(items@.take(i as int)));
                    assert(js.last() == json_of(items@[i as int]));
                    if i == 0 {
                        assert(items@.take(0) =~= Seq::<Value>::empty());
                        assert(json_of_items(now) =~= seq![json_of(items@[0])]);
                    }
                }
                i = i + 1;
            }
            assert(items@.take(items@.len() as int) =~= items@);
            push_char(out, ']');
            assert(json_of(*v) == Json::List(json_of_items(items@)));
        },
        Value::Object(entries) => {
            push_char(out, '{');
            let ghost start = out@;
            let mut i: usize = 0;
            while i < entries.len()
                invariant
                    0 <= i <= entries@.len(),
                    out@ == start + json_record_text(json_of_entries(entries@.take(i as int))),
                    *v == Value::Object(*entries),
                decreases entries@.len() - i,
            {
                proof {
                    assert(decreases_to!(*v => (*v)->Object_0));
                    assert(decreases_to!(*entries => entries@));
                    assert(decreases_to!(entries@ => entries@[i as int]));
                    assert(decreases_to!(entries@[i as int] => entries@[i as int].1));
                }
                if i > 0 {
                    push_char(out, ',');
                }
                let entry = &entries[i];
                let q = json_quote(entry.0.as_str());
                out.append(q.as_str());
                push_char(out, ':');
                push_json(out, &entry.1);
                proof {
                    let now = entries@.take(i + 1);
                    assert(now.drop_last() =~= entries@.take(i as int));
                    assert(now.last() == entries@[i as int]);
                    let js = json_of_entries(now);
                    let e = (entries@[i as int].0@, json_of(entries@[i as int].1));
                    assert(js == json_of_entries(entries@.take(i as int)).push(e));
                    assert(js.drop_last() =~= json_of_entries(entries@.take(i as int)));
                    assert(js.last() == e);
                    if i == 0 {
                        assert(entries@.take(0) =~= Seq::<(String, Value)>::empty());
                        assert(json_of_entries(entries@.take(0)).len() == 0);
                    }
                }
                i = i + 1;
            }
            assert(entries@.take(entries@.len() as int) =~= entries@);
            push_char(out, '}');
            assert(json_of(*v) == Json::Record(json_of_entries(entries@)));
        },
    }
}

/// The compact JSON text of `v` (serde_json's `Value::to_string`).
pub fn to_json_text(v: &Value) -> (r: String)
    ensures
        r@ == json_text(json_of(*v)),
{
    let mut out = String::new();
    push_json(&mut out, v);
    assert(out@ =~= json_text(json_of(*v)));
    out
}

} // verus!
