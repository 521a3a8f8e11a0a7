//! Rows of query results: maps from field names to JSON values, kept in
//! key order as a `BTreeMap<String, _>` keeps them.

use vstd::prelude::*;
use vstd::string::*;
use vstd::utf8::{decode_utf8, encode_utf8, encode_utf8_decode_utf8};
use crate::json::{json_of, json_text, to_json_text, Json, Value};
use crate::text::{push_zero_padded, zero_padded};

verus! {

// ---------------------------------------------------------------------------
// Key order
// ---------------------------------------------------------------------------

/// Lexicographic order on byte strings, as `[u8]`'s `Ord` compares them.
pub open spec fn bytes_lt(a: Seq<u8>, b: Seq<u8>) -> bool
    decreases a.len(),
{
    if a.len() == 0 {
        b.len() > 0
    } else if b.len() == 0 {
        false
    } else if a[0] != b[0] {
        a[0] < b[0]
    } else {
        bytes_lt(a.drop_first(), b.drop_first())
    }
}

/// The order of `String` keys: their UTF-8 bytes compared lexicographically.
pub open spec fn key_lt(a: Seq<char>, b: Seq<char>) -> bool {
    bytes_lt(encode_utf8(a), encode_utf8(b))
}

pub proof fn lemma_bytes_lt_irreflexive(a: Seq<u8>)
    ensures
        !bytes_lt(a, a),
    decreases a.len(),
{
    if a.len() > 0 {
        lemma_bytes_lt_irreflexive(a.drop_first());
    }
}

pub proof fn lemma_bytes_lt_transitive(a: Seq<u8>, b: Seq<u8>, c: Seq<u8>)
    requires
        bytes_lt(a, b),
        bytes_lt(b, c),
    ensures
        bytes_lt(a, c),
    decreases a.len(),
{
    if a.len() > 0 && b.len() > 0 && c.len() > 0 && a[0] == b[0] && b[0] == c[0] {
        lemma_bytes_lt_transitive(a.drop_first(), b.drop_first(), c.drop_first());
    }
}

pub proof fn lemma_bytes_lt_total(a: Seq<u8>, b: Seq<u8>)
    ensures
        a =~= b || bytes_lt(a, b) || bytes_lt(b, a),
    decreases a.len(),
{
    if a.len() > 0 && b.len() > 0 && a[0] == b[0] {
        lemma_bytes_lt_total(a.drop_first(), b.drop_first());
        if a.drop_first() =~= b.drop_first() {
            assert(a =~= seq![a[0]] + a.drop_first());
            assert(b =~= seq![b[0]] + b.drop_first());
        }
    }
}

pub proof fn lemma_key_lt_irreflexive(a: Seq<char>)
    ensures
        !key_lt(a, a),
{
    lemma_bytes_lt_irreflexive(encode_utf8(a));
}

pub proof fn lemma_key_lt_transitive(a: Seq<char>, b: Seq<char>, c: Seq<char>)
    requires
        key_lt(a, b),
        key_lt(b, c),
    ensures
        key_lt(a, c),
{
    lemma_bytes_lt_transitive(encode_utf8(a), encode_utf8(b), encode_utf8(c));
}

pub proof fn lemma_key_lt_total(a: Seq<char>, b: Seq<char>)
    ensures
        a == b || key_lt(a, b) || key_lt(b, a),
{
    lemma_bytes_lt_total(encode_utf8(a), encode_utf8(b));
    encode_utf8_decode_utf8(a);
    encode_utf8_decode_utf8(b);
}

/// How two keys compare.
pub enum KeyOrder {
    Less,
    Equal,
    Greater,
}

/// Compares two keys by their UTF-8 bytes, as `String`'s `Ord` does.
pub fn compare_keys(a: &str, b: &str) -> (r: KeyOrder)
    ensures
        r is Less <==> key_lt(a@, b@),
        r is Equal <==> a@ == b@,
        r is Greater <==> key_lt(b@, a@),
{
    let x = a.as_bytes();
    let y = b.as_bytes();
    let mut i: usize = 0;
    proof {
        lemma_key_lt_total(a@, b@);
        lemma_key_lt_irreflexive(a@);
        encode_utf8_decode_utf8(a@);
        encode_utf8_decode_utf8(b@);
        if key_lt(a@, b@) && key_lt(b@, a@) {
            lemma_key_lt_transitive(a@, b@, a@);
        }
    }
    assert(x@.skip(0) =~= x@);
    assert(y@.skip(0) =~= y@);
    while i < x.len() && i < y.len() && x[i] == y[i]
        invariant
            x@ == encode_utf8(a@),
            y@ == encode_utf8(b@),
            0 <= i <= x@.len(),
            i <= y@.len(),
            x@.take(i as int) =~= y@.take(i as int),
            bytes_lt(x@, y@) == bytes_lt(x@.skip(i as int), y@.skip(i as int)),
            bytes_lt(y@, x@) == bytes_lt(y@.skip(i as int), x@.skip(i as int)),
        decreases x@.len() - i,
    {
        assert(x@.skip(i as int).drop_first() =~= x@.skip(i + 1));
        assert(y@.skip(i as int).drop_first() =~= y@.skip(i + 1));
        i = i + 1;
        assert(x@.take(i as int) =~= x@.take(i - 1).push(x@[i - 1]));
        assert(y@.take(i as int) =~= y@.take(i - 1).push(y@[i - 1]));
    }
    if i < x.len() && i < y.len() {
        if x[i] < y[i] {
            KeyOrder::Less
        } else {
            KeyOrder::Greater
        }
    } else if x.len() < y.len() {
        KeyOrder::Less
    } else if y.len() < x.len() {
        KeyOrder::Greater
    } else {
        assert(x@ =~= x@.take(i as int));
        assert(y@ =~= y@.take(i as int));
        KeyOrder::Equal
    }
}

// ---------------------------------------------------------------------------
// Rows
// ---------------------------------------------------------------------------

/// Entries in strictly increasing key order, so no key occurs twice.
pub open spec fn keys_sorted(s: Seq<(String, Value)>) -> bool {
    forall|i: int, j: int| 0 <= i < j < s.len() ==> key_lt(#[trigger] s[i].0@, #[trigger] s[j].0@)
}

pub open spec fn has_key(s: Seq<(String, Value)>, k: Seq<char>) -> bool {
    exists|i: int| 0 <= i < s.len() && #[trigger] s[i].0@ == k
}

/// A position of key `k` among the entries, when there is one.
pub open spec fn key_index(s: Seq<(String, Value)>, k: Seq<char>) -> int {
    choose|i: int| 0 <= i < s.len() && #[trigger] s[i].0@ == k
}

/// The map that a sequence of entries describes.
pub open spec fn entries_map(s: Seq<(String, Value)>) -> Map<Seq<char>, Json> {
    Map::new(|k: Seq<char>| has_key(s, k), |k: Seq<char>| json_of(s[key_index(s, k)].1))
}

proof fn lemma_sorted_unique(s: Seq<(String, Value)>, i: int, j: int)
    requires
        keys_sorted(s),
        0 <= i < s.len(),
        0 <= j < s.len(),
        s[i].0@ == s[j].0@,
    ensures
        i == j,
{
    if i < j {
        assert(key_lt(s[i].0@, s[j].0@));
        lemma_key_lt_irreflexive(s[i].0@);
    } else if j < i {
        assert(key_lt(s[j].0@, s[i].0@));
        lemma_key_lt_irreflexive(s[i].0@);
    }
}

/// In sorted entries, the value of the key at position `i` is the entry's value.
proof fn lemma_entries_map_at(s: Seq<(String, Value)>, i: int)
    requires
        keys_sorted(s),
        0 <= i < s.len(),
    ensures
        entries_map(s).contains_key(s[i].0@),
        entries_map(s)[s[i].0@] == json_of(s[i].1),
{
    let k = s[i].0@;
    assert(has_key(s, k));
    let j = key_index(s, k);
    lemma_sorted_unique(s, i, j);
    assert(entries_map(s)[k] == json_of(s[j].1));
}

/// A row of query results: field names mapped to JSON values.
///
/// The entries are kept in a `Vec` sorted by the UTF-8 bytes of their keys,
/// the order a `BTreeMap<String, _>` walks in. vstd specifies `BTreeMap` only
/// for keys whose ordering it specifies, which `String` is not, so a
/// `BTreeMap` here would say nothing of its contents; the sorted `Vec` and its
/// invariant give the view below.
#[derive(Debug)]
pub struct Row {
    entries: Vec<(String, Value)>,
}

impl Row {
    #[verifier::type_invariant]
    spec fn well_formed(self) -> bool {
        keys_sorted(self.entries@)
    }

    /// The entries in key order.
    pub closed spec fn entry_seq(self) -> Seq<(String, Value)> {
        self.entries@
    }
}

impl View for Row {
    type V = Map<Seq<char>, Json>;

    open spec fn view(&self) -> Map<Seq<char>, Json> {
        entries_map(self.entry_seq())
    }
}

/// The text of a cell: strings as they are, integers and booleans in their
/// usual text, nothing for null or a missing field, arrays and objects as
/// compact JSON.
pub open spec fn value_text(v: Json) -> Seq<char> {
    match v {
        Json::Text(s) => s,
        Json::Number(n) => zero_padded(n, 1),
        Json::Bool(b) => if b { "true"@ } else { "false"@ },
        Json::Null => Seq::<char>::empty(),
        _ => json_text(v),
    }
}

pub open spec fn cell_text(m: Map<Seq<char>, Json>, key: Seq<char>) -> Seq<char> {
    if m.contains_key(key) {
        value_text(m[key])
    } else {
        Seq::<char>::empty()
    }
}

/// The text of a value (`Row::get_str` on a present field).
pub fn text_of_value(v: &Value) -> (r: String)
    ensures
        r@ == value_text(json_of(*v)),
{
    match v {
        Value::String(s) => s.clone(),
        Value::Number(n) => {
            let mut r = String::new();
            push_zero_padded(&mut r, *n, 1);
            r
        },
        Value::Bool(b) => {
            if *b {
                "true".to_owned()
            } else {
                "false".to_owned()
            }
        },
        Value::Null => String::new(),
        _ => to_json_text(v),
    }
}

impl Row {
    pub fn new() -> (r: Self)
        ensures
            r@ == Map::<Seq<char>, Json>::empty(),
            r.entry_seq().len() == 0,
    {
        let r = Row { entries: Vec::new() };
        assert(entries_map(r.entries@) =~= Map::<Seq<char>, Json>::empty());
        r
    }

    /// The entries in key order.
    pub fn entries(&self) -> (r: &Vec<(String, Value)>)
        ensures
            r@ == self.entry_seq(),
            keys_sorted(r@),
    {
        proof {
            use_type_invariant(self);
        }
        &self.entries
    }

    /// Number of fields.
    pub fn len(&self) -> (r: usize)
        ensures
            r == self@.len(),
            r == self.entry_seq().len(),
    {
        proof {
            use_type_invariant(self);
            self.lemma_view_len();
        }
        self.entries.len()
    }

    proof fn lemma_view_len(&self)
        requires
            keys_sorted(self.entries@),
        ensures
            self@.dom() =~= self.entries@.map_values(|e: (String, Value)| e.0@).to_set(),
            self@.len() == self.entries@.len(),
    {
        let s = self.entries@;
        let ks = s.map_values(|e: (String, Value)| e.0@);
        assert forall|k: Seq<char>| self@.dom().contains(k) <==> ks.to_set().contains(k) by {
            if has_key(s, k) {
                let i = choose|i: int| 0 <= i < s.len() && #[trigger] s[i].0@ == k;
                assert(ks[i] == k);
            }
            if ks.to_set().contains(k) {
                let i = choose|i: int| 0 <= i < ks.len() && ks[i] == k;
                assert(s[i].0@ == k);
            }
        }
        assert forall|i: int, j: int| 0 <= i < ks.len() && 0 <= j < ks.len() && i != j implies ks[i]
            != ks[j] by {
            if ks[i] == ks[j] {
                lemma_sorted_unique(s, i, j);
            }
        }
        assert(ks.no_duplicates());
        ks.unique_seq_to_set();
    }

    /// The value of a field, if present.
    pub fn get(&self, key: &str) -> (r: Option<&Value>)
        ensures
            match r {
                Some(v) => self@.contains_key(key@) && json_of(*v) == self@[key@],
                None => !self@.contains_key(key@),
            },
    {
        proof {
            use_type_invariant(self);
        }
        let mut i: usize = 0;
        while i < self.entries.len()
            invariant
                keys_sorted(self.entries@),
                0 <= i <= self.entries@.len(),
                forall|j: int| 0 <= j < i ==> #[trigger] self.entries@[j].0@ != key@,
            decreases self.entries@.len() - i,
        {
            if let KeyOrder::Equal = compare_keys(self.entries[i].0.as_str(), key) {
                proof {
                    lemma_entries_map_at(self.entries@, i as int);
                }
                return Some(&self.entries[i].1);
            }
            i = i + 1;
        }
        None
    }

    /// Sets a field, replacing any value it had.
    pub fn set(&mut self, key: &str, value: Value)
        ensures
            final(self)@ == old(self)@.insert(key@, json_of(value)),
    {
        proof {
            use_type_invariant(&*self);
        }
        let mut entries: Vec<(String, Value)> = Vec::new();
        std::mem::swap(&mut entries, &mut self.entries);
        let ghost old_entries = entries@;
        let mut i: usize = 0;
        let mut found = false;
        while i < entries.len()
            invariant_except_break
                !found,
            invariant
                entries@ == old_entries,
                keys_sorted(old_entries),
                0 <= i <= old_entries.len(),
                forall|j: int| 0 <= j < i ==> key_lt(#[trigger] old_entries[j].0@, key@),
            ensures
                0 <= i <= old_entries.len(),
                forall|j: int| 0 <= j < i ==> key_lt(#[trigger] old_entries[j].0@, key@),
                found ==> i < old_entries.len() && old_entries[i as int].0@ == key@,
                !found ==> (i == old_entries.len() || key_lt(key@, old_entries[i as int].0@)),
            decreases old_entries.len() - i,
        {
            match compare_keys(entries[i].0.as_str(), key) {
                KeyOrder::Less => {
                    i = i + 1;
                },
                KeyOrder::Equal => {
                    found = true;
                    break;
                },
                KeyOrder::Greater => {
                    break;
                },
            }
        }
        let name = key.to_owned();
        if found {
            entries.set(i, (name, value));
            proof {
                let s = entries@;
                assert(keys_sorted(s)) by {
                    assert forall|a: int, b: int| 0 <= a < b < s.len() implies key_lt(
                        #[trigger] s[a].0@,
                        #[trigger] s[b].0@,
                    ) by {
                        assert(s[a].0@ == old_entries[a].0@);
                        assert(s[b].0@ == old_entries[b].0@);
                    }
                }
                self.lemma_replace(old_entries, s, i as int, key@, value);
            }
        } else {
            entries.insert(i, (name, value));
            proof {
                let s = entries@;
                assert(keys_sorted(s)) by {
                    assert forall|a: int, b: int| 0 <= a < b < s.len() implies key_lt(
                        #[trigger] s[a].0@,
                        #[trigger] s[b].0@,
                    ) by {
                        if a < i && b == i {
                        } else if a < i && b > i {
                            assert(s[b] == old_entries[b - 1]);
                            if b - 1 > i {
                                assert(key_lt(old_entries[i as int].0@, old_entries[b - 1].0@));
                                lemma_key_lt_transitive(key@, old_entries[i as int].0@, s[b].0@);
                            }
                            lemma_key_lt_transitive(s[a].0@, key@, s[b].0@);
                        } else if a == i {
                            assert(s[b] == old_entries[b - 1]);
                            if b - 1 > i {
                                assert(key_lt(old_entries[i as int].0@, old_entries[b - 1].0@));
                                lemma_key_lt_transitive(key@, old_entries[i as int].0@, s[b].0@);
                            }
                        } else if a > i {
                            assert(s[a] == old_entries[a - 1]);
                            assert(s[b] == old_entries[b - 1]);
                        } else {
                            assert(s[a] == old_entries[a]);
                            assert(s[b] == old_entries[b]);
                        }
                    }
                }
                self.lemma_insert(old_entries, s, i as int, key@, value);
            }
        }
        self.entries = entries;
    }

    proof fn lemma_replace(
        &self,
        old_entries: Seq<(String, Value)>,
        s: Seq<(String, Value)>,
        i: int,
        key: Seq<char>,
        value: Value,
    )
        requires
            keys_sorted(old_entries),
            keys_sorted(s),
            0 <= i < old_entries.len(),
            old_entries[i].0@ == key,
            s.len() == old_entries.len(),
            s[i].0@ == key,
            s[i].1 == value,
            forall|j: int| 0 <= j < s.len() && j != i ==> s[j] == old_entries[j],
        ensures
            entries_map(s) == entries_map(old_entries).insert(key, json_of(value)),
    {
        let m = entries_map(old_entries).insert(key, json_of(value));
        assert forall|k: Seq<char>| #[trigger] entries_map(s).contains_key(k) <==> m.contains_key(k) by {
            if has_key(s, k) {
                let j = choose|j: int| 0 <= j < s.len() && #[trigger] s[j].0@ == k;
                if j != i {
                    assert(old_entries[j].0@ == k);
                }
            }
            if has_key(old_entries, k) {
                let j = choose|j: int| 0 <= j < old_entries.len() && #[trigger] old_entries[j].0@ == k;
                if j != i {
                    assert(s[j].0@ == k);
                } else {
                    assert(s[i].0@ == k);
                }
            }
            if k == key {
                assert(s[i].0@ == k);
            }
        }
        assert forall|k: Seq<char>| #[trigger] entries_map(s).contains_key(k) implies entries_map(
            s,
        )[k] == m[k] by {
            let j = choose|j: int| 0 <= j < s.len() && #[trigger] s[j].0@ == k;
            lemma_entries_map_at(s, j);
            if k == key {
                lemma_sorted_unique(s, i, j);
            }
            if j != i {
                assert(old_entries[j].0@ == k);
                lemma_entries_map_at(old_entries, j);
            }
        }
        assert(entries_map(s) =~= m);
    }

    proof fn lemma_insert(
        &self,
        old_entries: Seq<(String, Value)>,
        s: Seq<(String, Value)>,
        i: int,
        key: Seq<char>,
        value: Value,
    )
        requires
            keys_sorted(old_entries),
            keys_sorted(s),
            0 <= i <= old_entries.len(),
            s.len() == old_entries.len() + 1,
            s[i].0@ == key,
            s[i].1 == value,
            forall|j: int| 0 <= j < i ==> s[j] == old_entries[j],
            forall|j: int| i < j < s.len() ==> s[j] == old_entries[j - 1],
        ensures
            entries_map(s) == entries_map(old_entries).insert(key, json_of(value)),
    {
        let m = entries_map(old_entries).insert(key, json_of(value));
        assert forall|k: Seq<char>| #[trigger] entries_map(s).contains_key(k) <==> m.contains_key(k) by {
            if has_key(s, k) {
                let j = choose|j: int| 0 <= j < s.len() && #[trigger] s[j].0@ == k;
                if j < i {
                    assert(old_entries[j].0@ == k);
                } else if j > i {
                    assert(old_entries[j - 1].0@ == k);
                }
            }
            if has_key(old_entries, k) {
                let j = choose|j: int| 0 <= j < old_entries.len() && #[trigger] old_entries[j].0@ == k;
                if j < i {
                    assert(s[j].0@ == k);
                } else {
                    assert(s[j + 1].0@ == k);
                }
            }
            if k == key {
                assert(s[i].0@ == k);
            }
        }
        assert forall|k: Seq<char>| #[trigger] entries_map(s).contains_key(k) implies entries_map(
            s,
        )[k] == m[k] by {
            let j = choose|j: int| 0 <= j < s.len() && #[trigger] s[j].0@ == k;
            lemma_entries_map_at(s, j);
            if k == key {
                lemma_sorted_unique(s, i, j);
            }
            if j < i {
                assert(old_entries[j].0@ == k);
                lemma_entries_map_at(old_entries, j);
            } else if j > i {
                assert(old_entries[j - 1].0@ == k);
                lemma_entries_map_at(old_entries, j - 1);
            } else {
                assert(k == key);
            }
        }
        assert(entries_map(s) =~= m);
    }

    /// The text of a field: empty when it is missing or null.
    pub fn get_str(&self, key: &str) -> (r: String)
        ensures
            r@ == cell_text(self@, key@),
    {
        match self.get(key) {
            Some(v) => text_of_value(v),
            None => String::new(),
        }
    }
}

/// Key-value pair for show/stats output.
#[derive(Debug)]
pub struct KeyValue {
    pub key: String,
    pub value: Value,
}

/// Checklist item for show output.
#[derive(Debug, Clone)]
pub struct ChecklistItem {
    pub title: String,
    pub status: i64,
}

/// Law: after a field is set, reading it gives the value set (and its text
/// is that value's text), and every other field reads as before.
pub proof fn lemma_set_then_get(
    before: Map<Seq<char>, Json>,
    after: Map<Seq<char>, Json>,
    key: Seq<char>,
    value: Json,
    other: Seq<char>,
)
    requires
        after == before.insert(key, value),
    ensures
        after.contains_key(key),
        after[key] == value,
        cell_text(after, key) == value_text(value),
        other != key ==> (after.contains_key(other) == before.contains_key(other) && cell_text(
            after,
            other,
        ) == cell_text(before, other)),
{
}

} // verus!
