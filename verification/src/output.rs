//! Tab-separated output: the text that the list, show and stats commands print.

use vstd::prelude::*;
use vstd::string::*;
use crate::json::{json_of, json_of_items, json_text, to_json_text, Json, Value};
use crate::model::{cell_text, text_of_value, value_text, KeyValue, Row};
use crate::text::{lemma_views_push, join, join_strings, push_char, split_char, split_on, str_views, trim, trim_str, views};

verus! {

/// Whether to print the TSV header row.
pub enum Header {
    Show,
    Hide,
}

/// Bundled parameters for TSV output.
pub struct TsvConfig<'a> {
    pub default_fields: &'a [&'a str],
    pub fields: &'a Option<String>,
    pub header: Header,
}

/// Each line followed by a newline, as `println!` prints them.
pub open spec fn lines_text(lines: Seq<Seq<char>>) -> Seq<char>
    decreases lines.len(),
{
    if lines.len() == 0 {
        Seq::<char>::empty()
    } else {
        lines_text(lines.drop_last()) + lines.last() + seq!['\n']
    }
}

/// The columns to print: the `--fields` list, split at commas and trimmed,
/// or else the command's default columns.
pub open spec fn tsv_columns(c: TsvConfig) -> Seq<Seq<char>> {
    match *c.fields {
        Some(f) => split_on(f@, ',').map_values(|p: Seq<char>| trim(p)),
        None => str_views(c.default_fields@),
    }
}

/// One row: the text of each column's field, separated by tabs.
pub open spec fn row_line(row: Map<Seq<char>, Json>, columns: Seq<Seq<char>>) -> Seq<char> {
    join(columns.map_values(|k: Seq<char>| cell_text(row, k)), "\t"@)
}

/// The header line, when it is shown.
pub open spec fn header_text(h: Header, header: Seq<char>) -> Seq<char> {
    match h {
        Header::Show => header + seq!['\n'],
        Header::Hide => Seq::<char>::empty(),
    }
}

/// The whole TSV output of a list of rows.
pub open spec fn tsv_text(rows: Seq<Row>, c: TsvConfig) -> Seq<char> {
    header_text(c.header, join(tsv_columns(c), "\t"@)) + lines_text(
        rows.map_values(|r: Row| row_line(r@, tsv_columns(c))),
    )
}

/// How the show command prints a field's value: an array as its elements
/// joined by commas (strings as they are, others as JSON), else as a cell.
pub open spec fn show_value_text(j: Json) -> Seq<char> {
    match j {
        Json::List(items) => join(items.map_values(|x: Json| element_text(x)), ","@),
        _ => value_text(j),
    }
}

pub open spec fn element_text(x: Json) -> Seq<char> {
    match x {
        Json::Text(s) => s,
        _ => json_text(x),
    }
}

/// `key<TAB>value` for each key-value pair.
pub open spec fn kv_lines(kvs: Seq<KeyValue>) -> Seq<Seq<char>> {
    kvs.map_values(|kv: KeyValue| kv.key@ + "\t"@ + value_text(json_of(kv.value)))
}

pub open spec fn kv_tsv_text(kvs: Seq<KeyValue>, h: Header) -> Seq<char> {
    header_text(h, "key\tvalue"@) + lines_text(kv_lines(kvs))
}

/// `key<TAB>value` for each field of a shown item, in key order.
pub open spec fn show_lines(entries: Seq<(String, Value)>) -> Seq<Seq<char>> {
    entries.map_values(|e: (String, Value)| e.0@ + "\t"@ + show_value_text(json_of(e.1)))
}

pub open spec fn show_tsv_text(row: Row, h: Header) -> Seq<char> {
    header_text(h, "key\tvalue"@) + lines_text(show_lines(row.entry_seq()))
}

fn push_line(out: &mut String, line: &str)
    ensures
        final(out)@ == old(out)@ + line@ + seq!['\n'],
{
    out.append(line);
    push_char(out, '\n');
}

fn header_string(h: &Header, header: &str) -> (r: String)
    ensures
        r@ == header_text(*h, header@),
{
    let mut r = String::new();
    if let Header::Show = h {
        push_line(&mut r, header);
    }
    assert(r@ =~= header_text(*h, header@));
    r
}

/// The columns that TSV output prints.
pub fn columns(config: &TsvConfig) -> (r: Vec<String>)
    ensures
        views(r@) == tsv_columns(*config),
{
    match config.fields {
        Some(f) => {
            let pieces = split_char(f.as_str(), ',');
            let ghost ps = views(pieces@);
            let mut r: Vec<String> = Vec::new();
            let mut i: usize = 0;
            while i < pieces.len()
                invariant
                    0 <= i <= pieces@.len(),
                    ps == views(pieces@),
                    views(r@) == ps.take(i as int).map_values(|p: Seq<char>| trim(p)),
                decreases pieces@.len() - i,
            {
                let t = trim_str(pieces[i].as_str());
                let ghost prev = r@;
                r.push(t);
                proof {
                    lemma_views_push(prev, t);
                    assert(ps[i as int] == pieces@[i as int]@);
                    assert(ps.take(i + 1).map_values(|p: Seq<char>| trim(p)) =~= ps.take(
                        i as int,
                    ).map_values(|p: Seq<char>| trim(p)).push(trim(ps[i as int])));
                }
                assert(views(r@) =~= ps.take(i + 1).map_values(|p: Seq<char>| trim(p)));
                i = i + 1;
            }
            assert(ps.take(pieces@.len() as int) =~= ps);
            r
        },
        None => {
            let d = config.default_fields;
            let mut r: Vec<String> = Vec::new();
            let mut i: usize = 0;
            while i < d.len()
                invariant
                    0 <= i <= d@.len(),
                    views(r@) == str_views(d@).take(i as int),
                decreases d@.len() - i,
            {
                let ghost prev = r@;
                let owned = d[i].to_owned();
                r.push(owned);
                proof {
                    lemma_views_push(prev, owned);
                    assert(str_views(d@)[i as int] == d@[i as int]@);
                    assert(str_views(d@).take(i + 1) =~= str_views(d@).take(i as int).push(
                        d@[i as int]@,
                    ));
                }
                assert(views(r@) =~= str_views(d@).take(i + 1));
                i = i + 1;
            }
            assert(str_views(d@).take(d@.len() as int) =~= str_views(d@));
            r
        },
    }
}

/// One row's line: each column's field text, separated by tabs.
pub fn row_line_text(row: &Row, columns: &Vec<String>) -> (r: String)
    ensures
        r@ == row_line(row@, views(columns@)),
{
    let ghost cols = views(columns@);
    let ghost cells = cols.map_values(|k: Seq<char>| cell_text(row@, k));
    let mut values: Vec<String> = Vec::new();
    let mut i: usize = 0;
    while i < columns.len()
        invariant
            0 <= i <= columns@.len(),
            cols == views(columns@),
            cells == cols.map_values(|k: Seq<char>| cell_text(row@, k)),
            views(values@) == cells.take(i as int),
        decreases columns@.len() - i,
    {
        let ghost prev = values@;
        let cell = row.get_str(columns[i].as_str());
        values.push(cell);
        proof {
            lemma_views_push(prev, cell);
            assert(cols[i as int] == columns@[i as int]@);
            assert(cells[i as int] == cell_text(row@, cols[i as int]));
            assert(cells.take(i + 1) =~= cells.take(i as int).push(cells[i as int]));
        }
        assert(views(values@) =~= cells.take(i + 1));
        i = i + 1;
    }
    assert(cells.take(columns@.len() as int) =~= cells);
    join_strings(values.as_slice(), "\t")
}

/// The TSV text of a list of rows: the header row when shown, then one
/// line per row with the configured columns.
pub fn tsv_output(rows: &[Row], config: &TsvConfig) -> (r: String)
    ensures
        r@ == tsv_text(rows@, *config),
{
    let cols = columns(config);
    let head = join_strings(cols.as_slice(), "\t");
    let mut out = header_string(&config.header, head.as_str());
    let ghost start = out@;
    let ghost ls = rows@.map_values(|r: Row| row_line(r@, tsv_columns(*config)));
    let mut i: usize = 0;
    while i < rows.len()
        invariant
            0 <= i <= rows@.len(),
            views(cols@) == tsv_columns(*config),
            ls == rows@.map_values(|r: Row| row_line(r@, tsv_columns(*config))),
            out@ == start + lines_text(ls.take(i as int)),
        decreases rows@.len() - i,
    {
        let line = row_line_text(&rows[i], &cols);
        push_line(&mut out, line.as_str());
        assert(ls.take(i + 1).drop_last() =~= ls.take(i as int));
        i = i + 1;
    }
    assert(ls.take(rows@.len() as int) =~= ls);
    out
}

/// The TSV text of key-value pairs.
pub fn kv_tsv_output(kvs: &[KeyValue], header: Header) -> (r: String)
    ensures
        r@ == kv_tsv_text(kvs@, header),
{
    let mut out = header_string(&header, "key\tvalue");
    let ghost start = out@;
    let ghost ls = kv_lines(kvs@);
    let mut i: usize = 0;
    while i < kvs.len()
        invariant
            0 <= i <= kvs@.len(),
            ls == kv_lines(kvs@),
            out@ == start + lines_text(ls.take(i as int)),
        decreases kvs@.len() - i,
    {
        let kv = &kvs[i];
        let mut line = kv.key.clone();
        line.append("\t");
        line.append(text_of_value(&kv.value).as_str());
        push_line(&mut out, line.as_str());
        assert(ls.take(i + 1).drop_last() =~= ls.take(i as int));
        i = i + 1;
    }
    assert(ls.take(kvs@.len() as int) =~= ls);
    out
}

/// The text of a field's value in show output.
pub fn show_value(v: &Value) -> (r: String)
    ensures
        r@ == show_value_text(json_of(*v)),
{
    match v {
        Value::Array(items) => {
            let ghost es = json_of_items(items@).map_values(|x: Json| element_text(x));
            let mut parts: Vec<String> = Vec::new();
            let mut i: usize = 0;
            while i < items.len()
                invariant
                    0 <= i <= items@.len(),
                    es == json_of_items(items@).map_values(|x: Json| element_text(x)),
                    views(parts@) == es.take(i as int),
                decreases items@.len() - i,
            {
                let text = match &items[i] {
                    Value::String(s) => s.clone(),
                    other => to_json_text(other),
                };
                proof {
                    lemma_json_of_items_index(items@, i as int);
                }
                let ghost prev = parts@;
                parts.push(text);
                proof {
                    lemma_views_push(prev, text);
                    assert(es[i as int] == element_text(json_of(items@[i as int])));
                    assert(es.take(i + 1) =~= es.take(i as int).push(es[i as int]));
                }
                assert(views(parts@) =~= es.take(i + 1));
                i = i + 1;
            }
            proof {
                lemma_json_of_items_len(items@);
            }
            assert(es.take(items@.len() as int) =~= es);
            join_strings(parts.as_slice(), ",")
        },
        _ => text_of_value(v),
    }
}

proof fn lemma_json_of_items_len(items: Seq<Value>)
    ensures
        json_of_items(items).len() == items.len(),
    decreases items.len(),
{
    if items.len() > 0 {
        lemma_json_of_items_len(items.drop_last());
    }
}

proof fn lemma_json_of_items_index(items: Seq<Value>, i: int)
    requires
        0 <= i < items.len(),
    ensures
        json_of_items(items).len() == items.len(),
        json_of_items(items)[i] == json_of(items[i]),
    decreases items.len(),
{
    lemma_json_of_items_len(items);
    if i < items.len() - 1 {
        lemma_json_of_items_index(items.drop_last(), i);
    }
}

/// The TSV text of a single item: one `key<TAB>value` line per field.
pub fn show_tsv_output(row: &Row, header: Header) -> (r: String)
    ensures
        r@ == show_tsv_text(*row, header),
{
    let entries = row.entries();
    let mut out = header_string(&header, "key\tvalue");
    let ghost start = out@;
    let ghost ls = show_lines(row.entry_seq());
    let mut i: usize = 0;
    while i < entries.len()
        invariant
            0 <= i <= entries@.len(),
            entries@ == row.entry_seq(),
            ls == show_lines(row.entry_seq()),
            out@ == start + lines_text(ls.take(i as int)),
        decreases entries@.len() - i,
    {
        let entry = &entries[i];
        let mut line = entry.0.clone();
        line.append("\t");
        line.append(show_value(&entry.1).as_str());
        push_line(&mut out, line.as_str());
        assert(ls.take(i + 1).drop_last() =~= ls.take(i as int));
        i = i + 1;
    }
    assert(ls.take(entries@.len() as int) =~= ls);
    out
}

/// Law: `--no-header` removes the header line and nothing else.
pub proof fn lemma_no_header(rows: Seq<Row>, shown: TsvConfig, hidden: TsvConfig)
    requires
        shown.header is Show,
        hidden.header is Hide,
        shown.default_fields@ == hidden.default_fields@,
        *shown.fields == *hidden.fields,
    ensures
        tsv_text(rows, shown) == join(tsv_columns(shown), "\t"@) + seq!['\n'] + tsv_text(
            rows,
            hidden,
        ),
        tsv_columns(shown) == tsv_columns(hidden),
{
    assert(tsv_columns(shown) == tsv_columns(hidden));
    assert(rows.map_values(|r: Row| row_line(r@, tsv_columns(shown))) =~= rows.map_values(
        |r: Row| row_line(r@, tsv_columns(hidden)),
    ));
    assert(header_text(hidden.header, join(tsv_columns(hidden), "\t"@)) =~= Seq::<char>::empty());
}

/// Law: given `--fields`, the columns are its comma-separated names,
/// trimmed, whatever the command's default columns are.
pub proof fn lemma_fields_override(a: TsvConfig, b: TsvConfig)
    requires
        *a.fields == *b.fields,
        a.fields is Some,
    ensures
        tsv_columns(a) == tsv_columns(b),
        tsv_columns(a) == split_on(a.fields->Some_0@, ',').map_values(|p: Seq<char>| trim(p)),
{
}

/// Law: each row prints as one line, the lines in the order of the rows,
/// each holding the configured columns' cells separated by tabs.
pub proof fn lemma_tsv_lines(rows: Seq<Row>, c: TsvConfig)
    ensures
        tsv_text(rows, c) == header_text(c.header, join(tsv_columns(c), "\t"@)) + lines_text(
            Seq::new(rows.len(), |i: int| row_line(rows[i]@, tsv_columns(c))),
        ),
{
    assert(rows.map_values(|r: Row| row_line(r@, tsv_columns(c))) =~= Seq::new(
        rows.len(),
        |i: int| row_line(rows[i]@, tsv_columns(c)),
    ));
}

} // verus!
