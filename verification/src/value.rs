//! The values that a cell can take once it is coerced, and the record of one row.

use vstd::prelude::*;
use vstd::string::*;
use indexmap::IndexMap;
use crate::decimal::{Decimal, DecimalView};
use crate::numerals::{decimal_digits, push_decimal};
use crate::text::string_of_chars;

verus! {

/// A JSON-compatible scalar, or null.
#[derive(Debug, PartialEq)]
pub enum CellValue {
    /// No value.
    Null,
    /// A boolean.
    Bool(bool),
    /// A whole number.
    Integer(i64),
    /// A decimal number.
    Number(Decimal),
    /// A text.
    Text(String),
}

/// The mathematical content of a [`CellValue`].
pub enum CellValueView {
    Null,
    Bool(bool),
    Integer(i64),
    Number(DecimalView),
    Text(Seq<char>),
}

impl View for CellValue {
    type V = CellValueView;

    open spec fn view(&self) -> CellValueView {
        match self {
            CellValue::Null => CellValueView::Null,
            CellValue::Bool(b) => CellValueView::Bool(*b),
            CellValue::Integer(i) => CellValueView::Integer(*i),
            CellValue::Number(d) => CellValueView::Number(d@),
            CellValue::Text(s) => CellValueView::Text(s@),
        }
    }
}

/// The content of an optional value.
pub open spec fn optional_view(v: Option<CellValue>) -> Option<CellValueView> {
    match v {
        Some(x) => Some(x@),
        None => None,
    }
}

/// The contents of a list of values.
pub open spec fn values_view(v: Seq<CellValue>) -> Seq<CellValueView> {
    Seq::new(v.len(), |i: int| v[i]@)
}

impl CellValue {
    /// A copy of the value.
    pub fn duplicate(&self) -> (r: CellValue)
        ensures
            r@ == self@,
    {
        match self {
            CellValue::Null => CellValue::Null,
            CellValue::Bool(b) => CellValue::Bool(*b),
            CellValue::Integer(i) => CellValue::Integer(*i),
            CellValue::Number(d) => CellValue::Number(d.duplicate()),
            CellValue::Text(s) => CellValue::Text(s.clone()),
        }
    }
}

impl Clone for CellValue {
    fn clone(&self) -> (r: Self)
        ensures
            r@ == self@,
    {
        self.duplicate()
    }
}

/// The value to fall back on: the default if there is one, else null.
pub fn default_or_null(def_val: &Option<CellValue>) -> (r: CellValue)
    ensures
        r@ == fallback(optional_view(*def_val)),
{
    match def_val {
        Some(v) => v.duplicate(),
        None => CellValue::Null,
    }
}

/// The value to fall back on: the default if there is one, else null.
pub open spec fn fallback(def_val: Option<CellValueView>) -> CellValueView {
    match def_val {
        Some(v) => v,
        None => CellValueView::Null,
    }
}

/// `indexmap::IndexMap`, a hash map that keeps its entries in insertion order.
#[verifier::external_type_specification]
#[verifier::external_body]
#[verifier::reject_recursive_types(K)]
#[verifier::reject_recursive_types(V)]
#[verifier::reject_recursive_types(S)]
pub struct ExIndexMap<K, V, S>(IndexMap<K, V, S>);

/// The entries of a record, key and value, in their order.
pub uninterp spec fn record_entries(m: IndexMap<String, CellValue>) -> Seq<
    (Seq<char>, CellValueView),
>;

/// The position of the first entry with key `key`, or the length if there is none.
pub open spec fn key_position(entries: Seq<(Seq<char>, CellValueView)>, key: Seq<char>) -> int
    decreases entries.len(),
{
    if entries.len() == 0 {
        0
    } else if entries[0].0 == key {
        0
    } else {
        1 + key_position(entries.drop_first(), key)
    }
}

/// The entries after `key` is set to `value`: an entry with that key keeps
/// its place and takes the value; otherwise a new entry comes last.
pub open spec fn entries_with(
    entries: Seq<(Seq<char>, CellValueView)>,
    key: Seq<char>,
    value: CellValueView,
) -> Seq<(Seq<char>, CellValueView)> {
    let at = key_position(entries, key);
    if 0 <= at < entries.len() {
        entries.update(at, (key, value))
    } else {
        entries.push((key, value))
    }
}

/// `IndexMap::new`: a map without entries.
#[verifier::external_body]
pub(crate) fn record_new() -> (r: IndexMap<String, CellValue>)
    ensures
        record_entries(r) == Seq::<(Seq<char>, CellValueView)>::empty(),
{
    IndexMap::new()
}

/// `IndexMap::insert`: if the key is in the map, its entry keeps its place
/// and takes the new value; if not, the pair becomes the last entry.
#[verifier::external_body]
pub(crate) fn record_insert(m: &mut IndexMap<String, CellValue>, key: String, value: CellValue)
    ensures
        record_entries(*final(m)) == entries_with(record_entries(*old(m)), key@, value@),
{
    m.insert(key, value);
}

/// `IndexMap::len`: the number of entries.
#[verifier::external_body]
pub(crate) fn record_len(m: &IndexMap<String, CellValue>) -> (r: usize)
    ensures
        r == record_entries(*m).len(),
{
    m.len()
}

/// `IndexMap::get_index`: the entry at a position, here as a copy of its key and its value.
#[verifier::external_body]
pub(crate) fn record_entry_at(m: &IndexMap<String, CellValue>, index: usize) -> (r: (
    String,
    CellValue,
))
    requires
        index < record_entries(*m).len(),
    ensures
        r.0@ == record_entries(*m)[index as int].0,
        r.1@ == record_entries(*m)[index as int].1,
{
    let (key, value) = m.get_index(index).unwrap();
    (key.clone(), value.clone())
}

/// `IndexMap::clone`: a map with the same entries in the same order.
#[verifier::external_body]
pub(crate) fn record_clone(m: &IndexMap<String, CellValue>) -> (r: IndexMap<String, CellValue>)
    ensures
        record_entries(r) == record_entries(*m),
{
    m.clone()
}

/// The value of the entry with key `key`, if there is one.
pub open spec fn entry_value(entries: Seq<(Seq<char>, CellValueView)>, key: Seq<char>) -> Option<
    CellValueView,
> {
    let at = key_position(entries, key);
    if 0 <= at < entries.len() {
        Some(entries[at].1)
    } else {
        None
    }
}

/// `IndexMap::get`: the value stored under a key, here as a copy, if the key is in the map.
#[verifier::external_body]
pub(crate) fn record_get(m: &IndexMap<String, CellValue>, key: &str) -> (r: Option<CellValue>)
    ensures
        optional_view(r) == entry_value(record_entries(*m), key@),
{
    m.get(key).cloned()
}

/// A text as a JSON string literal, quoted and escaped as `serde_json` writes it.
pub uninterp spec fn json_quoted_of(text: Seq<char>) -> Seq<char>;

/// Renders a text through `serde_json::Value`'s `Display`, which writes a
/// JSON string literal. The result depends on the text alone and is named
/// [`json_quoted_of`].
#[verifier::external_body]
pub(crate) fn json_quote(text: &str) -> (r: String)
    ensures
        r@ == json_quoted_of(text@),
{
    serde_json::Value::from(text).to_string()
}

/// The decimal numeral of an integer, with `-` in front if it is negative.
pub open spec fn integer_text(i: int) -> Seq<char> {
    if i < 0 {
        seq!['-'] + decimal_digits((-i) as nat)
    } else {
        decimal_digits(i as nat)
    }
}

/// The JSON text of a value: `null`, `true`, `false`, a numeral, or a quoted string.
pub open spec fn value_text(v: CellValueView) -> Seq<char> {
    match v {
        CellValueView::Null => "null"@,
        CellValueView::Bool(b) => if b {
            "true"@
        } else {
            "false"@
        },
        CellValueView::Integer(i) => integer_text(i as int),
        CellValueView::Number(d) => d.text(),
        CellValueView::Text(s) => json_quoted_of(s),
    }
}

/// The text of a value once its quoting is known: what [`value_text`] gives
/// when `quoted` is the JSON string literal of a text value.
pub open spec fn value_text_with(v: CellValueView, quoted: Seq<char>) -> Seq<char> {
    match v {
        CellValueView::Text(_) => quoted,
        _ => value_text(v),
    }
}

/// The decimal numeral of an integer.
pub fn integer_to_string(i: i64) -> (r: String)
    ensures
        r@ == integer_text(i as int),
{
    let mut out: Vec<char> = Vec::new();
    if i < 0 {
        out.push('-');
        let magnitude: u64 = if i == i64::MIN {
            9223372036854775808u64
        } else {
            (-i) as u64
        };
        push_decimal(&mut out, magnitude as u128);
        assert(out@ =~= seq!['-'] + decimal_digits((-i) as nat));
    } else {
        push_decimal(&mut out, i as u128);
        assert(out@ =~= decimal_digits(i as nat));
    }
    string_of_chars(&out)
}

impl CellValue {
    /// The JSON text of the value, given the JSON string literal to use for a text.
    pub fn to_text_with(&self, quoted: String) -> (r: String)
        ensures
            r@ == value_text_with(self@, quoted@),
    {
        match self {
            CellValue::Null => "null".to_string(),
            CellValue::Bool(b) => if *b {
                "true".to_string()
            } else {
                "false".to_string()
            },
            CellValue::Integer(i) => integer_to_string(*i),
            CellValue::Number(d) => d.to_text(),
            CellValue::Text(_) => quoted,
        }
    }

    /// The JSON text of the value: `null`, `true`, `false`, a numeral, or a quoted string.
    pub fn to_json_text(&self) -> (r: String)
        ensures
            r@ == value_text(self@),
    {
        let quoted = match self {
            CellValue::Text(s) => json_quote(s.as_str()),
            _ => String::new(),
        };
        self.to_text_with(quoted)
    }
}

/// The entries of each record of a list.
pub open spec fn records_view(rows: Seq<IndexMap<String, CellValue>>) -> Seq<
    Seq<(Seq<char>, CellValueView)>,
> {
    Seq::new(rows.len(), |i: int| record_entries(rows[i]))
}

/// A copy of a list of records.
pub fn clone_records(rows: &[IndexMap<String, CellValue>]) -> (r: Vec<IndexMap<String, CellValue>>)
    ensures
        records_view(r@) == records_view(rows@),
{
    let mut r: Vec<IndexMap<String, CellValue>> = Vec::new();
    let mut i: usize = 0;
    while i < rows.len()
        invariant
            i <= rows.len(),
            r.len() == i,
            forall|j: int| 0 <= j < i ==> record_entries(r@[j]) == record_entries(rows@[j]),
        decreases rows.len() - i,
    {
        r.push(record_clone(&rows[i]));
        i += 1;
    }
    assert(records_view(r@) =~= records_view(rows@));
    r
}

/// A whole number as a value.
pub fn integer_value(value: i64) -> (r: CellValue)
    ensures
        r@ == CellValueView::Integer(value),
{
    CellValue::Integer(value)
}

/// A decimal number as a value.
pub fn float_value(value: Decimal) -> (r: CellValue)
    ensures
        r@ == CellValueView::Number(value@),
{
    CellValue::Number(value)
}

/// A text as a value.
pub fn string_value(value: &str) -> (r: CellValue)
    ensures
        r@ == CellValueView::Text(value@),
{
    CellValue::Text(value.to_string())
}

/// A boolean as a value.
pub fn bool_value(value: bool) -> (r: CellValue)
    ensures
        r@ == CellValueView::Bool(value),
{
    CellValue::Bool(value)
}

} // verus!
