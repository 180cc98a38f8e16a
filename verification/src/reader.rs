//! Coercion of cells into typed values, and the reading of rows into records.

use vstd::prelude::*;
use vstd::string::*;
use indexmap::IndexMap;
use simple_string_patterns::StripCharacters;
use crate::cell::{cells_view, date_text, datetime_text, DateTimeParts, RawCell, RawCellView};
use crate::column::{ColumnView, RowOptionSet, RowOptionSetView};
use crate::decimal::{decimal_of_text, rounded, Decimal, DecimalView};
use crate::euro_number_format::{euro_number_format, is_euro_number_format};
use crate::format::{Format, FormatView};
use crate::fuzzy_datetime::{fuzzy_to_date_string, fuzzy_to_datetime_string, normalized_date,
    normalized_datetime};
use crate::is_truthy::{is_truthy_core, is_truthy_custom, is_truthy_standard, truthy_core,
    truthy_custom, truthy_standard};
use crate::text::{remove_char, replace_char, replaced, string_of_chars,
    strings_view, to_chars, without_char};
use crate::value::{default_or_null, entries_with, fallback, optional_view, record_entries,
    record_insert, record_new, values_view, CellValue, CellValueView};

verus! {

/// The numeric parts of a text, as `to_numeric_strings` of
/// `simple_string_patterns` extracts them, in order.
pub uninterp spec fn numeric_strings_of(text: Seq<char>) -> Seq<Seq<char>>;

/// Calls `StripCharacters::to_numeric_strings` of `simple_string_patterns`,
/// which walks the text and collects each run of digits with its sign and
/// separators, corrected to use `.` for decimals. The result depends on the
/// text alone and is named [`numeric_strings_of`].
#[verifier::external_body]
fn numeric_strings(text: &str) -> (r: Vec<String>)
    ensures
        strings_view(r@) == numeric_strings_of(text@),
{
    text.to_numeric_strings()
}

/// The first of the candidates that is a decimal number.
pub open spec fn first_decimal_of(candidates: Seq<Seq<char>>) -> Option<DecimalView>
    decreases candidates.len(),
{
    if candidates.len() == 0 {
        None
    } else {
        match decimal_of_text(candidates[0]) {
            Some(d) => Some(d),
            None => first_decimal_of(candidates.drop_first()),
        }
    }
}

/// The first number in a text: the first of its numeric parts that is a decimal number.
pub open spec fn first_number_of(text: Seq<char>) -> Option<DecimalView> {
    first_decimal_of(numeric_strings_of(text))
}

/// The column declared at a position, if one is.
pub open spec fn column_at(rows: RowOptionSetView, index: int) -> Option<ColumnView> {
    if 0 <= index < rows.columns.len() {
        Some(rows.columns[index])
    } else {
        None
    }
}

/// The type declared for the values of a column; `Auto` for a column that is not declared.
pub open spec fn format_at(rows: RowOptionSetView, index: int) -> FormatView {
    match column_at(rows, index) {
        Some(c) => c.format,
        None => FormatView::Auto,
    }
}

/// The default declared for a column, if any.
pub open spec fn default_at(rows: RowOptionSetView, index: int) -> Option<CellValueView> {
    match column_at(rows, index) {
        Some(c) => c.default,
        None => None,
    }
}

/// Whether dates of a column are written without time: by the flag of the
/// row options or by that of the declared column.
pub open spec fn date_only_at(rows: RowOptionSetView, index: int) -> bool {
    match column_at(rows, index) {
        Some(c) => c.date_only || rows.date_only,
        None => rows.date_only,
    }
}

/// Whether `,` is the decimal separator of a column: by the flag of the
/// declared column or, for a column that is not declared, by that of the row options.
pub open spec fn decimal_comma_at(rows: RowOptionSetView, index: int) -> bool {
    match column_at(rows, index) {
        Some(c) => c.decimal_comma,
        None => rows.decimal_comma,
    }
}

/// A boolean that was read, or else the fallback.
pub open spec fn bool_or_fallback(b: Option<bool>, def_val: Option<CellValueView>) -> CellValueView {
    match b {
        Some(x) => CellValueView::Bool(x),
        None => fallback(def_val),
    }
}

/// A text that was obtained, or else the fallback.
pub open spec fn text_or_fallback(
    t: Option<Seq<char>>,
    def_val: Option<CellValueView>,
) -> CellValueView {
    match t {
        Some(x) => CellValueView::Text(x),
        None => fallback(def_val),
    }
}

/// The integer part of a number, or the fallback if it does not fit in 64 bits.
pub open spec fn truncated_or_fallback(
    d: DecimalView,
    def_val: Option<CellValueView>,
) -> CellValueView {
    if i64::MIN <= d.truncated() <= i64::MAX {
        CellValueView::Integer(d.truncated() as i64)
    } else {
        fallback(def_val)
    }
}

/// The value of a number under a format: truncated for `Integer`, rounded
/// half away from zero for `Decimal`, as it is otherwise.
pub open spec fn coerced_number(
    d: DecimalView,
    format: FormatView,
    def_val: Option<CellValueView>,
) -> CellValueView {
    match format {
        FormatView::Integer => truncated_or_fallback(d, def_val),
        FormatView::Decimal(places) => CellValueView::Number(rounded(d, places as nat)),
        _ => CellValueView::Number(d),
    }
}

/// The value of a date cell: the fallback if the source could not resolve
/// it; else the date alone under `Date` or where `date_only` is set, and the
/// date with the time otherwise.
pub open spec fn coerced_datetime(
    parts: Option<DateTimeParts>,
    format: FormatView,
    def_val: Option<CellValueView>,
    date_only: bool,
) -> CellValueView {
    match parts {
        None => fallback(def_val),
        Some(p) => if date_only || format == FormatView::Date {
            CellValueView::Text(date_text(p))
        } else {
            CellValueView::Text(datetime_text(p))
        },
    }
}

/// The value of the first number in a text, rounded if `places` says so; the
/// fallback if the text holds no number.
pub open spec fn coerced_numeric_text(
    s: Seq<char>,
    places: Option<u8>,
    def_val: Option<CellValueView>,
) -> CellValueView {
    match first_number_of(s) {
        Some(d) => match places {
            Some(p) => CellValueView::Number(rounded(d, p as nat)),
            None => CellValueView::Number(d),
        },
        None => fallback(def_val),
    }
}

/// The value of a text cell under a format.
///
/// - `Boolean`, `Truthy`, `TruthyCustom`: the boolean that the strict, the
///   standard or the given rules read, else the fallback.
/// - `Decimal`, `Float`: the first number in the text, rounded for
///   `Decimal`, else the fallback.
/// - `Date`: the repaired date, else the fallback.
/// - `DateTime`, `DateTimeCustom`: the repaired date and time, else the fallback.
/// - Any other format: the text as it is.
pub open spec fn coerced_text(
    s: Seq<char>,
    format: FormatView,
    def_val: Option<CellValueView>,
) -> CellValueView {
    match format {
        FormatView::Boolean => bool_or_fallback(truthy_core(s, false), def_val),
        FormatView::Truthy => bool_or_fallback(truthy_standard(s, false), def_val),
        FormatView::TruthyCustom(opts) => bool_or_fallback(
            truthy_custom(s, opts, false, false),
            def_val,
        ),
        FormatView::Decimal(places) => coerced_numeric_text(s, Some(places), def_val),
        FormatView::Float => coerced_numeric_text(s, None, def_val),
        FormatView::Date => text_or_fallback(normalized_date(s), def_val),
        FormatView::DateTime => text_or_fallback(normalized_datetime(s, 'T', true), def_val),
        FormatView::DateTimeCustom(_) => text_or_fallback(
            normalized_datetime(s, 'T', true),
            def_val,
        ),
        _ => CellValueView::Text(s),
    }
}

/// The value of a cell under a format, a default and the date flag.
///
/// A whole number and a boolean pass as they are; an empty cell takes the
/// fallback; a cell of another kind passes as its text.
pub open spec fn coerced_cell(
    cell: RawCellView,
    format: FormatView,
    def_val: Option<CellValueView>,
    date_only: bool,
) -> CellValueView {
    match cell {
        RawCellView::Int(i) => CellValueView::Integer(i),
        RawCellView::Float(d) => coerced_number(d, format, def_val),
        RawCellView::Bool(b) => CellValueView::Bool(b),
        RawCellView::DateTime(p) => coerced_datetime(p, format, def_val, date_only),
        RawCellView::Text(s) => coerced_text(s, format, def_val),
        RawCellView::Other(s) => CellValueView::Text(s),
        RawCellView::Empty => fallback(def_val),
    }
}

/// The value of the cell at a position of a row, under the row options.
pub open spec fn coerced_at(cell: RawCellView, rows: RowOptionSetView, index: int) -> CellValueView {
    coerced_cell(cell, format_at(rows, index), default_at(rows, index), date_only_at(rows, index))
}

/// The values of a row of cells under the row options.
pub open spec fn coerced_row(row: Seq<RawCellView>, rows: RowOptionSetView) -> Seq<CellValueView> {
    Seq::new(row.len(), |i: int| coerced_at(row[i], rows, i))
}

/// Re-coercing a text under `Format::Text` gives the text back, whatever the default.
pub proof fn lemma_text_format_is_identity(s: Seq<char>, def_val: Option<CellValueView>, date_only: bool)
    ensures
        coerced_text(s, FormatView::Text, def_val) == CellValueView::Text(s),
        coerced_cell(RawCellView::Text(s), FormatView::Text, def_val, date_only)
            == CellValueView::Text(s),
{
}

/// Coercion always yields a value, and in every case where the cell cannot
/// be resolved that value is the default, or null without a default.
pub proof fn lemma_empty_cell_takes_fallback(
    format: FormatView,
    def_val: Option<CellValueView>,
    date_only: bool,
)
    ensures
        coerced_cell(RawCellView::Empty, format, def_val, date_only) == fallback(def_val),
        coerced_cell(RawCellView::DateTime(None), format, def_val, date_only) == fallback(def_val),
        def_val is None ==> coerced_cell(RawCellView::Empty, format, def_val, date_only)
            == CellValueView::Null,
{
}

/// The first of the candidates that is a decimal number.
pub fn first_decimal(candidates: &Vec<String>) -> (r: Option<Decimal>)
    ensures
        match r {
            Some(d) => first_decimal_of(strings_view(candidates@)) == Some(d@) && d@.wf(),
            None => first_decimal_of(strings_view(candidates@)) is None,
        },
{
    let ghost all = strings_view(candidates@);
    let mut i: usize = 0;
    assert(all.skip(0) =~= all);
    while i < candidates.len()
        invariant
            i <= candidates.len(),
            all == strings_view(candidates@),
            first_decimal_of(all) == first_decimal_of(all.skip(i as int)),
        decreases candidates.len() - i,
    {
        let ghost rest = all.skip(i as int);
        assert(rest[0] == candidates@[i as int]@);
        assert(rest.drop_first() =~= all.skip(i as int + 1));
        match Decimal::parse(candidates[i].as_str()) {
            Some(d) => {
                return Some(d);
            },
            None => {},
        }
        i += 1;
    }
    assert(all.skip(candidates.len() as int) =~= Seq::<Seq<char>>::empty());
    None
}

/// The first number in a text.
pub fn first_number(text: &str) -> (r: Option<Decimal>)
    ensures
        match r {
            Some(d) => first_number_of(text@) == Some(d@) && d@.wf(),
            None => first_number_of(text@) is None,
        },
{
    first_decimal(&numeric_strings(text))
}

/// The value of a number under a format: see [`coerced_number`].
pub fn process_float_value(value: &Decimal, format: &Format, def_val: &Option<CellValue>) -> (r:
    CellValue)
    ensures
        r@ == coerced_number(value@, format@, optional_view(*def_val)),
{
    match format {
        Format::Integer => match value.truncate() {
            Some(i) => CellValue::Integer(i),
            None => default_or_null(def_val),
        },
        Format::Decimal(places) => CellValue::Number(value.round_to(*places)),
        _ => CellValue::Number(value.duplicate()),
    }
}

/// The value of a date cell: see [`coerced_datetime`].
pub fn process_excel_datetime_value(
    datetime: &Option<DateTimeParts>,
    format: &Format,
    def_val: &Option<CellValue>,
    date_only: bool,
) -> (r: CellValue)
    ensures
        r@ == coerced_datetime(*datetime, format@, optional_view(*def_val), date_only),
{
    match datetime {
        None => default_or_null(def_val),
        Some(p) => {
            let as_date = match format {
                Format::Date => true,
                _ => date_only,
            };
            if as_date {
                CellValue::Text(p.to_date_string())
            } else {
                CellValue::Text(p.to_datetime_string())
            }
        },
    }
}

/// A boolean that was read, or else the default, or null.
pub fn process_truthy_value(result: Option<bool>, def_val: &Option<CellValue>) -> (r: CellValue)
    ensures
        r@ == bool_or_fallback(result, optional_view(*def_val)),
{
    match result {
        Some(is_true) => CellValue::Bool(is_true),
        None => default_or_null(def_val),
    }
}

/// The first number in a text, rounded if `places` says so, or else the default, or null.
pub fn process_numeric_value(value: &str, def_val: &Option<CellValue>, places: Option<u8>) -> (r:
    CellValue)
    ensures
        r@ == coerced_numeric_text(value@, places, optional_view(*def_val)),
{
    match first_number(value) {
        Some(n) => match places {
            Some(p) => CellValue::Number(n.round_to(p)),
            None => CellValue::Number(n),
        },
        None => default_or_null(def_val),
    }
}

/// A date text that was obtained, or else the default, or null.
pub fn process_date_value(result: Option<String>, def_val: &Option<CellValue>) -> (r: CellValue)
    ensures
        r@ == text_or_fallback(
            match result {
                Some(s) => Some(s@),
                None => None,
            },
            optional_view(*def_val),
        ),
{
    match result {
        Some(date_str) => CellValue::Text(date_str),
        None => default_or_null(def_val),
    }
}

/// The value of a text cell under a format: see [`coerced_text`].
pub fn process_string_value(value: &str, format: &Format, def_val: &Option<CellValue>) -> (r:
    CellValue)
    ensures
        r@ == coerced_text(value@, format@, optional_view(*def_val)),
{
    match format {
        Format::Boolean => process_truthy_value(is_truthy_core(value, false), def_val),
        Format::Truthy => process_truthy_value(is_truthy_standard(value, false), def_val),
        Format::TruthyCustom(opts) => process_truthy_value(
            is_truthy_custom(value, opts.as_slice(), false, false),
            def_val,
        ),
        Format::Decimal(places) => process_numeric_value(value, def_val, Some(*places)),
        Format::Float => process_numeric_value(value, def_val, None),
        Format::Date => process_date_value(fuzzy_to_date_string(value), def_val),
        Format::DateTime => process_date_value(fuzzy_to_datetime_string(value), def_val),
        Format::DateTimeCustom(_) => process_date_value(fuzzy_to_datetime_string(value), def_val),
        _ => CellValue::Text(value.to_string()),
    }
}

/// The value of a cell under a format, a default and the date flag: see [`coerced_cell`].
pub fn coerce_cell(
    cell: &RawCell,
    format: &Format,
    def_val: &Option<CellValue>,
    date_only: bool,
) -> (r: CellValue)
    ensures
        r@ == coerced_cell(cell@, format@, optional_view(*def_val), date_only),
{
    match cell {
        RawCell::Int(i) => CellValue::Integer(*i),
        RawCell::Float(f) => process_float_value(f, format, def_val),
        RawCell::Bool(b) => CellValue::Bool(*b),
        RawCell::DateTime(d) => process_excel_datetime_value(d, format, def_val, date_only),
        RawCell::Text(s) => process_string_value(s.as_str(), format, def_val),
        RawCell::Other(s) => CellValue::Text(s.clone()),
        RawCell::Empty => default_or_null(def_val),
    }
}

/// The value of the cell at a position of a row, under the row options.
pub fn workbook_cell_to_value(cell: &RawCell, opts: &RowOptionSet, c_index: usize) -> (r: CellValue)
    ensures
        r@ == coerced_at(cell@, opts@, c_index as int),
{
    match opts.column(c_index) {
        Some(col) => {
            assert(opts@.columns[c_index as int] == col@);
            coerce_cell(cell, &col.format, &col.default, col.date_only || opts.date_only)
        },
        None => coerce_cell(cell, &Format::Auto, &None, opts.date_only),
    }
}

/// The values of a row of cells under the row options.
pub fn workbook_row_to_values(row: &[RawCell], opts: &RowOptionSet) -> (r: Vec<CellValue>)
    ensures
        values_view(r@) == coerced_row(cells_view(row@), opts@),
{
    let mut cells: Vec<CellValue> = Vec::new();
    let mut c_index: usize = 0;
    while c_index < row.len()
        invariant
            c_index <= row.len(),
            cells.len() == c_index,
            forall|j: int| 0 <= j < c_index ==> cells@[j]@ == coerced_at(row@[j]@, opts@, j),
        decreases row.len() - c_index,
    {
        cells.push(workbook_cell_to_value(&row[c_index], opts, c_index));
        c_index += 1;
    }
    assert(values_view(cells@) =~= coerced_row(cells_view(row@), opts@));
    cells
}

/// The record of the first `n` keys: each key with the value at its position
/// in the row; a key beyond the end of the row is left out.
pub open spec fn record_of_upto(
    row: Seq<CellValueView>,
    headers: Seq<Seq<char>>,
    n: nat,
) -> Seq<(Seq<char>, CellValueView)>
    decreases n,
{
    if n == 0 || n > headers.len() {
        Seq::<(Seq<char>, CellValueView)>::empty()
    } else {
        let earlier = record_of_upto(row, headers, (n - 1) as nat);
        if n - 1 < row.len() {
            entries_with(earlier, headers[n - 1], row[n - 1])
        } else {
            earlier
        }
    }
}

/// The record of a row: each key with the value at its position, in the
/// order of the keys.
pub open spec fn record_of(row: Seq<CellValueView>, headers: Seq<Seq<char>>) -> Seq<
    (Seq<char>, CellValueView),
> {
    record_of_upto(row, headers, headers.len())
}

/// Builds the record of a row: each key with the value at its position.
pub fn to_index_map(row: &[CellValue], headers: &[String]) -> (r: IndexMap<String, CellValue>)
    ensures
        record_entries(r) == record_of(values_view(row@), strings_view(headers@)),
{
    let mut hm = record_new();
    let ghost values = values_view(row@);
    let ghost keys = strings_view(headers@);
    let mut sub_index: usize = 0;
    while sub_index < headers.len()
        invariant
            sub_index <= headers.len(),
            values == values_view(row@),
            keys == strings_view(headers@),
            record_entries(hm) == record_of_upto(values, keys, sub_index as nat),
        decreases headers.len() - sub_index,
    {
        if sub_index < row.len() {
            assert(values[sub_index as int] == row@[sub_index as int]@);
            assert(keys[sub_index as int] == headers@[sub_index as int]@);
            record_insert(&mut hm, headers[sub_index].clone(), row[sub_index].duplicate());
        }
        sub_index += 1;
    }
    hm
}

/// The record of a row of cells under the row options and the keys.
pub fn workbook_row_to_map(row: &[RawCell], opts: &RowOptionSet, headers: &[String]) -> (r: IndexMap<
    String,
    CellValue,
>)
    ensures
        record_entries(r) == record_of(
            coerced_row(cells_view(row@), opts@),
            strings_view(headers@),
        ),
{
    let values = workbook_row_to_values(row, opts);
    to_index_map(values.as_slice(), headers)
}

/// The text in which the number of a delimited cell is looked for.
///
/// Where the comma is the decimal separator of the cell (see
/// [`euro_number_format`]), the dots, which then stand between thousands,
/// are left out and the commas are turned into dots. Where it is not, the
/// commas, which then stand between thousands, are left out.
pub open spec fn csv_number_text(cell: Seq<char>, decimal_comma: bool) -> Seq<char> {
    if euro_number_format(cell, decimal_comma) {
        replaced(without_char(cell, '.'), ',', '.')
    } else {
        without_char(cell, ',')
    }
}

/// The value of a delimited cell under a format.
///
/// A delimited cell is a text, and the rules for texts apply (see
/// [`coerced_text`]): under `Text` and `Auto` the cell passes as it is.
/// Under the formats that ask for a number the decimal separator of the
/// column is heeded: the number is the first one in the number text of the
/// cell (see [`csv_number_text`]), truncated under `Integer`, rounded under
/// `Decimal`, as it is under `Float`; a cell without a number, or whose
/// integer part does not fit in 64 bits, takes the fallback.
pub open spec fn coerced_csv_cell(
    cell: Seq<char>,
    format: FormatView,
    def_val: Option<CellValueView>,
    decimal_comma: bool,
) -> CellValueView {
    match format {
        FormatView::Integer => match first_number_of(csv_number_text(cell, decimal_comma)) {
            Some(d) => truncated_or_fallback(d, def_val),
            None => fallback(def_val),
        },
        FormatView::Decimal(places) => coerced_numeric_text(
            csv_number_text(cell, decimal_comma),
            Some(places),
            def_val,
        ),
        FormatView::Float => coerced_numeric_text(
            csv_number_text(cell, decimal_comma),
            None,
            def_val,
        ),
        other => coerced_text(cell, other, def_val),
    }
}

/// A delimited cell under `Format::Text` or `Format::Auto` is its text,
/// unchanged, whatever the default and the decimal separator: coercing
/// text again as text changes nothing.
pub proof fn lemma_delimited_text_is_identity(
    cell: Seq<char>,
    def_val: Option<CellValueView>,
    decimal_comma: bool,
)
    ensures
        coerced_csv_cell(cell, FormatView::Text, def_val, decimal_comma) == CellValueView::Text(
            cell,
        ),
        coerced_csv_cell(cell, FormatView::Auto, def_val, decimal_comma) == CellValueView::Text(
            cell,
        ),
{
}

/// Under every format that asks for no number, a delimited cell is coerced
/// as a text cell of a workbook is.
pub proof fn lemma_delimited_cell_is_text(
    cell: Seq<char>,
    format: FormatView,
    def_val: Option<CellValueView>,
    decimal_comma: bool,
)
    requires
        !(format is Integer),
        !(format is Decimal),
        !(format is Float),
    ensures
        coerced_csv_cell(cell, format, def_val, decimal_comma) == coerced_text(
            cell,
            format,
            def_val,
        ),
{
}

/// The values of a delimited row under the row options.
pub open spec fn coerced_csv_row(row: Seq<Seq<char>>, rows: RowOptionSetView) -> Seq<CellValueView> {
    Seq::new(
        row.len(),
        |i: int|
            coerced_csv_cell(
                row[i],
                format_at(rows, i),
                default_at(rows, i),
                decimal_comma_at(rows, i),
            ),
    )
}

/// The text in which the number of a delimited cell is looked for: see [`csv_number_text`].
pub fn csv_number_string(cell: &str, decimal_comma: bool) -> (r: String)
    ensures
        r@ == csv_number_text(cell@, decimal_comma),
{
    let chars = to_chars(cell);
    let num_cell = if is_euro_number_format(cell, decimal_comma) {
        replace_char(&remove_char(&chars, '.'), ',', '.')
    } else {
        remove_char(&chars, ',')
    };
    string_of_chars(&num_cell)
}

/// The value of a delimited cell under a format, given whether `,` is the
/// decimal separator of its column: see [`coerced_csv_cell`].
pub fn coerce_csv_cell(
    cell: &str,
    format: &Format,
    def_val: &Option<CellValue>,
    decimal_comma: bool,
) -> (r: CellValue)
    ensures
        r@ == coerced_csv_cell(cell@, format@, optional_view(*def_val), decimal_comma),
{
    match format {
        Format::Integer => {
            match first_number(csv_number_string(cell, decimal_comma).as_str()) {
                Some(n) => match n.truncate() {
                    Some(i) => CellValue::Integer(i),
                    None => default_or_null(def_val),
                },
                None => default_or_null(def_val),
            }
        },
        Format::Decimal(places) => process_numeric_value(
            csv_number_string(cell, decimal_comma).as_str(),
            def_val,
            Some(*places),
        ),
        Format::Float => process_numeric_value(
            csv_number_string(cell, decimal_comma).as_str(),
            def_val,
            None,
        ),
        _ => process_string_value(cell, format, def_val),
    }
}

/// The value of the delimited cell at a position of a row, under the row options.
pub fn csv_cell_to_json_value(cell: &str, opts: &RowOptionSet, index: usize) -> (r: CellValue)
    ensures
        r@ == coerced_csv_cell(
            cell@,
            format_at(opts@, index as int),
            default_at(opts@, index as int),
            decimal_comma_at(opts@, index as int),
        ),
{
    match opts.column(index) {
        Some(col) => {
            assert(opts@.columns[index as int] == col@);
            coerce_csv_cell(cell, &col.format, &col.default, col.decimal_comma)
        },
        None => coerce_csv_cell(cell, &Format::Auto, &None, opts.decimal_comma),
    }
}

/// The values of a delimited row under the row options.
pub fn csv_row_to_values(record: &[String], opts: &RowOptionSet) -> (r: Vec<CellValue>)
    ensures
        values_view(r@) == coerced_csv_row(strings_view(record@), opts@),
{
    let mut row: Vec<CellValue> = Vec::new();
    let mut ci: usize = 0;
    while ci < record.len()
        invariant
            ci <= record.len(),
            row.len() == ci,
            forall|j: int|
                0 <= j < ci ==> row@[j]@ == coerced_csv_cell(
                    record@[j]@,
                    format_at(opts@, j),
                    default_at(opts@, j),
                    decimal_comma_at(opts@, j),
                ),
        decreases record.len() - ci,
    {
        row.push(csv_cell_to_json_value(record[ci].as_str(), opts, ci));
        ci += 1;
    }
    assert(values_view(row@) =~= coerced_csv_row(strings_view(record@), opts@));
    row
}

/// A key that no entry has is looked for in vain.
pub proof fn lemma_key_position_absent(entries: Seq<(Seq<char>, CellValueView)>, key: Seq<char>)
    requires
        forall|i: int| 0 <= i < entries.len() ==> (#[trigger] entries[i]).0 != key,
    ensures
        crate::value::key_position(entries, key) == entries.len(),
    decreases entries.len(),
{
    if entries.len() > 0 {
        let rest = entries.drop_first();
        assert(entries[0].0 != key);
        assert forall|i: int| 0 <= i < rest.len() implies (#[trigger] rest[i]).0 != key by {
            assert(rest[i] == entries[i + 1]);
        }
        lemma_key_position_absent(rest, key);
    }
}

/// With keys that are all different and a value for each, the record of a
/// row holds exactly the pairs of key and value, in the order of the columns.
pub proof fn lemma_record_of_distinct_keys(row: Seq<CellValueView>, headers: Seq<Seq<char>>, n: nat)
    requires
        n <= headers.len(),
        n <= row.len(),
        forall|i: int, j: int| 0 <= i < j < headers.len() ==> headers[i] != headers[j],
    ensures
        record_of_upto(row, headers, n) == Seq::new(n, |i: int| (headers[i], row[i])),
    decreases n,
{
    if n == 0 {
        assert(record_of_upto(row, headers, 0) =~= Seq::new(0nat, |i: int| (headers[i], row[i])));
    } else {
        lemma_record_of_distinct_keys(row, headers, (n - 1) as nat);
        let earlier = record_of_upto(row, headers, (n - 1) as nat);
        assert forall|i: int| 0 <= i < earlier.len() implies (#[trigger] earlier[i]).0
            != headers[n - 1] by {
            assert(earlier[i].0 == headers[i]);
        }
        lemma_key_position_absent(earlier, headers[n - 1]);
        assert(entries_with(earlier, headers[n - 1], row[n - 1]) =~= Seq::new(
            n,
            |i: int| (headers[i], row[i]),
        ));
    }
}

/// A record never has more entries than there are keys, nor more than there are values.
pub proof fn lemma_record_of_len(row: Seq<CellValueView>, headers: Seq<Seq<char>>, n: nat)
    requires
        n <= headers.len(),
    ensures
        record_of_upto(row, headers, n).len() <= n,
        record_of_upto(row, headers, n).len() <= row.len(),
    decreases n,
{
    if n > 0 {
        lemma_record_of_len(row, headers, (n - 1) as nat);
    }
}

} // verus!
