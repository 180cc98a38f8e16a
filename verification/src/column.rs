//! The options of one column and of a row of columns.

use vstd::prelude::*;
use vstd::string::*;
use indexmap::IndexMap;
use crate::format::{format_name, format_of_key, Format, FormatView};
use crate::text::{push_text, string_of_chars};
use crate::value::{entry_value, optional_view, record_entries, record_get, value_text, CellValue,
    CellValueView};

verus! {

/// What is declared of one column: its key, the type of its values, the
/// value that stands in for a cell that cannot be read, and two locale flags.
#[derive(Debug)]
pub struct Column {
    /// The key of the column; `None` to derive it from the header or the position.
    pub key: Option<String>,
    /// The type of the values.
    pub format: Format,
    /// The value for a cell that is empty or cannot be read.
    pub default: Option<CellValue>,
    /// Whether dates are written without their time.
    pub date_only: bool,
    /// Whether `,` is the decimal separator.
    pub decimal_comma: bool,
}

/// The mathematical content of a [`Column`].
pub struct ColumnView {
    pub key: Option<Seq<char>>,
    pub format: FormatView,
    pub default: Option<CellValueView>,
    pub date_only: bool,
    pub decimal_comma: bool,
}

/// The content of an optional string.
pub open spec fn optional_text(s: Option<String>) -> Option<Seq<char>> {
    match s {
        Some(t) => Some(t@),
        None => None,
    }
}

impl View for Column {
    type V = ColumnView;

    open spec fn view(&self) -> ColumnView {
        ColumnView {
            key: optional_text(self.key),
            format: self.format@,
            default: optional_view(self.default),
            date_only: self.date_only,
            decimal_comma: self.decimal_comma,
        }
    }
}

/// The contents of a list of columns.
pub open spec fn columns_view(cols: Seq<Column>) -> Seq<ColumnView> {
    Seq::new(cols.len(), |i: int| cols[i]@)
}

/// The text of a configuration entry: the text itself, empty for any other value.
pub open spec fn text_or_empty(v: CellValueView) -> Seq<char> {
    match v {
        CellValueView::Text(s) => s,
        _ => Seq::<char>::empty(),
    }
}

/// The flag of a configuration entry: the boolean itself, `false` for any other value.
pub open spec fn flag_or_false(v: Option<CellValueView>) -> bool {
    match v {
        Some(CellValueView::Bool(b)) => b,
        _ => false,
    }
}

/// The column that a configuration object describes.
///
/// - `key`: the key of the column (empty if the entry is no text); without
///   the entry the column has no key.
/// - `format`: a key of the format grammar; `Auto` without the entry or if it is no text.
/// - `default`: a text, number or boolean; anything else counts as no default.
/// - `date_only`: a boolean.
/// - `decimal_comma` or, without it, `euro_number_format`: a boolean.
pub open spec fn column_of_config(entries: Seq<(Seq<char>, CellValueView)>) -> ColumnView {
    ColumnView {
        key: match entry_value(entries, "key"@) {
            Some(v) => Some(text_or_empty(v)),
            None => None,
        },
        format: match entry_value(entries, "format"@) {
            Some(CellValueView::Text(s)) => format_of_key(s),
            _ => FormatView::Auto,
        },
        default: match entry_value(entries, "default"@) {
            Some(CellValueView::Null) => None,
            other => other,
        },
        date_only: flag_or_false(entry_value(entries, "date_only"@)),
        decimal_comma: match entry_value(entries, "decimal_comma"@) {
            Some(v) => flag_or_false(Some(v)),
            None => flag_or_false(entry_value(entries, "euro_number_format"@)),
        },
    }
}

/// The line that describes a column.
pub open spec fn column_line(c: ColumnView) -> Seq<char> {
    "\tkey "@ + (match c.key {
        Some(k) => k,
        None => Seq::<char>::empty(),
    }) + ", format "@ + format_name(c.format) + (match c.default {
        Some(v) => "default: "@ + value_text(v),
        None => Seq::<char>::empty(),
    }) + (if c.date_only {
        ", date only"@
    } else {
        Seq::<char>::empty()
    }) + (if c.decimal_comma {
        ", decimal comma"@
    } else {
        Seq::<char>::empty()
    })
}

/// The flag of a configuration entry.
fn flag_of(v: &Option<CellValue>) -> (r: bool)
    ensures
        r == flag_or_false(optional_view(*v)),
{
    match v {
        Some(CellValue::Bool(b)) => *b,
        _ => false,
    }
}

impl Column {
    /// A column with a key, or without one, and nothing else declared.
    pub fn new(key_opt: Option<&str>) -> (r: Self)
        ensures
            r@ == (ColumnView {
                key: match key_opt {
                    Some(k) => Some(k@),
                    None => None,
                },
                format: FormatView::Auto,
                default: None,
                date_only: false,
                decimal_comma: false,
            }),
    {
        Self::from_key_ref_with_format(key_opt, Format::Auto, None, false, false)
    }

    /// A column without key, with a type for its values and, optionally, a default.
    pub fn new_format(fmt: Format, default: Option<CellValue>) -> (r: Self)
        ensures
            r@ == (ColumnView {
                key: None,
                format: fmt@,
                default: optional_view(default),
                date_only: false,
                decimal_comma: false,
            }),
    {
        Self::from_key_ref_with_format(None, fmt, default, false, false)
    }

    /// The column that a configuration object describes: see [`column_of_config`].
    pub fn from_json(json: &IndexMap<String, CellValue>) -> (r: Self)
        ensures
            r@ == column_of_config(record_entries(*json)),
    {
        let key: Option<String> = match record_get(json, "key") {
            Some(CellValue::Text(s)) => Some(s),
            Some(_) => Some(String::new()),
            None => None,
        };
        let format = match record_get(json, "format") {
            Some(CellValue::Text(s)) => Format::from_key(s.as_str()),
            _ => Format::Auto,
        };
        let default = match record_get(json, "default") {
            Some(CellValue::Null) => None,
            other => other,
        };
        let date_only = flag_of(&record_get(json, "date_only"));
        let first = record_get(json, "decimal_comma");
        let decimal_comma = if first.is_some() {
            flag_of(&first)
        } else {
            flag_of(&record_get(json, "euro_number_format"))
        };
        Column { key, format, default, date_only, decimal_comma }
    }

    /// The column with another type for its values.
    pub fn set_format(self, fmt: Format) -> (r: Self)
        ensures
            r@ == (ColumnView { format: fmt@, ..self@ }),
    {
        Column {
            key: self.key,
            format: fmt,
            default: self.default,
            date_only: self.date_only,
            decimal_comma: self.decimal_comma,
        }
    }

    /// The column with a default.
    pub fn set_default(self, val: CellValue) -> (r: Self)
        ensures
            r@ == (ColumnView { default: Some(val@), ..self@ }),
    {
        Column {
            key: self.key,
            format: self.format,
            default: Some(val),
            date_only: self.date_only,
            decimal_comma: self.decimal_comma,
        }
    }

    /// The column with its date flag set or cleared.
    pub fn set_date_only(self, val: bool) -> (r: Self)
        ensures
            r@ == (ColumnView { date_only: val, ..self@ }),
    {
        Column {
            key: self.key,
            format: self.format,
            default: self.default,
            date_only: val,
            decimal_comma: self.decimal_comma,
        }
    }

    /// The column with its decimal-comma flag set or cleared.
    pub fn set_decimal_comma(self, val: bool) -> (r: Self)
        ensures
            r@ == (ColumnView { decimal_comma: val, ..self@ }),
    {
        Column {
            key: self.key,
            format: self.format,
            default: self.default,
            date_only: self.date_only,
            decimal_comma: val,
        }
    }

    /// A column from all its parts.
    pub fn from_key_ref_with_format(
        key_opt: Option<&str>,
        format: Format,
        default: Option<CellValue>,
        date_only: bool,
        decimal_comma: bool,
    ) -> (r: Self)
        ensures
            r@ == (ColumnView {
                key: match key_opt {
                    Some(k) => Some(k@),
                    None => None,
                },
                format: format@,
                default: optional_view(default),
                date_only,
                decimal_comma,
            }),
    {
        let key = match key_opt {
            Some(k) => Some(k.to_string()),
            None => None,
        };
        Column { key, format, default, date_only, decimal_comma }
    }

    /// The key of the column; empty if it has none.
    pub fn key_name(&self) -> (r: String)
        ensures
            r@ == (match self@.key {
                Some(k) => k,
                None => Seq::<char>::empty(),
            }),
    {
        match &self.key {
            Some(k) => k.clone(),
            None => String::new(),
        }
    }

    /// The line that describes the column: see [`column_line`].
    pub fn to_line(&self) -> (r: String)
        ensures
            r@ == column_line(self@),
    {
        let mut out: Vec<char> = Vec::new();
        push_text(&mut out, "\tkey ");
        push_text(&mut out, self.key_name().as_str());
        push_text(&mut out, ", format ");
        push_text(&mut out, self.format.to_string().as_str());
        if let Some(v) = &self.default {
            push_text(&mut out, "default: ");
            push_text(&mut out, v.to_json_text().as_str());
        }
        if self.date_only {
            push_text(&mut out, ", date only");
        }
        if self.decimal_comma {
            push_text(&mut out, ", decimal comma");
        }
        assert(out@ =~= column_line(self@));
        string_of_chars(&out)
    }

    /// A copy of the column.
    pub fn duplicate(&self) -> (r: Self)
        ensures
            r@ == self@,
    {
        Column {
            key: match &self.key {
                Some(k) => Some(k.clone()),
                None => None,
            },
            format: self.format.duplicate(),
            default: match &self.default {
                Some(v) => Some(v.duplicate()),
                None => None,
            },
            date_only: self.date_only,
            decimal_comma: self.decimal_comma,
        }
    }
}

impl Clone for Column {
    fn clone(&self) -> (r: Self)
        ensures
            r@ == self@,
    {
        self.duplicate()
    }
}

/// A copy of a list of columns.
pub fn clone_columns(cols: &[Column]) -> (r: Vec<Column>)
    ensures
        columns_view(r@) == columns_view(cols@),
{
    let mut r: Vec<Column> = Vec::new();
    let mut i: usize = 0;
    while i < cols.len()
        invariant
            i <= cols.len(),
            r.len() == i,
            forall|j: int| 0 <= j < i ==> r@[j]@ == cols@[j]@,
        decreases cols.len() - i,
    {
        r.push(cols[i].duplicate());
        i += 1;
    }
    assert(columns_view(r@) =~= columns_view(cols@));
    r
}

/// The options of a row: its columns, by position, and the locale flags for
/// the columns that declare none.
#[derive(Debug)]
pub struct RowOptionSet {
    /// The declared columns, by position.
    pub columns: Vec<Column>,
    /// Whether `,` is the decimal separator.
    pub decimal_comma: bool,
    /// Whether dates are written without their time.
    pub date_only: bool,
}

/// The mathematical content of a [`RowOptionSet`].
pub struct RowOptionSetView {
    pub columns: Seq<ColumnView>,
    pub decimal_comma: bool,
    pub date_only: bool,
}

impl View for RowOptionSet {
    type V = RowOptionSetView;

    open spec fn view(&self) -> RowOptionSetView {
        RowOptionSetView {
            columns: columns_view(self.columns@),
            decimal_comma: self.decimal_comma,
            date_only: self.date_only,
        }
    }
}

impl Default for RowOptionSet {
    fn default() -> (r: Self)
        ensures
            r@ == (RowOptionSetView {
                columns: Seq::<ColumnView>::empty(),
                decimal_comma: false,
                date_only: false,
            }),
    {
        let r = RowOptionSet { columns: Vec::new(), decimal_comma: false, date_only: false };
        assert(r@.columns =~= Seq::<ColumnView>::empty());
        r
    }
}

impl RowOptionSet {
    /// Row options with the given columns and both flags cleared.
    pub fn simple(cols: &[Column]) -> (r: Self)
        ensures
            r@ == (RowOptionSetView {
                columns: columns_view(cols@),
                decimal_comma: false,
                date_only: false,
            }),
    {
        RowOptionSet { decimal_comma: false, date_only: false, columns: clone_columns(cols) }
    }

    /// Row options from all their parts.
    pub fn new(cols: &[Column], decimal_comma: bool, date_only: bool) -> (r: Self)
        ensures
            r@ == (RowOptionSetView { columns: columns_view(cols@), decimal_comma, date_only }),
    {
        RowOptionSet { decimal_comma, date_only, columns: clone_columns(cols) }
    }

    /// The column declared at a position, if one is.
    pub fn column(&self, index: usize) -> (r: Option<&Column>)
        ensures
            match r {
                Some(c) => index < self.columns@.len() && *c == self.columns@[index as int],
                None => index >= self.columns@.len(),
            },
    {
        if index < self.columns.len() {
            Some(&self.columns[index])
        } else {
            None
        }
    }

    /// How dates are written: `date only` or `date/time`.
    pub fn date_mode(&self) -> (r: String)
        ensures
            r@ == (if self.date_only {
                "date only"@
            } else {
                "date/time"@
            }),
    {
        if self.date_only {
            "date only".to_string()
        } else {
            "date/time".to_string()
        }
    }

    /// The decimal separator: `,` or `.`.
    pub fn decimal_separator(&self) -> (r: String)
        ensures
            r@ == (if self.decimal_comma {
                ","@
            } else {
                "."@
            }),
    {
        if self.decimal_comma {
            ",".to_string()
        } else {
            ".".to_string()
        }
    }

    /// A copy of the row options.
    pub fn duplicate(&self) -> (r: Self)
        ensures
            r@ == self@,
    {
        RowOptionSet {
            columns: clone_columns(self.columns.as_slice()),
            decimal_comma: self.decimal_comma,
            date_only: self.date_only,
        }
    }
}

impl Clone for RowOptionSet {
    fn clone(&self) -> (r: Self)
        ensures
            r@ == self@,
    {
        self.duplicate()
    }
}

} // verus!
