//! The options of a read as they come from a command line.

use vstd::prelude::*;
use vstd::string::*;
use crate::column::{columns_view, Column, ColumnView, RowOptionSet, RowOptionSetView};
use crate::decimal::{decimal_of_text, Decimal};
use crate::format::{format_of_key, Format, FormatView};
use crate::is_truthy::{is_truthy_core, truthy_core};
use crate::modes::{FieldNameMode, ReadMode};
use crate::options::{keyed_column, OptionSet, OptionSetView};
use crate::text::{segments_of, snake_case_of, split_segments, string_of_chars, texts_of,
    to_chars, to_snake_case};
use crate::value::{CellValue, CellValueView};

verus! {

/// The arguments of the command line.
#[derive(Debug)]
pub struct Args {
    /// The name of the sheet to read.
    pub sheet: Option<String>,
    /// The position of the sheet to read.
    pub index: u32,
    /// The path of the source file.
    pub path: Option<String>,
    /// Whether `,` is the decimal separator.
    pub euro_number_format: bool,
    /// Whether dates are written without their time.
    pub date_only: bool,
    /// The columns: entries of the form `key`, `key:format` or
    /// `key:format:default`, separated by commas.
    pub keys: Option<String>,
    /// The greatest number of rows to keep.
    pub max: Option<u32>,
    /// The position of the header row.
    pub header_row: u8,
    /// Whether the source has no header row.
    pub omit_header: bool,
    /// Whether only the options are shown, without the rows.
    pub exclude_cells: bool,
    /// Whether the rows are written as JSON lines.
    pub jsonl: bool,
    /// Whether failures are traced.
    pub debug: bool,
}

/// Options that can be built from the arguments of the command line.
pub trait FromArgs: Sized {
    /// The options that the arguments describe.
    fn from_args(args: &Args) -> Self;
}

/// The whole number that a text denotes, if it denotes one that fits in 64 bits.
pub open spec fn integer_of_text(s: Seq<char>) -> Option<i64> {
    match decimal_of_text(s) {
        Some(d) => if d.fraction.len() == 0 && i64::MIN <= d.truncated() <= i64::MAX {
            Some(d.truncated() as i64)
        } else {
            None
        },
        None => None,
    }
}

/// The default that an entry declares for a format: a whole number under
/// `Integer`, a boolean by the strict rules under `Boolean` (in both cases
/// none if the text is not one), and the text itself under any other format.
pub open spec fn default_of_entry(format: FormatView, text: Seq<char>) -> Option<CellValueView> {
    match format {
        FormatView::Integer => match integer_of_text(text) {
            Some(i) => Some(CellValueView::Integer(i)),
            None => None,
        },
        FormatView::Boolean => match truthy_core(text, false) {
            Some(b) => Some(CellValueView::Bool(b)),
            None => None,
        },
        _ => Some(CellValueView::Text(text)),
    }
}

/// The column that an entry of the key list describes.
///
/// The entry is cut at colons into non-empty parts. With fewer than two
/// parts the whole entry, in snake case, is the key. Otherwise the first
/// part, in snake case, is the key, the second names the format and the
/// third, if there is one, gives the default.
pub open spec fn column_of_entry(entry: Seq<char>) -> ColumnView {
    let parts = segments_of(entry, ':');
    if parts.len() < 2 {
        keyed_column(snake_case_of(entry))
    } else {
        ColumnView {
            key: Some(snake_case_of(parts[0])),
            format: format_of_key(parts[1]),
            default: if parts.len() > 2 {
                default_of_entry(format_of_key(parts[1]), parts[2])
            } else {
                None
            },
            date_only: false,
            decimal_comma: false,
        }
    }
}

/// The columns that a key list describes: one for each non-empty entry between commas.
pub open spec fn columns_of_keys(keys: Seq<char>) -> Seq<ColumnView> {
    let entries = segments_of(keys, ',');
    Seq::new(entries.len(), |i: int| column_of_entry(entries[i]))
}

/// The mathematical content of the arguments, as far as the options depend on them.
pub open spec fn options_of_args(args: Args) -> OptionSetView {
    OptionSetView {
        selected: match args.sheet {
            Some(name) => Some(seq![name@]),
            None => None,
        },
        indices: seq![args.index],
        path: match args.path {
            Some(p) => Some(p@),
            None => None,
        },
        rows: RowOptionSetView {
            columns: match args.keys {
                Some(k) => columns_of_keys(k@),
                None => Seq::empty(),
            },
            decimal_comma: args.euro_number_format,
            date_only: args.date_only,
        },
        jsonl: args.jsonl,
        max: args.max,
        omit_header: args.omit_header,
        header_row: args.header_row,
        read_mode: ReadMode::Sync,
        field_mode: FieldNameMode::AutoA1,
    }
}

/// The whole number that a text denotes.
pub fn parse_integer(text: &str) -> (r: Option<i64>)
    ensures
        r == integer_of_text(text@),
{
    match Decimal::parse(text) {
        Some(d) => if d.is_whole() {
            d.truncate()
        } else {
            None
        },
        None => None,
    }
}

/// The default that an entry declares for a format: see [`default_of_entry`].
pub fn entry_default(format: &Format, text: &str) -> (r: Option<CellValue>)
    ensures
        crate::value::optional_view(r) == default_of_entry(format@, text@),
{
    match format {
        Format::Integer => match parse_integer(text) {
            Some(i) => Some(CellValue::Integer(i)),
            None => None,
        },
        Format::Boolean => match is_truthy_core(text, false) {
            Some(is_true) => Some(CellValue::Bool(is_true)),
            None => None,
        },
        _ => Some(CellValue::Text(text.to_string())),
    }
}

/// The column that an entry of the key list describes: see [`column_of_entry`].
pub fn column_from_entry(entry: &Vec<char>) -> (r: Column)
    ensures
        r@ == column_of_entry(entry@),
{
    let sub_parts = split_segments(entry, ':');
    if sub_parts.len() < 2 {
        let key = to_snake_case(string_of_chars(entry).as_str());
        Column::new(Some(key.as_str()))
    } else {
        assert(texts_of(sub_parts@)[0] == sub_parts@[0]@);
        assert(texts_of(sub_parts@)[1] == sub_parts@[1]@);
        let key = to_snake_case(string_of_chars(&sub_parts[0]).as_str());
        let fmt = Format::from_key(string_of_chars(&sub_parts[1]).as_str());
        let default_val = if sub_parts.len() > 2 {
            assert(texts_of(sub_parts@)[2] == sub_parts@[2]@);
            entry_default(&fmt, string_of_chars(&sub_parts[2]).as_str())
        } else {
            None
        };
        Column::from_key_ref_with_format(Some(key.as_str()), fmt, default_val, false, false)
    }
}

/// The columns that a key list describes: see [`columns_of_keys`].
pub fn columns_from_keys(keys: &str) -> (r: Vec<Column>)
    ensures
        columns_view(r@) == columns_of_keys(keys@),
{
    let entries = split_segments(&to_chars(keys), ',');
    let mut columns: Vec<Column> = Vec::new();
    let mut i: usize = 0;
    while i < entries.len()
        invariant
            i <= entries.len(),
            texts_of(entries@) == segments_of(keys@, ','),
            columns.len() == i,
            forall|j: int| 0 <= j < i ==> columns@[j]@ == column_of_entry(entries@[j]@),
        decreases entries.len() - i,
    {
        columns.push(column_from_entry(&entries[i]));
        i += 1;
    }
    assert(columns_view(columns@) =~= columns_of_keys(keys@)) by {
        assert forall|j: int| 0 <= j < entries@.len() implies columns_view(columns@)[j]
            == column_of_entry(segments_of(keys@, ',')[j]) by {
            assert(texts_of(entries@)[j] == entries@[j]@);
        }
    }
    columns
}

impl FromArgs for OptionSet {
    /// The options that the arguments describe: one sheet, by the name and
    /// position given, read in one pass; the columns are those of the key list.
    fn from_args(args: &Args) -> (r: Self)
        ensures
            r@ == options_of_args(*args),
    {
        let columns = match &args.keys {
            Some(k_string) => columns_from_keys(k_string.as_str()),
            None => {
                let none: Vec<Column> = Vec::new();
                assert(columns_view(none@) =~= Seq::<ColumnView>::empty());
                none
            },
        };
        let selected = match &args.sheet {
            Some(name) => {
                let mut names: Vec<String> = Vec::new();
                names.push(name.clone());
                assert(crate::text::strings_view(names@) =~= seq![name@]);
                Some(names)
            },
            None => None,
        };
        let mut indices: Vec<u32> = Vec::new();
        indices.push(args.index);
        assert(indices@ =~= seq![args.index]);
        OptionSet {
            selected,
            indices,
            path: match &args.path {
                Some(p) => Some(p.clone()),
                None => None,
            },
            rows: RowOptionSet {
                columns,
                decimal_comma: args.euro_number_format,
                date_only: args.date_only,
            },
            jsonl: args.jsonl,
            max: args.max,
            omit_header: args.omit_header,
            header_row: args.header_row,
            read_mode: ReadMode::Sync,
            field_mode: FieldNameMode::AutoA1,
        }
    }
}

} // verus!
