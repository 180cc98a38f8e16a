//! The options of one read: what to read, how far, and how to name and type the columns.

use vstd::prelude::*;
use vstd::string::*;
use indexmap::IndexMap;
use crate::column::{clone_columns, column_line, column_of_config, columns_view, optional_text,
    Column, ColumnView, RowOptionSet, RowOptionSetView};
use crate::format::FormatView;
use crate::modes::{FieldNameMode, ReadMode};
use crate::numerals::{decimal_chars, decimal_digits};
use crate::path_data::path_file_name;
use crate::text::{alphanumeric_only, append_lines, clone_strings, concat_text, join_texts, joined, lowercase_of,
    push_line, snake_case_of, string_of_chars, strings_view, to_snake_case};
use crate::value::{record_entries, CellValue};

verus! {

/// The number of rows read from a single sheet where no maximum is set.
pub const DEFAULT_MAX_ROWS: usize = 10_000;

/// The number of rows read from each sheet of a preview where no maximum is set.
pub const DEFAULT_MAX_ROWS_PREVIEW: usize = 1000;

/// The options of one read.
#[derive(Debug)]
pub struct OptionSet {
    /// The names of the sheets to read; a name that matches no sheet gives way to the indices.
    pub selected: Option<Vec<String>>,
    /// The positions of the sheets to read.
    pub indices: Vec<u32>,
    /// The path of the source file; without one nothing is read.
    pub path: Option<String>,
    /// The options of a row.
    pub rows: RowOptionSet,
    /// Whether the rows are written as JSON lines.
    pub jsonl: bool,
    /// The greatest number of rows to keep.
    pub max: Option<u32>,
    /// Whether the source has no header row.
    pub omit_header: bool,
    /// The position of the header row.
    pub header_row: u8,
    /// How the source is read.
    pub read_mode: ReadMode,
    /// How the columns are named.
    pub field_mode: FieldNameMode,
}

/// The mathematical content of an [`OptionSet`].
pub struct OptionSetView {
    pub selected: Option<Seq<Seq<char>>>,
    pub indices: Seq<u32>,
    pub path: Option<Seq<char>>,
    pub rows: RowOptionSetView,
    pub jsonl: bool,
    pub max: Option<u32>,
    pub omit_header: bool,
    pub header_row: u8,
    pub read_mode: ReadMode,
    pub field_mode: FieldNameMode,
}

/// The content of an optional list of strings.
pub open spec fn optional_texts(v: Option<Vec<String>>) -> Option<Seq<Seq<char>>> {
    match v {
        Some(names) => Some(strings_view(names@)),
        None => None,
    }
}

impl View for OptionSet {
    type V = OptionSetView;

    open spec fn view(&self) -> OptionSetView {
        OptionSetView {
            selected: optional_texts(self.selected),
            indices: self.indices@,
            path: optional_text(self.path),
            rows: self.rows@,
            jsonl: self.jsonl,
            max: self.max,
            omit_header: self.omit_header,
            header_row: self.header_row,
            read_mode: self.read_mode,
            field_mode: self.field_mode,
        }
    }
}

/// The options that a new set starts with, but for the path.
pub open spec fn initial_options(path: Option<Seq<char>>, indices: Seq<u32>) -> OptionSetView {
    OptionSetView {
        selected: None,
        indices,
        path,
        rows: RowOptionSetView {
            columns: Seq::<ColumnView>::empty(),
            decimal_comma: false,
            date_only: false,
        },
        jsonl: false,
        max: None,
        omit_header: false,
        header_row: 0,
        read_mode: ReadMode::Sync,
        field_mode: FieldNameMode::AutoA1,
    }
}

/// A column that has a key and nothing else declared.
pub open spec fn keyed_column(key: Seq<char>) -> ColumnView {
    ColumnView {
        key: Some(key),
        format: FormatView::Auto,
        default: None,
        date_only: false,
        decimal_comma: false,
    }
}

/// Row options with the given columns and both flags cleared.
pub open spec fn simple_rows(columns: Seq<ColumnView>) -> RowOptionSetView {
    RowOptionSetView { columns, decimal_comma: false, date_only: false }
}

/// The numerals of a list of numbers.
pub open spec fn numerals_of(indices: Seq<u32>) -> Seq<Seq<char>> {
    Seq::new(indices.len(), |i: int| decimal_digits(indices[i] as nat))
}

/// How the rows are written.
pub open spec fn row_mode_name(o: OptionSetView) -> Seq<char> {
    if o.jsonl {
        "JSON lines"@
    } else {
        "JSON"@
    }
}

/// What happens to the header row.
pub open spec fn header_mode_name(o: OptionSetView) -> Seq<char> {
    if o.omit_header {
        "ignore"@
    } else {
        "capture"@
    }
}

/// The lines that name the sheets to read.
pub open spec fn sheet_lines(o: OptionSetView) -> Seq<Seq<char>> {
    match o.selected {
        Some(names) => seq![
            "sheet name"@ + (if names.len() > 1 {
                "s"@
            } else {
                ""@
            }) + ": "@ + joined(names, ","@),
        ],
        None => if o.indices.len() > 0 {
            seq!["sheet indices: "@ + joined(numerals_of(o.indices), ", "@)]
        } else {
            Seq::<Seq<char>>::empty()
        },
    }
}

/// The line that names the file, if it has a name.
pub open spec fn file_lines(file_name: Option<Seq<char>>) -> Seq<Seq<char>> {
    match file_name {
        Some(f) => seq!["file name: "@ + f],
        None => Seq::<Seq<char>>::empty(),
    }
}

/// The line that gives the maximum, if one above zero is set.
pub open spec fn max_lines(o: OptionSetView) -> Seq<Seq<char>> {
    match o.max {
        Some(m) => if m > 0 {
            seq!["max rows: "@ + decimal_digits(m as nat)]
        } else {
            Seq::<Seq<char>>::empty()
        },
        None => Seq::<Seq<char>>::empty(),
    }
}

/// The six lines that every description holds.
pub open spec fn fixed_lines(o: OptionSetView) -> Seq<Seq<char>> {
    seq![
        "mode: "@ + row_mode_name(o),
        "headers: "@ + header_mode_name(o),
        "header row: "@ + decimal_digits(o.header_row as nat),
        "decimal separator: "@ + (if o.rows.decimal_comma {
            ","@
        } else {
            "."@
        }),
        "date mode: "@ + (if o.rows.date_only {
            "date only"@
        } else {
            "date/time"@
        }),
        "column style: "@ + o.field_mode.name(),
    ]
}

/// The lines that describe the declared columns, under a heading; none without columns.
pub open spec fn column_lines(o: OptionSetView) -> Seq<Seq<char>> {
    if o.rows.columns.len() > 0 {
        seq!["columns:"@] + Seq::new(o.rows.columns.len(), |i: int| column_line(o.rows.columns[i]))
    } else {
        Seq::<Seq<char>>::empty()
    }
}

/// The description of the options, line by line, given the name of the file.
pub open spec fn option_lines(o: OptionSetView, file_name: Option<Seq<char>>) -> Seq<Seq<char>> {
    sheet_lines(o) + file_lines(file_name) + max_lines(o) + fixed_lines(o) + column_lines(o)
}

/// The greatest number of rows kept: the maximum set or, without one, 1000
/// for a preview and 10000 otherwise.
pub open spec fn max_rows_of(o: OptionSetView) -> nat {
    match o.max {
        Some(m) => m as nat,
        None => if o.read_mode == ReadMode::PreviewMultiple {
            1000
        } else {
            10000
        },
    }
}

/// A copy of a list of numbers.
fn clone_indices(v: &[u32]) -> (r: Vec<u32>)
    ensures
        r@ == v@,
{
    let mut r: Vec<u32> = Vec::new();
    let mut i: usize = 0;
    while i < v.len()
        invariant
            i <= v.len(),
            r@ =~= v@.take(i as int),
        decreases v.len() - i,
    {
        r.push(v[i]);
        i += 1;
    }
    assert(v@.take(v.len() as int) =~= v@);
    r
}

impl Default for OptionSet {
    fn default() -> (r: Self)
        ensures
            r@ == initial_options(None, Seq::<u32>::empty()),
    {
        let r = OptionSet {
            selected: None,
            indices: Vec::new(),
            path: None,
            rows: RowOptionSet::default(),
            jsonl: false,
            max: None,
            omit_header: false,
            header_row: 0,
            read_mode: ReadMode::Sync,
            field_mode: FieldNameMode::AutoA1,
        };
        assert(r@.indices =~= Seq::<u32>::empty());
        r
    }
}

impl OptionSet {
    /// Options for the file at a path: its first sheet, read in one pass, with
    /// headers kept and columns named by letters where they have none.
    pub fn new(path_str: &str) -> (r: Self)
        ensures
            r@ == initial_options(Some(path_str@), seq![0u32]),
    {
        let mut indices: Vec<u32> = Vec::new();
        indices.push(0);
        let r = OptionSet {
            selected: None,
            indices,
            path: Some(path_str.to_string()),
            rows: RowOptionSet::default(),
            jsonl: false,
            max: None,
            omit_header: false,
            header_row: 0,
            read_mode: ReadMode::Sync,
            field_mode: FieldNameMode::AutoA1,
        };
        assert(r@.indices =~= seq![0u32]);
        r
    }

    /// Selects one sheet by name.
    pub fn sheet_name(self, name: &str) -> (r: Self)
        ensures
            r@ == (OptionSetView { selected: Some(seq![name@]), ..self@ }),
    {
        let mut this = self;
        let mut names: Vec<String> = Vec::new();
        names.push(name.to_string());
        assert(strings_view(names@) =~= seq![name@]);
        this.selected = Some(names);
        this
    }

    /// Selects sheets by name.
    pub fn sheet_names(self, names: &[String]) -> (r: Self)
        ensures
            r@ == (OptionSetView { selected: Some(strings_view(names@)), ..self@ }),
    {
        let mut this = self;
        this.selected = Some(clone_strings(names));
        this
    }

    /// Selects one sheet by position.
    pub fn sheet_index(self, index: u32) -> (r: Self)
        ensures
            r@ == (OptionSetView { indices: seq![index], ..self@ }),
    {
        let mut this = self;
        let mut indices: Vec<u32> = Vec::new();
        indices.push(index);
        assert(indices@ =~= seq![index]);
        this.indices = indices;
        this
    }

    /// Selects sheets by position.
    pub fn sheet_indices(self, indices: &[u32]) -> (r: Self)
        ensures
            r@ == (OptionSetView { indices: indices@, ..self@ }),
    {
        let mut this = self;
        this.indices = clone_indices(indices);
        this
    }

    /// Has the rows written as JSON lines.
    pub fn json_lines(self) -> (r: Self)
        ensures
            r@ == (OptionSetView { jsonl: true, ..self@ }),
    {
        let mut this = self;
        this.jsonl = true;
        this
    }

    /// Has the rows written as JSON lines, or not.
    pub fn set_json_lines(self, mode: bool) -> (r: Self)
        ensures
            r@ == (OptionSetView { jsonl: mode, ..self@ }),
    {
        let mut this = self;
        this.jsonl = mode;
        this
    }

    /// Declares that the source has no header row.
    pub fn omit_header(self) -> (r: Self)
        ensures
            r@ == (OptionSetView { omit_header: true, ..self@ }),
    {
        let mut this = self;
        this.omit_header = true;
        this
    }

    /// Sets the position of the header row.
    pub fn header_row(self, row: u8) -> (r: Self)
        ensures
            r@ == (OptionSetView { header_row: row, ..self@ }),
    {
        let mut this = self;
        this.header_row = row;
        this
    }

    /// Sets the greatest number of rows to keep.
    pub fn max_row_count(self, max: u32) -> (r: Self)
        ensures
            r@ == (OptionSetView { max: Some(max), ..self@ }),
    {
        let mut this = self;
        this.max = Some(max);
        this
    }

    /// Has one sheet read with its rows handed on one by one.
    pub fn read_mode_async(self) -> (r: Self)
        ensures
            r@ == (OptionSetView { read_mode: ReadMode::Async, ..self@ }),
    {
        let mut this = self;
        this.read_mode = ReadMode::Async;
        this
    }

    /// Has every sheet read, with a bounded number of rows of each.
    pub fn read_mode_preview(self) -> (r: Self)
        ensures
            r@ == (OptionSetView { read_mode: ReadMode::PreviewMultiple, ..self@ }),
    {
        let mut this = self;
        this.read_mode = ReadMode::PreviewMultiple;
        this
    }

    /// Sets the read mode by a key such as `async`, `preview` or `sync`; a
    /// key that names no mode selects `Sync`.
    pub fn set_read_mode(self, key: &str) -> (r: Self)
        ensures
            r@ == (OptionSetView {
                read_mode: crate::modes::read_mode_of(alphanumeric_only(lowercase_of(key@))),
                ..self@
            }),
    {
        let mut this = self;
        this.read_mode = ReadMode::from_key(key);
        this
    }

    /// Whether every sheet is read.
    pub fn multimode(&self) -> (r: bool)
        ensures
            r == (self@.read_mode == ReadMode::PreviewMultiple),
    {
        self.read_mode.is_multimode()
    }

    /// The last component of the path, if there is a path and it has one.
    pub fn file_name(&self) -> (r: Option<String>)
        ensures
            self@.path is None ==> r is None,
    {
        match &self.path {
            Some(path_str) => path_file_name(path_str.as_str()),
            None => None,
        }
    }

    /// Declares the keys of the columns, by position; each key is put in snake case.
    pub fn override_headers(self, keys: &[&str]) -> (r: Self)
        ensures
            r@ == (OptionSetView {
                rows: simple_rows(
                    Seq::new(keys@.len(), |i: int| keyed_column(snake_case_of(keys@[i]@))),
                ),
                ..self@
            }),
    {
        let mut this = self;
        let mut columns: Vec<Column> = Vec::new();
        let mut i: usize = 0;
        while i < keys.len()
            invariant
                i <= keys.len(),
                columns.len() == i,
                forall|j: int| 0 <= j < i ==> columns@[j]@ == keyed_column(snake_case_of(keys@[j]@)),
            decreases keys.len() - i,
        {
            let key = to_snake_case(keys[i]);
            columns.push(Column::new(Some(key.as_str())));
            i += 1;
        }
        assert(columns_view(columns@) =~= Seq::new(
            keys@.len(),
            |i: int| keyed_column(snake_case_of(keys@[i]@)),
        ));
        this.rows = RowOptionSet { columns, decimal_comma: false, date_only: false };
        this
    }

    /// Declares the columns, by position, each by a configuration object.
    pub fn override_columns(self, cols: &[IndexMap<String, CellValue>]) -> (r: Self)
        ensures
            r@ == (OptionSetView {
                rows: simple_rows(
                    Seq::new(cols@.len(), |i: int| column_of_config(record_entries(cols@[i]))),
                ),
                ..self@
            }),
    {
        let mut this = self;
        let mut columns: Vec<Column> = Vec::new();
        let mut i: usize = 0;
        while i < cols.len()
            invariant
                i <= cols.len(),
                columns.len() == i,
                forall|j: int|
                    0 <= j < i ==> columns@[j]@ == column_of_config(record_entries(cols@[j])),
            decreases cols.len() - i,
        {
            columns.push(Column::from_json(&cols[i]));
            i += 1;
        }
        assert(columns_view(columns@) =~= Seq::new(
            cols@.len(),
            |i: int| column_of_config(record_entries(cols@[i])),
        ));
        this.rows = RowOptionSet { columns, decimal_comma: false, date_only: false };
        this
    }

    /// Sets how the columns are named: see [`FieldNameMode::from_key`].
    pub fn field_name_mode(self, system: &str, override_header: bool) -> (r: Self)
        ensures
            r@ == (OptionSetView {
                field_mode: FieldNameMode::of_key(system@, override_header),
                ..self@
            }),
    {
        let mut this = self;
        this.field_mode = FieldNameMode::from_key(system, override_header);
        this
    }

    /// How the rows are written: `JSON lines` or `JSON`.
    pub fn row_mode(&self) -> (r: String)
        ensures
            r@ == row_mode_name(self@),
    {
        if self.jsonl {
            "JSON lines".to_string()
        } else {
            "JSON".to_string()
        }
    }

    /// What happens to the header row: `ignore` or `capture`.
    pub fn header_mode(&self) -> (r: String)
        ensures
            r@ == header_mode_name(self@),
    {
        if self.omit_header {
            "ignore".to_string()
        } else {
            "capture".to_string()
        }
    }

    /// The sheet positions as numerals separated by `, `.
    pub fn index_list(&self) -> (r: String)
        ensures
            r@ == joined(numerals_of(self@.indices), ", "@),
    {
        let mut parts: Vec<String> = Vec::new();
        let mut i: usize = 0;
        while i < self.indices.len()
            invariant
                i <= self.indices.len(),
                parts.len() == i,
                forall|j: int|
                    0 <= j < i ==> parts@[j]@ == decimal_digits(self.indices@[j] as nat),
            decreases self.indices.len() - i,
        {
            parts.push(string_of_chars(&decimal_chars(self.indices[i] as u128)));
            i += 1;
        }
        assert(strings_view(parts@) =~= numerals_of(self@.indices));
        join_texts(&parts, ", ")
    }

    /// The lines that name the sheets to read.
    fn sheet_lines_of(&self) -> (r: Vec<String>)
        ensures
            strings_view(r@) == sheet_lines(self@),
    {
        let mut lines: Vec<String> = Vec::new();
        assert(strings_view(lines@) =~= Seq::<Seq<char>>::empty());
        match &self.selected {
            Some(names) => {
                let plural = if names.len() > 1 {
                    "s"
                } else {
                    ""
                };
                let head = concat_text(concat_text("sheet name", plural).as_str(), ": ");
                let line = concat_text(head.as_str(), join_texts(names, ",").as_str());
                push_line(&mut lines, line);
            },
            None => {
                if self.indices.len() > 0 {
                    let line = concat_text("sheet indices: ", self.index_list().as_str());
                    push_line(&mut lines, line);
                }
            },
        }
        assert(strings_view(lines@) =~= sheet_lines(self@));
        lines
    }

    /// The line that gives the maximum, if one above zero is set.
    fn max_lines_of(&self) -> (r: Vec<String>)
        ensures
            strings_view(r@) == max_lines(self@),
    {
        let mut lines: Vec<String> = Vec::new();
        assert(strings_view(lines@) =~= Seq::<Seq<char>>::empty());
        if let Some(m) = self.max {
            if m > 0 {
                let numeral = string_of_chars(&decimal_chars(m as u128));
                push_line(&mut lines, concat_text("max rows: ", numeral.as_str()));
            }
        }
        assert(strings_view(lines@) =~= max_lines(self@));
        lines
    }

    /// The six lines that every description holds.
    fn fixed_lines_of(&self) -> (r: Vec<String>)
        ensures
            strings_view(r@) == fixed_lines(self@),
    {
        let mut lines: Vec<String> = Vec::new();
        assert(strings_view(lines@) =~= Seq::<Seq<char>>::empty());
        push_line(&mut lines, concat_text("mode: ", self.row_mode().as_str()));
        push_line(&mut lines, concat_text("headers: ", self.header_mode().as_str()));
        let row_numeral = string_of_chars(&decimal_chars(self.header_row as u128));
        push_line(&mut lines, concat_text("header row: ", row_numeral.as_str()));
        push_line(
            &mut lines,
            concat_text("decimal separator: ", self.rows.decimal_separator().as_str()),
        );
        push_line(&mut lines, concat_text("date mode: ", self.rows.date_mode().as_str()));
        push_line(&mut lines, concat_text("column style: ", self.field_mode.to_string().as_str()));
        assert(strings_view(lines@) =~= fixed_lines(self@));
        lines
    }

    /// The lines that describe the declared columns.
    fn column_lines_of(&self) -> (r: Vec<String>)
        ensures
            strings_view(r@) == column_lines(self@),
    {
        let mut lines: Vec<String> = Vec::new();
        assert(strings_view(lines@) =~= Seq::<Seq<char>>::empty());
        if self.rows.columns.len() > 0 {
            push_line(&mut lines, "columns:".to_string());
            let ghost cols = self@.rows.columns;
            let mut i: usize = 0;
            while i < self.rows.columns.len()
                invariant
                    i <= self.rows.columns.len(),
                    cols == columns_view(self.rows.columns@),
                    strings_view(lines@) =~= seq!["columns:"@] + Seq::new(
                        i as nat,
                        |j: int| column_line(cols[j]),
                    ),
                decreases self.rows.columns.len() - i,
            {
                push_line(&mut lines, self.rows.columns[i].to_line());
                i += 1;
            }
            assert(strings_view(lines@) =~= column_lines(self@));
        }
        lines
    }

    /// The description of the options, line by line, given the name of the
    /// file: see [`option_lines`].
    pub fn to_lines_with(&self, file_name: Option<String>) -> (r: Vec<String>)
        ensures
            strings_view(r@) == option_lines(self@, optional_text(file_name)),
    {
        let mut lines = self.sheet_lines_of();
        if let Some(f) = &file_name {
            push_line(&mut lines, concat_text("file name: ", f.as_str()));
        }
        assert(strings_view(lines@) =~= sheet_lines(self@) + file_lines(optional_text(file_name)));
        append_lines(&mut lines, self.max_lines_of());
        append_lines(&mut lines, self.fixed_lines_of());
        append_lines(&mut lines, self.column_lines_of());
        lines
    }

    /// The description of the options, line by line, for a terminal or a log.
    pub fn to_lines(&self) -> (r: Vec<String>)
        ensures
            exists|file_name: Option<Seq<char>>| strings_view(r@) == option_lines(self@, file_name),
            self@.path is None ==> strings_view(r@) == option_lines(self@, None),
    {
        self.to_lines_with(self.file_name())
    }

    /// The position of the header row.
    pub fn header_row_index(&self) -> (r: usize)
        ensures
            r == self@.header_row,
    {
        self.header_row as usize
    }

    /// The greatest number of rows kept: see [`max_rows_of`].
    pub fn max_rows(&self) -> (r: usize)
        ensures
            r == max_rows_of(self@),
    {
        match self.max {
            Some(mr) => mr as usize,
            None => match self.read_mode {
                ReadMode::PreviewMultiple => DEFAULT_MAX_ROWS_PREVIEW,
                _ => DEFAULT_MAX_ROWS,
            },
        }
    }

    /// The declared columns.
    pub fn columns(&self) -> (r: Vec<Column>)
        ensures
            columns_view(r@) == self@.rows.columns,
    {
        clone_columns(self.rows.columns.as_slice())
    }

    /// How the source is read.
    pub fn read_mode(&self) -> (r: ReadMode)
        ensures
            r == self@.read_mode,
    {
        self.read_mode
    }

    /// Whether rows are handed on one by one.
    pub fn is_async(&self) -> (r: bool)
        ensures
            r == (self@.read_mode == ReadMode::Async),
    {
        self.read_mode.is_async()
    }

    /// Whether rows are kept in memory.
    pub fn capture_rows(&self) -> (r: bool)
        ensures
            r == (self@.read_mode != ReadMode::Async),
    {
        match self.read_mode {
            ReadMode::Async => false,
            _ => true,
        }
    }

    /// A copy of the options.
    pub fn duplicate(&self) -> (r: Self)
        ensures
            r@ == self@,
    {
        OptionSet {
            selected: match &self.selected {
                Some(names) => Some(clone_strings(names.as_slice())),
                None => None,
            },
            indices: clone_indices(self.indices.as_slice()),
            path: match &self.path {
                Some(p) => Some(p.clone()),
                None => None,
            },
            rows: self.rows.duplicate(),
            jsonl: self.jsonl,
            max: self.max,
            omit_header: self.omit_header,
            header_row: self.header_row,
            read_mode: self.read_mode,
            field_mode: self.field_mode,
        }
    }
}

impl Clone for OptionSet {
    fn clone(&self) -> (r: Self)
        ensures
            r@ == self@,
    {
        self.duplicate()
    }
}

} // verus!
