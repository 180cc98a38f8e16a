//! The JSON text of records, results and options, for output.

use vstd::prelude::*;
use vstd::string::*;
use indexmap::IndexMap;
use crate::column::{Column, ColumnView};
use crate::data_set::{ResultSet, ResultSetView, SheetDataSet, SheetDataSetView, SpreadData,
    SpreadDataView};
use crate::error::GenericError;
use crate::format::format_name;
use crate::modes::ReadMode;
use crate::numerals::{decimal_chars, decimal_digits};
use crate::options::{OptionSet, OptionSetView};
use crate::column::optional_text;
use crate::text::{append_lines, concat_text, join_texts, joined, push_line, push_text,
    string_of_chars, strings_view};
use crate::value::{json_quote, json_quoted_of, record_entries, record_entry_at, record_len,
    records_view, value_text, CellValue, CellValueView};

verus! {

/// A JSON array of items that are JSON texts already.
pub open spec fn json_array_of(items: Seq<Seq<char>>) -> Seq<char> {
    "["@ + joined(items, ","@) + "]"@
}

/// A JSON object of members that are JSON texts already.
pub open spec fn json_object_of(members: Seq<Seq<char>>) -> Seq<char> {
    "{"@ + joined(members, ","@) + "}"@
}

/// A member of a JSON object: the key as a string literal, a colon, and
/// the value, which is a JSON text already.
pub open spec fn json_member(key: Seq<char>, value: Seq<char>) -> Seq<char> {
    json_quoted_of(key) + ":"@ + value
}

/// The JSON text of a boolean.
pub open spec fn json_bool(b: bool) -> Seq<char> {
    if b {
        "true"@
    } else {
        "false"@
    }
}

/// The JSON array of the string literals of texts.
pub open spec fn texts_json(texts: Seq<Seq<char>>) -> Seq<char> {
    json_array_of(Seq::new(texts.len(), |i: int| json_quoted_of(texts[i])))
}

/// The JSON array of the numerals of numbers.
pub open spec fn numbers_json(numbers: Seq<u32>) -> Seq<char> {
    json_array_of(Seq::new(numbers.len(), |i: int| decimal_digits(numbers[i] as nat)))
}

/// The JSON object of a record: its entries in their order.
pub open spec fn record_json(entries: Seq<(Seq<char>, CellValueView)>) -> Seq<char> {
    json_object_of(
        Seq::new(entries.len(), |i: int| json_member(entries[i].0, value_text(entries[i].1))),
    )
}

/// The JSON objects of records, one text each.
pub open spec fn record_lines(rows: Seq<Seq<(Seq<char>, CellValueView)>>) -> Seq<Seq<char>> {
    Seq::new(rows.len(), |i: int| record_json(rows[i]))
}

/// The JSON array of records.
pub open spec fn rows_json(rows: Seq<Seq<(Seq<char>, CellValueView)>>) -> Seq<char> {
    json_array_of(record_lines(rows))
}

/// The JSON object of the rows of one sheet: `sheet` (its name as written
/// and in snake case), `num_rows`, `keys` and `rows`.
pub open spec fn sheet_json(s: SheetDataSetView) -> Seq<char> {
    json_object_of(
        seq![
            json_member("sheet"@, texts_json(seq![s.name, s.key])),
            json_member("num_rows"@, decimal_digits(s.num_rows)),
            json_member("keys"@, texts_json(s.keys)),
            json_member("rows"@, rows_json(s.rows)),
        ],
    )
}

/// The JSON text of the rows of a read: an array of records for one
/// sheet, an array of sheet objects for several.
pub open spec fn data_json(d: SpreadDataView) -> Seq<char> {
    match d {
        SpreadDataView::Single(rows) => rows_json(rows),
        SpreadDataView::Multiple(sheets) => json_array_of(
            Seq::new(sheets.len(), |i: int| sheet_json(sheets[i])),
        ),
    }
}

/// The members that every result holds: `name`, `extension`, `selected`,
/// `sheets`, `num_rows` and `fields`.
pub open spec fn result_head_members(r: ResultSetView) -> Seq<Seq<char>> {
    seq![
        json_member("name"@, json_quoted_of(r.filename)),
        json_member("extension"@, json_quoted_of(r.extension)),
        json_member(
            "selected"@,
            texts_json(
                match r.selected {
                    Some(names) => names,
                    None => Seq::empty(),
                },
            ),
        ),
        json_member("sheets"@, texts_json(r.sheets)),
        json_member("num_rows"@, decimal_digits(r.num_rows)),
        json_member("fields"@, texts_json(r.keys)),
    ]
}

/// The JSON object of a result. It ends with `data`, the rows, unless the
/// rows went elsewhere: then it ends with `outref`, the reference to where.
pub open spec fn result_json(r: ResultSetView) -> Seq<char> {
    json_object_of(
        result_head_members(r).push(
            match r.out_ref {
                Some(o) => json_member("outref"@, json_quoted_of(o)),
                None => json_member("data"@, data_json(r.data)),
            },
        ),
    )
}

/// The JSON object of a column: `key`, `format`, `default`, `date_only` and `decimal_comma`.
pub open spec fn column_json(c: ColumnView) -> Seq<char> {
    json_object_of(column_json_members(c))
}

/// The members of the JSON object of a column.
pub open spec fn column_json_members(c: ColumnView) -> Seq<Seq<char>> {
    (
        seq![
            json_member(
                "key"@,
                json_quoted_of(
                    match c.key {
                        Some(k) => k,
                        None => Seq::empty(),
                    },
                ),
            ),
            json_member("format"@, json_quoted_of(format_name(c.format))),
            json_member(
                "default"@,
                match c.default {
                    Some(v) => value_text(v),
                    None => "null"@,
                },
            ),
            json_member("date_only"@, json_bool(c.date_only)),
            json_member("decimal_comma"@, json_bool(c.decimal_comma)),
        ]
    )
}

/// The JSON object that tells the selected sheets: the names and positions
/// of all for a preview, else those of the first.
pub open spec fn selected_json(o: OptionSetView, names: Seq<Seq<char>>) -> Seq<char> {
    if o.read_mode == ReadMode::PreviewMultiple {
        json_object_of(
            seq![
                json_member("sheets"@, texts_json(names)),
                json_member("indices"@, numbers_json(o.indices)),
            ],
        )
    } else {
        json_object_of(
            seq![
                json_member(
                    "sheet"@,
                    json_quoted_of(
                        if names.len() > 0 {
                            names[0]
                        } else {
                            Seq::empty()
                        },
                    ),
                ),
                json_member(
                    "index"@,
                    decimal_digits(
                        if o.indices.len() > 0 {
                            o.indices[0] as nat
                        } else {
                            0
                        },
                    ),
                ),
            ],
        )
    }
}

/// The member that tells the selected sheets, if any is.
pub open spec fn selected_members(o: OptionSetView) -> Seq<Seq<char>> {
    match o.selected {
        Some(names) => seq![json_member("selected"@, selected_json(o, names))],
        None => Seq::empty(),
    }
}

/// The members for the name of the file and the maximum, as far as they are set.
pub open spec fn source_members(o: OptionSetView, file_name: Option<Seq<char>>) -> Seq<Seq<char>> {
    (match file_name {
        Some(f) => seq![json_member("file name"@, json_quoted_of(f))],
        None => Seq::empty(),
    }) + (match o.max {
        Some(m) => seq![json_member("max"@, decimal_digits(m as nat))],
        None => Seq::empty(),
    })
}

/// The members that every description of options holds.
pub open spec fn flag_members(o: OptionSetView) -> Seq<Seq<char>> {
    seq![
        json_member("omit_header"@, json_bool(o.omit_header)),
        json_member("header_row"@, decimal_digits(o.header_row as nat)),
        json_member("read_mode"@, json_quoted_of(o.read_mode.name())),
        json_member("jsonl"@, json_bool(o.jsonl)),
        json_member(
            "decimal_separator"@,
            json_quoted_of(
                if o.rows.decimal_comma {
                    ","@
                } else {
                    "."@
                },
            ),
        ),
        json_member("date_only"@, json_bool(o.rows.date_only)),
    ]
}

/// The member for the declared columns, if any is declared.
pub open spec fn column_members(o: OptionSetView) -> Seq<Seq<char>> {
    if o.rows.columns.len() > 0 {
        seq![
            json_member(
                "columns"@,
                json_array_of(
                    Seq::new(o.rows.columns.len(), |i: int| column_json(o.rows.columns[i])),
                ),
            ),
        ]
    } else {
        Seq::empty()
    }
}

/// The JSON object of the options, given the name of the file.
pub open spec fn options_json(o: OptionSetView, file_name: Option<Seq<char>>) -> Seq<char> {
    json_object_of(
        selected_members(o) + source_members(o, file_name) + flag_members(o) + column_members(o),
    )
}

/// The JSON object that reports a failure: `error`, which is true, the
/// reason code as `message`, and the options that were in force.
pub open spec fn failure_json(code: Seq<char>, options: Seq<char>) -> Seq<char> {
    json_object_of(
        seq![
            json_member("error"@, "true"@),
            json_member("message"@, json_quoted_of(code)),
            json_member("options"@, options),
        ],
    )
}

/// The description of a result, line by line, before its rows.
pub open spec fn result_head_lines(r: ResultSetView) -> Seq<Seq<char>> {
    seq![
        "name:"@ + r.filename,
        "extension: "@ + r.extension,
        "sheet: name: "@ + joined(
            match r.selected {
                Some(names) => names,
                None => Seq::empty(),
            },
            ", "@,
        ),
        "sheets: "@ + joined(r.sheets, ", "@),
        "row count: "@ + decimal_digits(r.num_rows),
        "fields: "@ + joined(r.keys, ","@),
    ]
}

/// The lines for the rows of one sheet of several: a heading with its name
/// where there is more than one sheet, then each row as a JSON object.
pub open spec fn sheet_row_lines(s: SheetDataSetView, with_heading: bool) -> Seq<Seq<char>> {
    (if with_heading {
        seq!["Sheet: "@ + s.name + " :"@]
    } else {
        Seq::empty()
    }) + record_lines(s.rows)
}

/// The lines for the rows of the first `n` sheets.
pub open spec fn sheets_row_lines(sheets: Seq<SheetDataSetView>, with_heading: bool, n: nat) -> Seq<
    Seq<char>,
>
    decreases n,
{
    if n == 0 || n > sheets.len() {
        Seq::empty()
    } else {
        sheets_row_lines(sheets, with_heading, (n - 1) as nat) + sheet_row_lines(
            sheets[n - 1],
            with_heading,
        )
    }
}

/// The lines that follow the head of a description: the reference to
/// where the rows went, if they did; else `data:` and the rows, either as
/// one JSON text or, for JSON lines, sheet by sheet and row by row.
pub open spec fn result_data_lines(r: ResultSetView, json_lines: bool) -> Seq<Seq<char>> {
    match r.out_ref {
        Some(o) => seq!["output reference: "@ + o],
        None => seq!["data:"@] + (if json_lines {
            sheets_row_lines(r.data.sheets(), r.sheets.len() > 1, r.data.sheets().len())
        } else {
            seq![data_json(r.data)]
        }),
    }
}

/// The description of a result, line by line.
pub open spec fn result_lines(r: ResultSetView, json_lines: bool) -> Seq<Seq<char>> {
    result_head_lines(r) + result_data_lines(r, json_lines)
}

/// A JSON array of items that are JSON texts already.
pub fn json_array(items: &Vec<String>) -> (r: String)
    ensures
        r@ == json_array_of(strings_view(items@)),
{
    let mut out: Vec<char> = Vec::new();
    push_text(&mut out, "[");
    push_text(&mut out, join_texts(items, ",").as_str());
    push_text(&mut out, "]");
    assert(out@ =~= json_array_of(strings_view(items@)));
    string_of_chars(&out)
}

/// A JSON object of members that are JSON texts already.
pub fn json_object(members: &Vec<String>) -> (r: String)
    ensures
        r@ == json_object_of(strings_view(members@)),
{
    let mut out: Vec<char> = Vec::new();
    push_text(&mut out, "{");
    push_text(&mut out, join_texts(members, ",").as_str());
    push_text(&mut out, "}");
    assert(out@ =~= json_object_of(strings_view(members@)));
    string_of_chars(&out)
}

/// A member of a JSON object.
pub fn json_member_text(key: &str, value: &str) -> (r: String)
    ensures
        r@ == json_member(key@, value@),
{
    let mut out: Vec<char> = Vec::new();
    push_text(&mut out, json_quote(key).as_str());
    push_text(&mut out, ":");
    push_text(&mut out, value);
    assert(out@ =~= json_member(key@, value@));
    string_of_chars(&out)
}

/// The JSON text of a boolean.
pub fn json_bool_text(b: bool) -> (r: String)
    ensures
        r@ == json_bool(b),
{
    if b {
        "true".to_string()
    } else {
        "false".to_string()
    }
}

/// The numeral of a count.
fn count_text(n: usize) -> (r: String)
    ensures
        r@ == decimal_digits(n as nat),
{
    string_of_chars(&decimal_chars(n as u128))
}

/// The JSON array of the string literals of texts.
pub fn json_texts(texts: &[String]) -> (r: String)
    ensures
        r@ == texts_json(strings_view(texts@)),
{
    let mut items: Vec<String> = Vec::new();
    let mut i: usize = 0;
    while i < texts.len()
        invariant
            i <= texts.len(),
            items.len() == i,
            forall|j: int| 0 <= j < i ==> items@[j]@ == json_quoted_of(texts@[j]@),
        decreases texts.len() - i,
    {
        items.push(json_quote(texts[i].as_str()));
        i += 1;
    }
    assert(strings_view(items@) =~= Seq::new(
        texts@.len(),
        |i: int| json_quoted_of(strings_view(texts@)[i]),
    ));
    json_array(&items)
}

/// The JSON array of the numerals of numbers.
fn json_numbers(numbers: &[u32]) -> (r: String)
    ensures
        r@ == numbers_json(numbers@),
{
    let mut items: Vec<String> = Vec::new();
    let mut i: usize = 0;
    while i < numbers.len()
        invariant
            i <= numbers.len(),
            items.len() == i,
            forall|j: int| 0 <= j < i ==> items@[j]@ == decimal_digits(numbers@[j] as nat),
        decreases numbers.len() - i,
    {
        items.push(string_of_chars(&decimal_chars(numbers[i] as u128)));
        i += 1;
    }
    assert(strings_view(items@) =~= Seq::new(
        numbers@.len(),
        |i: int| decimal_digits(numbers@[i] as nat),
    ));
    json_array(&items)
}

/// The JSON object of a record.
pub fn record_to_json(record: &IndexMap<String, CellValue>) -> (r: String)
    ensures
        r@ == record_json(record_entries(*record)),
{
    let n = record_len(record);
    let ghost entries = record_entries(*record);
    let mut members: Vec<String> = Vec::new();
    let mut i: usize = 0;
    while i < n
        invariant
            i <= n,
            n == entries.len(),
            entries == record_entries(*record),
            members.len() == i,
            forall|j: int|
                0 <= j < i ==> members@[j]@ == json_member(entries[j].0, value_text(entries[j].1)),
        decreases n - i,
    {
        let (key, value) = record_entry_at(record, i);
        members.push(json_member_text(key.as_str(), value.to_json_text().as_str()));
        i += 1;
    }
    assert(strings_view(members@) =~= Seq::new(
        entries.len(),
        |i: int| json_member(entries[i].0, value_text(entries[i].1)),
    ));
    json_object(&members)
}

/// The JSON objects of records, one text each.
pub fn records_to_lines(rows: &[IndexMap<String, CellValue>]) -> (r: Vec<String>)
    ensures
        strings_view(r@) == record_lines(records_view(rows@)),
{
    let mut lines: Vec<String> = Vec::new();
    let mut i: usize = 0;
    while i < rows.len()
        invariant
            i <= rows.len(),
            lines.len() == i,
            forall|j: int| 0 <= j < i ==> lines@[j]@ == record_json(record_entries(rows@[j])),
        decreases rows.len() - i,
    {
        lines.push(record_to_json(&rows[i]));
        i += 1;
    }
    assert(strings_view(lines@) =~= record_lines(records_view(rows@)));
    lines
}

/// The JSON array of records.
pub fn rows_to_json(rows: &[IndexMap<String, CellValue>]) -> (r: String)
    ensures
        r@ == rows_json(records_view(rows@)),
{
    json_array(&records_to_lines(rows))
}

impl SheetDataSet {
    /// The JSON object of the rows of the sheet: see [`sheet_json`].
    pub fn to_json(&self) -> (r: String)
        ensures
            r@ == sheet_json(self@),
    {
        let mut names: Vec<String> = Vec::new();
        names.push(self.sheet.0.clone());
        names.push(self.sheet.1.clone());
        assert(strings_view(names@) =~= seq![self@.name, self@.key]);
        let mut members: Vec<String> = Vec::new();
        assert(strings_view(members@) =~= Seq::<Seq<char>>::empty());
        push_line(&mut members, json_member_text("sheet", json_texts(names.as_slice()).as_str()));
        push_line(&mut members, json_member_text("num_rows", count_text(self.num_rows).as_str()));
        push_line(
            &mut members,
            json_member_text("keys", json_texts(self.keys.as_slice()).as_str()),
        );
        push_line(
            &mut members,
            json_member_text("rows", rows_to_json(self.rows.as_slice()).as_str()),
        );
        assert(strings_view(members@) =~= seq![
            json_member("sheet"@, texts_json(seq![self@.name, self@.key])),
            json_member("num_rows"@, decimal_digits(self@.num_rows)),
            json_member("keys"@, texts_json(self@.keys)),
            json_member("rows"@, rows_json(self@.rows)),
        ]);
        json_object(&members)
    }
}

impl SpreadData {
    /// The JSON text of the rows: see [`data_json`].
    pub fn to_json(&self) -> (r: String)
        ensures
            r@ == data_json(self@),
    {
        match self {
            SpreadData::Single(rows) => rows_to_json(rows.as_slice()),
            SpreadData::Multiple(sheets) => {
                let mut items: Vec<String> = Vec::new();
                let mut i: usize = 0;
                while i < sheets.len()
                    invariant
                        i <= sheets.len(),
                        items.len() == i,
                        forall|j: int| 0 <= j < i ==> items@[j]@ == sheet_json(sheets@[j]@),
                    decreases sheets.len() - i,
                {
                    items.push(sheets[i].to_json());
                    i += 1;
                }
                assert(strings_view(items@) =~= Seq::new(
                    sheets@.len(),
                    |i: int| sheet_json(crate::data_set::sheets_view(sheets@)[i]),
                ));
                json_array(&items)
            },
        }
    }
}

impl ResultSet {
    /// The members that every result holds.
    fn head_members(&self) -> (r: Vec<String>)
        ensures
            strings_view(r@) == result_head_members(self@),
    {
        let none: Vec<String> = Vec::new();
        assert(strings_view(none@) =~= Seq::<Seq<char>>::empty());
        let selected = match &self.selected {
            Some(names) => json_texts(names.as_slice()),
            None => json_texts(none.as_slice()),
        };
        let mut members: Vec<String> = Vec::new();
        assert(strings_view(members@) =~= Seq::<Seq<char>>::empty());
        push_line(&mut members, json_member_text("name", json_quote(self.filename.as_str()).as_str()));
        push_line(
            &mut members,
            json_member_text("extension", json_quote(self.extension.as_str()).as_str()),
        );
        push_line(&mut members, json_member_text("selected", selected.as_str()));
        push_line(
            &mut members,
            json_member_text("sheets", json_texts(self.sheets.as_slice()).as_str()),
        );
        push_line(&mut members, json_member_text("num_rows", count_text(self.num_rows).as_str()));
        push_line(
            &mut members,
            json_member_text("fields", json_texts(self.keys.as_slice()).as_str()),
        );
        assert(strings_view(members@) =~= result_head_members(self@));
        members
    }

    /// The JSON object of the result: see [`result_json`].
    pub fn to_json(&self) -> (r: String)
        ensures
            r@ == result_json(self@),
    {
        let mut members = self.head_members();
        match &self.out_ref {
            Some(o) => {
                push_line(
                    &mut members,
                    json_member_text("outref", json_quote(o.as_str()).as_str()),
                );
            },
            None => {
                push_line(&mut members, json_member_text("data", self.data.to_json().as_str()));
            },
        }
        json_object(&members)
    }

    /// The JSON text of the rows alone.
    pub fn json_rows(&self) -> (r: String)
        ensures
            r@ == data_json(self@.data),
    {
        self.data.to_json()
    }

    /// The rows of the first sheet, each as the text of a JSON object.
    pub fn rows(&self) -> (r: Vec<String>)
        ensures
            strings_view(r@) == record_lines(self@.data.first_sheet()),
    {
        let sheet = self.data.first_sheet();
        records_to_lines(sheet.as_slice())
    }

    /// The description of the result before its rows.
    fn head_lines(&self) -> (r: Vec<String>)
        ensures
            strings_view(r@) == result_head_lines(self@),
    {
        let none: Vec<String> = Vec::new();
        assert(strings_view(none@) =~= Seq::<Seq<char>>::empty());
        let selected = match &self.selected {
            Some(names) => join_texts(names, ", "),
            None => join_texts(&none, ", "),
        };
        let mut lines: Vec<String> = Vec::new();
        assert(strings_view(lines@) =~= Seq::<Seq<char>>::empty());
        push_line(&mut lines, concat_text("name:", self.filename.as_str()));
        push_line(&mut lines, concat_text("extension: ", self.extension.as_str()));
        push_line(&mut lines, concat_text("sheet: name: ", selected.as_str()));
        push_line(&mut lines, concat_text("sheets: ", join_texts(&self.sheets, ", ").as_str()));
        push_line(&mut lines, concat_text("row count: ", count_text(self.num_rows).as_str()));
        push_line(&mut lines, concat_text("fields: ", join_texts(&self.keys, ",").as_str()));
        assert(strings_view(lines@) =~= result_head_lines(self@));
        lines
    }

    /// The lines for the rows, sheet by sheet and row by row.
    fn row_lines(&self) -> (r: Vec<String>)
        ensures
            strings_view(r@) == sheets_row_lines(
                self@.data.sheets(),
                self@.sheets.len() > 1,
                self@.data.sheets().len(),
            ),
    {
        let has_many_sheets = self.sheets.len() > 1;
        let sheets = self.data.sheets();
        let ghost all = self@.data.sheets();
        let mut lines: Vec<String> = Vec::new();
        assert(strings_view(lines@) =~= Seq::<Seq<char>>::empty());
        let mut i: usize = 0;
        while i < sheets.len()
            invariant
                i <= sheets.len(),
                all == crate::data_set::sheets_view(sheets@),
                strings_view(lines@) == sheets_row_lines(all, has_many_sheets, i as nat),
            decreases sheets.len() - i,
        {
            assert(all[i as int] == sheets@[i as int]@);
            let ghost before = strings_view(lines@);
            if has_many_sheets {
                let head = concat_text("Sheet: ", sheets[i].name().as_str());
                push_line(&mut lines, concat_text(head.as_str(), " :"));
            }
            append_lines(&mut lines, records_to_lines(sheets[i].rows.as_slice()));
            assert(strings_view(lines@) =~= before + sheet_row_lines(all[i as int], has_many_sheets));
            i += 1;
        }
        lines
    }

    /// The description of the result, line by line: see [`result_lines`].
    pub fn to_output_lines(&self, json_lines: bool) -> (r: Vec<String>)
        ensures
            strings_view(r@) == result_lines(self@, json_lines),
    {
        let mut lines = self.head_lines();
        match &self.out_ref {
            Some(o) => {
                push_line(&mut lines, concat_text("output reference: ", o.as_str()));
                assert(strings_view(lines@) =~= result_lines(self@, json_lines));
            },
            None => {
                push_line(&mut lines, "data:".to_string());
                if json_lines {
                    append_lines(&mut lines, self.row_lines());
                } else {
                    push_line(&mut lines, self.data.to_json());
                }
                assert(strings_view(lines@) =~= result_lines(self@, json_lines));
            },
        }
        lines
    }
}

impl Column {
    /// The JSON object of the column: see [`column_json`].
    pub fn to_json(&self) -> (r: String)
        ensures
            r@ == column_json(self@),
    {
        let default = match &self.default {
            Some(v) => v.to_json_text(),
            None => "null".to_string(),
        };
        let mut members: Vec<String> = Vec::new();
        assert(strings_view(members@) =~= Seq::<Seq<char>>::empty());
        push_line(
            &mut members,
            json_member_text("key", json_quote(self.key_name().as_str()).as_str()),
        );
        push_line(
            &mut members,
            json_member_text("format", json_quote(self.format.to_string().as_str()).as_str()),
        );
        push_line(&mut members, json_member_text("default", default.as_str()));
        push_line(
            &mut members,
            json_member_text("date_only", json_bool_text(self.date_only).as_str()),
        );
        push_line(
            &mut members,
            json_member_text("decimal_comma", json_bool_text(self.decimal_comma).as_str()),
        );
        assert(strings_view(members@) =~= column_json_members(self@));
        json_object(&members)
    }
}

impl OptionSet {
    /// The JSON object that tells the selected sheets.
    fn selected_json_of(&self, names: &Vec<String>) -> (r: String)
        ensures
            r@ == selected_json(self@, strings_view(names@)),
    {
        let mut inner: Vec<String> = Vec::new();
        assert(strings_view(inner@) =~= Seq::<Seq<char>>::empty());
        if self.multimode() {
            push_line(
                &mut inner,
                json_member_text("sheets", json_texts(names.as_slice()).as_str()),
            );
            push_line(
                &mut inner,
                json_member_text("indices", json_numbers(self.indices.as_slice()).as_str()),
            );
            assert(strings_view(inner@) =~= seq![
                json_member("sheets"@, texts_json(strings_view(names@))),
                json_member("indices"@, numbers_json(self@.indices)),
            ]);
            json_object(&inner)
        } else {
            let first_name = if names.len() > 0 {
                assert(strings_view(names@)[0] == names@[0]@);
                names[0].clone()
            } else {
                String::new()
            };
            let index: u32 = if self.indices.len() > 0 {
                self.indices[0]
            } else {
                0
            };
            push_line(
                &mut inner,
                json_member_text("sheet", json_quote(first_name.as_str()).as_str()),
            );
            push_line(
                &mut inner,
                json_member_text("index", string_of_chars(&decimal_chars(index as u128)).as_str()),
            );
            assert(strings_view(inner@) =~= seq![
                json_member("sheet"@, json_quoted_of(first_name@)),
                json_member("index"@, decimal_digits(index as nat)),
            ]);
            json_object(&inner)
        }
    }

    /// The member that tells the selected sheets.
    fn selected_members_of(&self) -> (r: Vec<String>)
        ensures
            strings_view(r@) == selected_members(self@),
    {
        let mut members: Vec<String> = Vec::new();
        assert(strings_view(members@) =~= Seq::<Seq<char>>::empty());
        if let Some(names) = &self.selected {
            push_line(
                &mut members,
                json_member_text("selected", self.selected_json_of(names).as_str()),
            );
            assert(strings_view(members@) =~= selected_members(self@));
        }
        members
    }

    /// The members for the name of the file and the maximum.
    fn source_members_of(&self, file_name: &Option<String>) -> (r: Vec<String>)
        ensures
            strings_view(r@) == source_members(self@, optional_text(*file_name)),
    {
        let mut members: Vec<String> = Vec::new();
        assert(strings_view(members@) =~= Seq::<Seq<char>>::empty());
        if let Some(f) = file_name {
            push_line(&mut members, json_member_text("file name", json_quote(f.as_str()).as_str()));
        }
        if let Some(max_val) = self.max {
            push_line(
                &mut members,
                json_member_text("max", string_of_chars(&decimal_chars(max_val as u128)).as_str()),
            );
        }
        assert(strings_view(members@) =~= source_members(self@, optional_text(*file_name)));
        members
    }

    /// The members that every description of options holds.
    fn flag_members_of(&self) -> (r: Vec<String>)
        ensures
            strings_view(r@) == flag_members(self@),
    {
        let mut members: Vec<String> = Vec::new();
        assert(strings_view(members@) =~= Seq::<Seq<char>>::empty());
        push_line(
            &mut members,
            json_member_text("omit_header", json_bool_text(self.omit_header).as_str()),
        );
        push_line(
            &mut members,
            json_member_text(
                "header_row",
                string_of_chars(&decimal_chars(self.header_row as u128)).as_str(),
            ),
        );
        push_line(
            &mut members,
            json_member_text("read_mode", json_quote(self.read_mode.to_string().as_str()).as_str()),
        );
        push_line(&mut members, json_member_text("jsonl", json_bool_text(self.jsonl).as_str()));
        push_line(
            &mut members,
            json_member_text(
                "decimal_separator",
                json_quote(self.rows.decimal_separator().as_str()).as_str(),
            ),
        );
        push_line(
            &mut members,
            json_member_text("date_only", json_bool_text(self.rows.date_only).as_str()),
        );
        assert(strings_view(members@) =~= flag_members(self@));
        members
    }

    /// The member for the declared columns.
    fn column_members_of(&self) -> (r: Vec<String>)
        ensures
            strings_view(r@) == column_members(self@),
    {
        let mut members: Vec<String> = Vec::new();
        assert(strings_view(members@) =~= Seq::<Seq<char>>::empty());
        if self.rows.columns.len() > 0 {
            let mut items: Vec<String> = Vec::new();
            let mut i: usize = 0;
            while i < self.rows.columns.len()
                invariant
                    i <= self.rows.columns.len(),
                    items.len() == i,
                    forall|j: int| 0 <= j < i ==> items@[j]@ == column_json(self.rows.columns@[j]@),
                decreases self.rows.columns.len() - i,
            {
                items.push(self.rows.columns[i].to_json());
                i += 1;
            }
            assert(strings_view(items@) =~= Seq::new(
                self@.rows.columns.len(),
                |i: int| column_json(self@.rows.columns[i]),
            ));
            push_line(&mut members, json_member_text("columns", json_array(&items).as_str()));
            assert(strings_view(members@) =~= column_members(self@));
        }
        members
    }

    /// The JSON object of the options, given the name of the file: see [`options_json`].
    pub fn to_json_with(&self, file_name: Option<String>) -> (r: String)
        ensures
            r@ == options_json(self@, optional_text(file_name)),
    {
        let mut members = self.selected_members_of();
        append_lines(&mut members, self.source_members_of(&file_name));
        append_lines(&mut members, self.flag_members_of());
        append_lines(&mut members, self.column_members_of());
        json_object(&members)
    }

    /// The JSON object of the options.
    pub fn to_json(&self) -> (r: String)
        ensures
            exists|file_name: Option<Seq<char>>| r@ == options_json(self@, file_name),
            self@.path is None ==> r@ == options_json(self@, None),
    {
        self.to_json_with(self.file_name())
    }
}

/// The JSON object that reports a failure with the options that were in
/// force, given their JSON object: see [`failure_json`].
pub fn failure_report_with(error: &GenericError, options: &str) -> (r: String)
    ensures
        r@ == failure_json(error.code(), options@),
{
    let mut members: Vec<String> = Vec::new();
    assert(strings_view(members@) =~= Seq::<Seq<char>>::empty());
    push_line(&mut members, json_member_text("error", "true"));
    push_line(&mut members, json_member_text("message", json_quote(error.0).as_str()));
    push_line(&mut members, json_member_text("options", options));
    assert(strings_view(members@) =~= seq![
        json_member("error"@, "true"@),
        json_member("message"@, json_quoted_of(error.code())),
        json_member("options"@, options@),
    ]);
    json_object(&members)
}

/// The JSON object that reports a failure with the options that were in force.
pub fn failure_report(error: &GenericError, opts: &OptionSet) -> (r: String)
    ensures
        exists|file_name: Option<Seq<char>>|
            r@ == failure_json(error.code(), options_json(opts@, file_name)),
{
    let options = opts.to_json();
    failure_report_with(error, options.as_str())
}

} // verus!
