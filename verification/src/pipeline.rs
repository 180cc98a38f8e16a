//! The reading of whole sources: from the rows of a sheet or of a delimited
//! file to the keys of the columns, the records kept and the result returned.

use vstd::prelude::*;
use vstd::string::*;
use indexmap::IndexMap;
use crate::cell::{cell_text, cells_view, sheet_view, RawCell, RawCellView};
use crate::column::{columns_view, Column, ColumnView, RowOptionSet, RowOptionSetView};
use crate::data_set::{multiple_result, sheets_view, single_result, total_rows, DataSet,
    DataSetView, ResultSet, ResultSetView, SheetDataSet, SheetDataSetView, SpreadDataView,
    WorkbookInfo, WorkbookInfoView, match_sheet_name_and_index};
use crate::delivery::deliver_rows;
use crate::error::GenericError;
use crate::headers::{build_header_keys, header_keys, is_data_row, is_not_header_row};
use crate::modes::ReadMode;
use crate::options::{max_rows_of, OptionSet, OptionSetView};
use crate::path_data::{Extension, PathData};
use crate::reader::{coerced_csv_row, coerced_row, csv_row_to_values, record_of, to_index_map,
    workbook_row_to_map};
use crate::text::{snake_case_of, strings_view, to_snake_case};
use crate::value::{record_entries, records_view, CellValue, CellValueView};

verus! {

/// A sheet of a workbook as it was loaded: its name and all its rows.
#[derive(Debug)]
pub struct SheetSource {
    /// The name of the sheet.
    pub name: String,
    /// The rows of the sheet, the header row among them.
    pub rows: Vec<Vec<RawCell>>,
}

/// A source file as it was loaded.
#[derive(Debug)]
pub enum Source {
    /// There is no file at the path.
    Unavailable,
    /// The file could not be opened or is damaged.
    Unreadable,
    /// The file is there, but it could not be reached, or a sheet that is
    /// to be read could not be read: the error that tells what went wrong.
    Failed(GenericError),
    /// A workbook, by its sheets.
    Workbook(Vec<SheetSource>),
    /// A delimited file: its first line and the lines after it, each cut into fields.
    Delimited { header: Vec<String>, records: Vec<Vec<String>> },
}

/// The texts that the cells of a row show.
pub open spec fn row_texts(row: Seq<RawCellView>) -> Seq<Seq<char>> {
    Seq::new(row.len(), |i: int| cell_text(row[i]))
}

/// The texts that the cells of a row show, in snake case.
pub open spec fn row_snake_texts(row: Seq<RawCellView>) -> Seq<Seq<char>> {
    Seq::new(row.len(), |i: int| snake_case_of(cell_text(row[i])))
}

/// Whether the header row lies below the first row.
pub open spec fn header_below(o: OptionSetView) -> bool {
    !o.omit_header && o.header_row > 0
}

/// The keys of the columns of a sheet.
///
/// They are built from the first row. Where the header row lies below the
/// first row and the sheet reaches it, they are built from that row instead,
/// its cells put in snake case. A sheet without rows has no keys.
pub open spec fn sheet_headers(
    rows: Seq<Seq<RawCellView>>,
    columns: Seq<ColumnView>,
    o: OptionSetView,
) -> Seq<Seq<char>> {
    if rows.len() == 0 {
        Seq::empty()
    } else if header_below(o) && o.header_row < rows.len() {
        header_keys(row_snake_texts(rows[o.header_row as int]), columns, o.field_mode)
    } else {
        header_keys(row_texts(rows[0]), columns, o.field_mode)
    }
}

/// The position of the first data row: the row after the header row, or
/// the first row of the sheet where the options say that it has no header.
/// The header row itself is never among the records.
pub open spec fn first_data_index(o: OptionSetView) -> nat {
    if o.omit_header {
        0
    } else {
        (o.header_row + 1) as nat
    }
}

/// The record of the row at a position.
pub open spec fn row_record(
    rows: Seq<Seq<RawCellView>>,
    row_opts: RowOptionSetView,
    headers: Seq<Seq<char>>,
    index: int,
) -> Seq<(Seq<char>, CellValueView)> {
    record_of(coerced_row(rows[index], row_opts), headers)
}

/// The records kept among the rows before position `n`: in order from
/// `start`, the position of the first data row, each data row but a first
/// one that repeats the header (see [`is_data_row`]), until `limit` records
/// are kept.
pub open spec fn captured_upto(
    rows: Seq<Seq<RawCellView>>,
    row_opts: RowOptionSetView,
    headers: Seq<Seq<char>>,
    start: nat,
    limit: nat,
    n: nat,
) -> Seq<Seq<(Seq<char>, CellValueView)>>
    decreases n,
{
    if n <= start || n > rows.len() {
        Seq::empty()
    } else {
        let earlier = captured_upto(rows, row_opts, headers, start, limit, (n - 1) as nat);
        let record = row_record(rows, row_opts, headers, n - 1);
        if earlier.len() < limit && is_data_row(record, (n - 1 - start) as nat, headers) {
            earlier.push(record)
        } else {
            earlier
        }
    }
}

/// The records kept of a sheet: none in `Async` mode; else those of
/// [`captured_upto`] over all its rows.
pub open spec fn sheet_records(
    rows: Seq<Seq<RawCellView>>,
    row_opts: RowOptionSetView,
    headers: Seq<Seq<char>>,
    o: OptionSetView,
    limit: nat,
) -> Seq<Seq<(Seq<char>, CellValueView)>> {
    if o.read_mode == ReadMode::Async {
        Seq::empty()
    } else {
        captured_upto(rows, row_opts, headers, first_data_index(o), limit, rows.len())
    }
}

/// No more records are kept than the limit allows, nor more than there are rows.
pub proof fn lemma_captured_bounds(
    rows: Seq<Seq<RawCellView>>,
    row_opts: RowOptionSetView,
    headers: Seq<Seq<char>>,
    start: nat,
    limit: nat,
    n: nat,
)
    ensures
        captured_upto(rows, row_opts, headers, start, limit, n).len() <= limit,
        captured_upto(rows, row_opts, headers, start, limit, n).len() <= n,
    decreases n,
{
    if !(n <= start || n > rows.len()) {
        lemma_captured_bounds(rows, row_opts, headers, start, limit, (n - 1) as nat);
    }
}

/// The records of the `count` rows from position `start` on, in order.
pub open spec fn data_records(
    rows: Seq<Seq<RawCellView>>,
    row_opts: RowOptionSetView,
    headers: Seq<Seq<char>>,
    start: nat,
    count: nat,
) -> Seq<Seq<(Seq<char>, CellValueView)>> {
    Seq::new(count, |i: int| row_record(rows, row_opts, headers, start + i))
}

/// Only data rows are kept: there are no more records than rows from the
/// first data row on, so the header row and the rows before it are never
/// among the records.
pub proof fn lemma_only_data_rows_are_kept(
    rows: Seq<Seq<RawCellView>>,
    row_opts: RowOptionSetView,
    headers: Seq<Seq<char>>,
    start: nat,
    limit: nat,
    n: nat,
)
    requires
        start <= n,
    ensures
        captured_upto(rows, row_opts, headers, start, limit, n).len() <= n - start,
    decreases n,
{
    if !(n <= start || n > rows.len()) {
        lemma_only_data_rows_are_kept(rows, row_opts, headers, start, limit, (n - 1) as nat);
    }
}

/// Every data row is kept once, in the order of the source, as long as the
/// limit allows and the first data row does not repeat the header.
pub proof fn lemma_every_data_row_is_kept(
    rows: Seq<Seq<RawCellView>>,
    row_opts: RowOptionSetView,
    headers: Seq<Seq<char>>,
    start: nat,
    limit: nat,
    n: nat,
)
    requires
        start <= n <= rows.len(),
        n - start <= limit,
        n > start ==> !crate::headers::repeats_header(
            row_record(rows, row_opts, headers, start as int),
            headers,
        ),
    ensures
        captured_upto(rows, row_opts, headers, start, limit, n) == data_records(
            rows,
            row_opts,
            headers,
            start,
            (n - start) as nat,
        ),
    decreases n,
{
    if n > start {
        lemma_every_data_row_is_kept(rows, row_opts, headers, start, limit, (n - 1) as nat);
        let earlier = captured_upto(rows, row_opts, headers, start, limit, (n - 1) as nat);
        let record = row_record(rows, row_opts, headers, n - 1);
        assert(earlier.len() == n - 1 - start);
        assert(is_data_row(record, (n - 1 - start) as nat, headers));
        assert(earlier.push(record) =~= data_records(
            rows,
            row_opts,
            headers,
            start,
            (n - start) as nat,
        ));
    } else {
        assert(captured_upto(rows, row_opts, headers, start, limit, n) =~= data_records(
            rows,
            row_opts,
            headers,
            start,
            0,
        ));
    }
}

/// A sheet with a header row, read with its rows kept, gives one record
/// for each row after the header row, in the order of the source, and the
/// header row is not among them: as long as the maximum allows and the row
/// after the header row does not repeat the header. With one header row
/// and 400 rows of data that is 400 records, one less than the number of rows.
pub proof fn lemma_sheet_keeps_every_data_row(
    rows: Seq<Seq<RawCellView>>,
    o: OptionSetView,
    limit: nat,
)
    requires
        !o.omit_header,
        o.read_mode != ReadMode::Async,
        o.header_row < rows.len(),
        rows.len() - (o.header_row + 1) <= limit,
        rows.len() > o.header_row + 1 ==> !crate::headers::repeats_header(
            row_record(
                rows,
                o.rows,
                sheet_headers(rows, o.rows.columns, o),
                o.header_row + 1,
            ),
            sheet_headers(rows, o.rows.columns, o),
        ),
    ensures
        sheet_records(rows, o.rows, sheet_headers(rows, o.rows.columns, o), o, limit)
            == data_records(
            rows,
            o.rows,
            sheet_headers(rows, o.rows.columns, o),
            (o.header_row + 1) as nat,
            (rows.len() - (o.header_row + 1)) as nat,
        ),
        sheet_records(rows, o.rows, sheet_headers(rows, o.rows.columns, o), o, limit).len()
            == rows.len() - (o.header_row + 1),
{
    lemma_every_data_row_is_kept(
        rows,
        o.rows,
        sheet_headers(rows, o.rows.columns, o),
        (o.header_row + 1) as nat,
        limit,
        rows.len(),
    );
}

/// The texts that the cells of a row show, as they are or in snake case.
pub fn row_display_texts(row: &[RawCell], snake: bool) -> (r: Vec<String>)
    ensures
        strings_view(r@) == (if snake {
            row_snake_texts(cells_view(row@))
        } else {
            row_texts(cells_view(row@))
        }),
{
    let mut out: Vec<String> = Vec::new();
    let mut i: usize = 0;
    while i < row.len()
        invariant
            i <= row.len(),
            out.len() == i,
            forall|j: int|
                0 <= j < i ==> out@[j]@ == (if snake {
                    snake_case_of(cell_text(row@[j]@))
                } else {
                    cell_text(row@[j]@)
                }),
        decreases row.len() - i,
    {
        let text = row[i].display_text();
        if snake {
            out.push(to_snake_case(text.as_str()));
        } else {
            out.push(text);
        }
        i += 1;
    }
    if snake {
        assert(strings_view(out@) =~= row_snake_texts(cells_view(row@)));
    } else {
        assert(strings_view(out@) =~= row_texts(cells_view(row@)));
    }
    out
}

/// The keys of the columns of a sheet: see [`sheet_headers`].
pub fn sheet_header_keys(rows: &[Vec<RawCell>], columns: &[Column], opts: &OptionSet) -> (r: Vec<
    String,
>)
    ensures
        strings_view(r@) == sheet_headers(sheet_view(rows@), columns_view(columns@), opts@),
{
    if rows.len() == 0 {
        let r: Vec<String> = Vec::new();
        assert(strings_view(r@) =~= Seq::<Seq<char>>::empty());
        return r;
    }
    let header_row_index = opts.header_row_index();
    if !opts.omit_header && header_row_index > 0 && header_row_index < rows.len() {
        assert(sheet_view(rows@)[header_row_index as int] == cells_view(
            rows@[header_row_index as int]@,
        ));
        let h_row = row_display_texts(rows[header_row_index].as_slice(), true);
        build_header_keys(h_row.as_slice(), columns, &opts.field_mode)
    } else {
        assert(sheet_view(rows@)[0] == cells_view(rows@[0]@));
        let first_row = row_display_texts(rows[0].as_slice(), false);
        build_header_keys(first_row.as_slice(), columns, &opts.field_mode)
    }
}

/// The records kept of the rows of a sheet from `start` on, `limit` at most:
/// see [`captured_upto`].
pub fn capture_rows(
    rows: &[Vec<RawCell>],
    row_opts: &RowOptionSet,
    headers: &Vec<String>,
    start: usize,
    limit: usize,
) -> (r: Vec<IndexMap<String, CellValue>>)
    ensures
        records_view(r@) == captured_upto(
            sheet_view(rows@),
            row_opts@,
            strings_view(headers@),
            start as nat,
            limit as nat,
            rows@.len(),
        ),
{
    let ghost all = sheet_view(rows@);
    let ghost keys = strings_view(headers@);
    let mut out: Vec<IndexMap<String, CellValue>> = Vec::new();
    let n = rows.len();
    let mut i: usize = if start < n {
        start
    } else {
        n
    };
    assert(records_view(out@) =~= captured_upto(
        all,
        row_opts@,
        keys,
        start as nat,
        limit as nat,
        i as nat,
    ));
    if start >= n {
        return out;
    }
    while i < n
        invariant
            start <= i <= n,
            n == rows@.len(),
            all == sheet_view(rows@),
            keys == strings_view(headers@),
            records_view(out@) == captured_upto(
                all,
                row_opts@,
                keys,
                start as nat,
                limit as nat,
                i as nat,
            ),
        decreases n - i,
    {
        let ghost before = records_view(out@);
        assert(all[i as int] == cells_view(rows@[i as int]@));
        if out.len() < limit {
            let record = workbook_row_to_map(rows[i].as_slice(), row_opts, headers.as_slice());
            if is_not_header_row(&record, i - start, headers) {
                out.push(record);
                assert(records_view(out@) =~= before.push(record_entries(record)));
            }
        }
        i += 1;
    }
    out
}

/// The result of reading one sheet.
///
/// The number of rows is that of the sheet, whatever is kept; in `Async`
/// mode no row is kept.
pub open spec fn single_sheet_result(
    rows: Seq<Seq<RawCellView>>,
    o: OptionSetView,
    info: WorkbookInfoView,
    out_ref: Option<Seq<char>>,
) -> ResultSetView {
    let headers = sheet_headers(rows, o.rows.columns, o);
    let records = sheet_records(rows, o.rows, headers, o, max_rows_of(o));
    single_result(
        info,
        headers,
        if o.read_mode == ReadMode::Async {
            DataSetView::Count(rows.len())
        } else {
            DataSetView::WithRows(rows.len(), records)
        },
        out_ref,
    )
}

/// The content of an optional text.
pub open spec fn optional_str(s: Option<&str>) -> Option<Seq<char>> {
    match s {
        Some(t) => Some(t@),
        None => None,
    }
}

/// Reads one sheet: builds the keys of its columns from the header row,
/// keeps the rows after it as records up to the maximum of the options,
/// and counts all its rows. The header row is never among the records; the
/// first row after it is left out if it repeats the header.
pub fn read_single_worksheet(
    rows: &[Vec<RawCell>],
    opts: &OptionSet,
    info: &WorkbookInfo,
    out_ref: Option<&str>,
) -> (r: ResultSet)
    ensures
        r@ == single_sheet_result(sheet_view(rows@), opts@, info@, optional_str(out_ref)),
        r@.num_rows == rows@.len(),
        opts@.read_mode == ReadMode::Async ==> r@.data == SpreadDataView::Single(Seq::empty()),
{
    let headers = sheet_header_keys(rows, opts.rows.columns.as_slice(), opts);
    let records = if opts.capture_rows() {
        let start = if opts.omit_header {
            0
        } else {
            opts.header_row_index() + 1
        };
        capture_rows(rows, &opts.rows, &headers, start, opts.max_rows())
    } else {
        let none: Vec<IndexMap<String, CellValue>> = Vec::new();
        assert(records_view(none@) =~= Seq::empty());
        none
    };
    let ds = DataSet::from_count_and_rows(rows.len(), records, opts);
    ResultSet::new(info, headers.as_slice(), ds, out_ref)
}

/// The row options of a sheet of a preview: those of the options for the
/// first sheet; for any other sheet the same without declared columns.
pub open spec fn preview_row_options(o: OptionSetView, sheet_index: int) -> RowOptionSetView {
    if sheet_index == 0 {
        o.rows
    } else {
        RowOptionSetView {
            columns: Seq::empty(),
            decimal_comma: o.rows.decimal_comma,
            date_only: o.rows.date_only,
        }
    }
}

/// What a preview holds of the sheet at a position.
pub open spec fn preview_sheet(
    name: Seq<char>,
    rows: Seq<Seq<RawCellView>>,
    o: OptionSetView,
    sheet_index: int,
    limit: nat,
) -> SheetDataSetView {
    let row_opts = preview_row_options(o, sheet_index);
    let headers = sheet_headers(rows, row_opts.columns, o);
    SheetDataSetView {
        name,
        key: snake_case_of(name),
        num_rows: rows.len(),
        keys: headers,
        rows: sheet_records(rows, row_opts, headers, o, limit),
    }
}

/// The contents of a list of loaded sheets, as what a preview holds of each.
pub open spec fn preview_sheets(sheets: Seq<SheetSource>, o: OptionSetView, limit: nat) -> Seq<
    SheetDataSetView,
> {
    Seq::new(
        sheets.len(),
        |i: int| preview_sheet(sheets[i].name@, sheet_view(sheets[i].rows@), o, i, limit),
    )
}

/// Reads one sheet of a preview.
fn read_preview_sheet(sheet: &SheetSource, opts: &OptionSet, sheet_index: usize, max_rows: usize) -> (r:
    SheetDataSet)
    ensures
        r@ == preview_sheet(
            sheet.name@,
            sheet_view(sheet.rows@),
            opts@,
            sheet_index as int,
            max_rows as nat,
        ),
{
    let row_opts = if sheet_index == 0 {
        opts.rows.duplicate()
    } else {
        let r = RowOptionSet {
            columns: Vec::new(),
            decimal_comma: opts.rows.decimal_comma,
            date_only: opts.rows.date_only,
        };
        assert(r@.columns =~= Seq::empty());
        r
    };
    let rows = sheet.rows.as_slice();
    let headers = sheet_header_keys(rows, row_opts.columns.as_slice(), opts);
    let records = if opts.capture_rows() {
        let start = if opts.omit_header {
            0
        } else {
            opts.header_row_index() + 1
        };
        capture_rows(rows, &row_opts, &headers, start, max_rows)
    } else {
        let none: Vec<IndexMap<String, CellValue>> = Vec::new();
        assert(records_view(none@) =~= Seq::empty());
        none
    };
    SheetDataSet::new(sheet.name.as_str(), headers.as_slice(), records.as_slice(), rows.len())
}

/// The number of rows in the first `n` loaded sheets together.
pub open spec fn row_count(sheets: Seq<SheetSource>, n: nat) -> nat
    decreases n,
{
    if n == 0 || n > sheets.len() {
        0
    } else {
        row_count(sheets, (n - 1) as nat) + sheets[n - 1].rows@.len()
    }
}

/// A preview counts every row of every sheet.
pub proof fn lemma_preview_counts_rows(sheets: Seq<SheetSource>, o: OptionSetView, limit: nat, n: nat)
    requires
        n <= sheets.len(),
    ensures
        total_rows(preview_sheets(sheets, o, limit), n) == row_count(sheets, n),
    decreases n,
{
    if n > 0 {
        lemma_preview_counts_rows(sheets, o, limit, (n - 1) as nat);
    }
}

/// Reads every sheet of a workbook: for each, the keys of its columns, its
/// data rows as records up to `max_rows`, and the number of its rows. The
/// declared columns apply to the first sheet only.
pub fn read_multiple_worksheets(
    sheets: &[SheetSource],
    opts: &OptionSet,
    info: &WorkbookInfo,
    max_rows: usize,
) -> (r: ResultSet)
    requires
        row_count(sheets@, sheets@.len()) <= usize::MAX,
    ensures
        r@ == multiple_result(preview_sheets(sheets@, opts@, max_rows as nat), info@),
{
    let ghost expected = preview_sheets(sheets@, opts@, max_rows as nat);
    proof {
        lemma_preview_counts_rows(sheets@, opts@, max_rows as nat, sheets@.len());
    }
    let mut out: Vec<SheetDataSet> = Vec::new();
    let mut sheet_index: usize = 0;
    while sheet_index < sheets.len()
        invariant
            sheet_index <= sheets.len(),
            out.len() == sheet_index,
            expected == preview_sheets(sheets@, opts@, max_rows as nat),
            forall|j: int| 0 <= j < sheet_index ==> out@[j]@ == expected[j],
        decreases sheets.len() - sheet_index,
    {
        out.push(read_preview_sheet(&sheets[sheet_index], opts, sheet_index, max_rows));
        sheet_index += 1;
    }
    assert(sheets_view(out@) =~= expected);
    ResultSet::from_multiple(out.as_slice(), info)
}

/// The names of loaded sheets.
pub open spec fn source_names(sheets: Seq<SheetSource>) -> Seq<Seq<char>> {
    Seq::new(sheets.len(), |i: int| sheets[i].name@)
}

/// The names of loaded sheets.
pub fn sheet_source_names(sheets: &[SheetSource]) -> (r: Vec<String>)
    ensures
        strings_view(r@) == source_names(sheets@),
{
    let mut names: Vec<String> = Vec::new();
    let mut i: usize = 0;
    while i < sheets.len()
        invariant
            i <= sheets.len(),
            names.len() == i,
            forall|j: int| 0 <= j < i ==> names@[j]@ == sheets@[j].name@,
        decreases sheets.len() - i,
    {
        names.push(sheets[i].name.clone());
        i += 1;
    }
    assert(strings_view(names@) =~= source_names(sheets@));
    names
}

/// The keys of the columns of a delimited file: built from its first line,
/// or none where the options say that the file has no header.
pub open spec fn csv_headers(header: Seq<Seq<char>>, o: OptionSetView) -> Seq<Seq<char>> {
    if o.omit_header {
        Seq::empty()
    } else {
        header_keys(header, o.rows.columns, o.field_mode)
    }
}

/// The records of the first `n` lines of a delimited file.
pub open spec fn csv_records(
    records: Seq<Seq<Seq<char>>>,
    row_opts: RowOptionSetView,
    headers: Seq<Seq<char>>,
    n: nat,
) -> Seq<Seq<(Seq<char>, CellValueView)>> {
    Seq::new(n, |i: int| record_of(coerced_csv_row(records[i], row_opts), headers))
}

/// The number of lines kept of a delimited file: all of them up to the maximum.
pub open spec fn csv_kept(count: nat, o: OptionSetView) -> nat {
    if count < max_rows_of(o) {
        count
    } else {
        max_rows_of(o)
    }
}

/// The fields of the lines of a delimited file.
pub open spec fn lines_view(records: Seq<Vec<String>>) -> Seq<Seq<Seq<char>>> {
    Seq::new(records.len(), |i: int| strings_view(records[i]@))
}

/// The result of reading a delimited file.
///
/// The number of rows counts every line, the first among them. In `Async`
/// mode no row is kept.
pub open spec fn csv_result(
    header: Seq<Seq<char>>,
    records: Seq<Seq<Seq<char>>>,
    o: OptionSetView,
    info: WorkbookInfoView,
    out_ref: Option<Seq<char>>,
) -> ResultSetView {
    let headers = csv_headers(header, o);
    single_result(
        info,
        headers,
        if o.read_mode == ReadMode::Async {
            DataSetView::Count(records.len() + 1)
        } else {
            DataSetView::WithRows(
                records.len() + 1,
                csv_records(records, o.rows, headers, csv_kept(records.len(), o)),
            )
        },
        out_ref,
    )
}

/// The record of one line of a delimited file.
pub fn csv_row_to_map(record: &[String], opts: &RowOptionSet, headers: &[String]) -> (r: IndexMap<
    String,
    CellValue,
>)
    ensures
        record_entries(r) == record_of(
            coerced_csv_row(strings_view(record@), opts@),
            strings_view(headers@),
        ),
{
    let values = csv_row_to_values(record, opts);
    to_index_map(values.as_slice(), headers)
}

/// Reads a delimited file from its first line and the lines after it:
/// builds the keys of the columns, keeps the lines as records up to the
/// maximum of the options, and counts all lines.
pub fn read_csv_core(
    header: &[String],
    records: &[Vec<String>],
    opts: &OptionSet,
    info: &WorkbookInfo,
    out_ref: Option<&str>,
) -> (r: ResultSet)
    requires
        records@.len() < usize::MAX,
    ensures
        r@ == csv_result(
            strings_view(header@),
            lines_view(records@),
            opts@,
            info@,
            optional_str(out_ref),
        ),
        r@.num_rows == records@.len() + 1,
        opts@.read_mode == ReadMode::Async ==> r@.data == SpreadDataView::Single(Seq::empty()),
{
    let headers: Vec<String> = if opts.omit_header {
        let none: Vec<String> = Vec::new();
        assert(strings_view(none@) =~= Seq::<Seq<char>>::empty());
        none
    } else {
        build_header_keys(header, opts.rows.columns.as_slice(), &opts.field_mode)
    };
    let mut rows: Vec<IndexMap<String, CellValue>> = Vec::new();
    let ghost lines = lines_view(records@);
    let ghost keys = strings_view(headers@);
    assert(records_view(rows@) =~= csv_records(lines, opts@.rows, keys, 0));
    if opts.capture_rows() {
        let max_line = opts.max_rows();
        let kept = if records.len() < max_line {
            records.len()
        } else {
            max_line
        };
        let mut i: usize = 0;
        while i < kept
            invariant
                i <= kept <= records@.len(),
                lines == lines_view(records@),
                keys == strings_view(headers@),
                records_view(rows@) == csv_records(lines, opts@.rows, keys, i as nat),
            decreases kept - i,
        {
            let ghost before = records_view(rows@);
            assert(lines[i as int] == strings_view(records@[i as int]@));
            let record = csv_row_to_map(records[i].as_slice(), &opts.rows, headers.as_slice());
            rows.push(record);
            assert(records_view(rows@) =~= before.push(record_entries(record)));
            assert(csv_records(lines, opts@.rows, keys, (i + 1) as nat) =~= csv_records(
                lines,
                opts@.rows,
                keys,
                i as nat,
            ).push(record_of(coerced_csv_row(lines[i as int], opts@.rows), keys)));
            i += 1;
        }
    }
    let total = records.len() + 1;
    let ds = DataSet::from_count_and_rows(total, rows, opts);
    ResultSet::new(info, headers.as_slice(), ds, out_ref)
}

/// The byte that separates the fields of a delimited file of a kind: a tab
/// for `Tsv`, a comma otherwise.
pub fn delimiter_for(ext: Extension) -> (r: u8)
    ensures
        r == (if ext == Extension::Tsv {
            9u8
        } else {
            44u8
        }),
{
    match ext {
        Extension::Tsv => 9,
        _ => 44,
    }
}

/// What is known of a workbook with the given file name.
pub open spec fn workbook_info(
    filename: Seq<char>,
    ext: Extension,
    sheets: Seq<SheetSource>,
    o: OptionSetView,
) -> WorkbookInfoView {
    let names = source_names(sheets);
    WorkbookInfoView {
        filename,
        extension: ext.name(),
        selected: Some(crate::data_set::names_at(names, crate::data_set::selected_positions(names, o))),
        sheets: names,
    }
}

/// What is known of a delimited file with the given file name.
pub open spec fn delimited_info(filename: Seq<char>, ext: Extension) -> WorkbookInfoView {
    WorkbookInfoView { filename, extension: ext.name(), selected: None, sheets: seq!["single"@] }
}

/// The result of reading a loaded workbook, if it has a sheet.
pub open spec fn workbook_result(
    sheets: Seq<SheetSource>,
    o: OptionSetView,
    info: WorkbookInfoView,
    out_ref: Option<Seq<char>>,
) -> ResultSetView {
    if o.read_mode == ReadMode::PreviewMultiple {
        multiple_result(preview_sheets(sheets, o, max_rows_of(o)), info)
    } else {
        let at = crate::data_set::selected_positions(source_names(sheets), o)[0];
        single_sheet_result(sheet_view(sheets[at as int].rows@), o, info, out_ref)
    }
}

/// Reads a loaded workbook: every sheet in `PreviewMultiple` mode, else the
/// first of the sheets that the options select. A workbook without sheets
/// fails with `workbook_with_no_sheets`.
pub fn read_workbook_core(
    path_data: &PathData,
    sheets: &[SheetSource],
    opts: &OptionSet,
    out_ref: Option<&str>,
) -> (r: Result<ResultSet, GenericError>)
    requires
        row_count(sheets@, sheets@.len()) <= usize::MAX,
    ensures
        r is Ok <==> sheets@.len() > 0,
        r is Err ==> r->Err_0.code() == "workbook_with_no_sheets"@,
        r is Ok ==> r->Ok_0@ == workbook_result(
            sheets@,
            opts@,
            workbook_info(path_data.file_label(), path_data.kind(), sheets@, opts@),
            optional_str(out_ref),
        ),
{
    let max_rows = opts.max_rows();
    let sheet_names = sheet_source_names(sheets);
    let (selected_names, all_names, sheet_indices) = match_sheet_name_and_index(
        sheet_names.as_slice(),
        opts,
    );
    if sheets.len() > 0 {
        let info = WorkbookInfo::new(path_data, selected_names.as_slice(), all_names.as_slice());
        if opts.multimode() {
            Ok(read_multiple_worksheets(sheets, opts, &info, max_rows))
        } else {
            proof {
                lemma_selected_positions_exist(source_names(sheets@), opts@);
            }
            let at = sheet_indices[0];
            Ok(read_single_worksheet(sheets[at].rows.as_slice(), opts, &info, out_ref))
        }
    } else {
        Err(GenericError("workbook_with_no_sheets"))
    }
}

/// Every selected position is that of a sheet, and there is at least one,
/// if the workbook has a sheet.
pub proof fn lemma_selected_positions_exist(names: Seq<Seq<char>>, o: OptionSetView)
    requires
        0 < names.len() <= usize::MAX,
    ensures
        crate::data_set::selected_positions(names, o).len() > 0,
        forall|i: int|
            0 <= i < crate::data_set::selected_positions(names, o).len()
                ==> (#[trigger] crate::data_set::selected_positions(names, o)[i]) < names.len(),
{
    match o.selected {
        Some(keys) => {
            lemma_positions_by_name_exist(names, keys);
        },
        None => {},
    }
    lemma_positions_by_index_exist(names.len(), o.indices);
}

/// Every position found by name is that of a sheet.
proof fn lemma_positions_by_name_exist(names: Seq<Seq<char>>, keys: Seq<Seq<char>>)
    requires
        names.len() <= usize::MAX,
    ensures
        forall|i: int|
            0 <= i < crate::data_set::positions_by_name(names, keys).len()
                ==> (#[trigger] crate::data_set::positions_by_name(names, keys)[i]) < names.len(),
    decreases keys.len(),
{
    if keys.len() > 0 {
        lemma_positions_by_name_exist(names, keys.drop_last());
        let earlier = crate::data_set::positions_by_name(names, keys.drop_last());
        let all = crate::data_set::positions_by_name(names, keys);
        let at = crate::data_set::sheet_position(names, keys.last());
        assert forall|i: int| 0 <= i < all.len() implies (#[trigger] all[i]) < names.len() by {
            if i < earlier.len() {
                assert(all[i] == earlier[i]);
            } else {
                assert(all[i] == at as usize);
            }
        }
    }
}

/// Every position kept from the selected positions is that of a sheet.
proof fn lemma_positions_by_index_exist(count: nat, indices: Seq<u32>)
    ensures
        forall|i: int|
            0 <= i < crate::data_set::positions_by_index(count, indices).len()
                ==> (#[trigger] crate::data_set::positions_by_index(count, indices)[i]) < count,
    decreases indices.len(),
{
    if indices.len() > 0 {
        lemma_positions_by_index_exist(count, indices.drop_last());
        let earlier = crate::data_set::positions_by_index(count, indices.drop_last());
        let all = crate::data_set::positions_by_index(count, indices);
        assert forall|i: int| 0 <= i < all.len() implies (#[trigger] all[i]) < count by {
            if i < earlier.len() {
                assert(all[i] == earlier[i]);
            } else {
                assert(all[i] == indices.last() as usize);
            }
        }
    }
}

/// The reason code with which a source that cannot be read is refused, if it is.
///
/// - Without a path: `no_filepath_specified`.
/// - With no file at the path: `file_unavailable`.
/// - With an extension that names no kind of file: `unsupported_format`.
/// - With a workbook that cannot be opened: `cannot_open_workbook`; with a
///   delimited file that cannot be: `unreadable_tsv_file` or `unreadable_csv_file`.
/// - With a file that could not be reached or a sheet that could not be
///   read: the reason code of the error that the source carries.
/// - With a workbook without sheets: `workbook_with_no_sheets`.
///
/// A source that was loaded as a workbook is read as one if the extension
/// names any kind of file, and likewise a delimited one.
pub open spec fn refusal_of(o: OptionSetView, ext: Extension, source: Source) -> Option<Seq<char>> {
    if o.path is None {
        Some("no_filepath_specified"@)
    } else {
        match source {
            Source::Unavailable => Some("file_unavailable"@),
            _ => if ext == Extension::Unmatched {
                Some("unsupported_format"@)
            } else {
                match source {
                    Source::Unreadable => Some(
                        if ext == Extension::Tsv {
                            "unreadable_tsv_file"@
                        } else if ext == Extension::Csv {
                            "unreadable_csv_file"@
                        } else {
                            "cannot_open_workbook"@
                        },
                    ),
                    Source::Failed(error) => Some(error.code()),
                    Source::Workbook(sheets) => if sheets@.len() == 0 {
                        Some("workbook_with_no_sheets"@)
                    } else {
                        None
                    },
                    _ => None,
                }
            },
        }
    }
}

/// Whether the sizes of a loaded source fit the machine: the number of rows
/// of all sheets together, or the number of lines, can be counted.
pub open spec fn source_fits(source: Source) -> bool {
    match source {
        Source::Workbook(sheets) => row_count(sheets@, sheets@.len()) <= usize::MAX,
        Source::Delimited { header, records } => records@.len() < usize::MAX,
        _ => true,
    }
}

/// The result of reading a loaded source that is not refused, given the
/// name of the file.
pub open spec fn source_result(
    o: OptionSetView,
    ext: Extension,
    source: Source,
    filename: Seq<char>,
    out_ref: Option<Seq<char>>,
) -> ResultSetView {
    match source {
        Source::Delimited { header, records } => csv_result(
            strings_view(header@),
            lines_view(records@),
            o,
            delimited_info(filename, ext),
            out_ref,
        ),
        Source::Workbook(sheets) => workbook_result(
            sheets@,
            o,
            workbook_info(filename, ext, sheets@, o),
            out_ref,
        ),
        _ => arbitrary(),
    }
}

/// Reads a loaded source under the options, given the kind of file that the
/// extension of its path names.
///
/// Fails with the reason code of [`refusal_of`] if and only if there is
/// one; else gives the result of reading the workbook or the delimited file.
pub fn process_source(
    opts: &OptionSet,
    path_data: &PathData,
    source: &Source,
    out_ref: Option<&str>,
) -> (r: Result<ResultSet, GenericError>)
    requires
        source_fits(*source),
    ensures
        r is Err <==> refusal_of(opts@, path_data.kind(), *source) is Some,
        r is Err ==> Some(r->Err_0.code()) == refusal_of(opts@, path_data.kind(), *source),
        r is Ok ==> r->Ok_0@ == source_result(
            opts@,
            path_data.kind(),
            *source,
            path_data.file_label(),
            optional_str(out_ref),
        ),
{
    if opts.path.is_none() {
        return Err(GenericError("no_filepath_specified"));
    }
    match source {
        Source::Unavailable => Err(GenericError("file_unavailable")),
        Source::Unreadable => {
            if !path_data.is_valid() {
                Err(GenericError("unsupported_format"))
            } else {
                match path_data.ext() {
                    Extension::Tsv => Err(GenericError("unreadable_tsv_file")),
                    Extension::Csv => Err(GenericError("unreadable_csv_file")),
                    _ => Err(GenericError("cannot_open_workbook")),
                }
            }
        },
        Source::Failed(error) => {
            if !path_data.is_valid() {
                Err(GenericError("unsupported_format"))
            } else {
                Err(GenericError(error.0))
            }
        },
        Source::Workbook(sheets) => {
            if !path_data.is_valid() {
                Err(GenericError("unsupported_format"))
            } else {
                read_workbook_core(path_data, sheets.as_slice(), opts, out_ref)
            }
        },
        Source::Delimited { header, records } => {
            if !path_data.is_valid() {
                Err(GenericError("unsupported_format"))
            } else {
                let info = WorkbookInfo::simple(path_data);
                Ok(
                    read_csv_core(
                        header.as_slice(),
                        records.as_slice(),
                        opts,
                        &info,
                        out_ref,
                    ),
                )
            }
        },
    }
}

/// The record that the producer sends for the row at a position, if it
/// sends one: rows before the first data row are passed over, and so is a
/// first data row that repeats the header.
pub open spec fn streamed_record(
    rows: Seq<Seq<RawCellView>>,
    o: OptionSetView,
    headers: Seq<Seq<char>>,
    index: int,
) -> Option<Seq<(Seq<char>, CellValueView)>> {
    let record = row_record(rows, o.rows, headers, index);
    if index >= first_data_index(o) && is_data_row(
        record,
        (index - first_data_index(o)) as nat,
        headers,
    ) {
        Some(record)
    } else {
        None
    }
}

/// The record that the producer sends for the row at a position, if it sends one.
pub fn stream_record(
    rows: &[Vec<RawCell>],
    index: usize,
    opts: &OptionSet,
    headers: &Vec<String>,
) -> (r: Option<IndexMap<String, CellValue>>)
    requires
        index < rows@.len(),
    ensures
        match r {
            Some(record) => streamed_record(
                sheet_view(rows@),
                opts@,
                strings_view(headers@),
                index as int,
            ) == Some(record_entries(record)),
            None => streamed_record(sheet_view(rows@), opts@, strings_view(headers@), index as int)
                is None,
        },
{
    assert(sheet_view(rows@)[index as int] == cells_view(rows@[index as int]@));
    let start = if opts.omit_header {
        0
    } else {
        opts.header_row_index() + 1
    };
    if index < start {
        return None;
    }
    let record = workbook_row_to_map(rows[index].as_slice(), &opts.rows, headers.as_slice());
    if is_not_header_row(&record, index - start, headers) {
        Some(record)
    } else {
        None
    }
}

/// A read that keeps rows keeps the records that the producer would send,
/// in order, until the limit is reached.
pub proof fn lemma_kept_rows_are_streamed_rows(
    rows: Seq<Seq<RawCellView>>,
    o: OptionSetView,
    headers: Seq<Seq<char>>,
    limit: nat,
    n: nat,
)
    requires
        0 < n <= rows.len(),
        n > first_data_index(o),
    ensures
        captured_upto(rows, o.rows, headers, first_data_index(o), limit, n) == {
            let earlier = captured_upto(
                rows,
                o.rows,
                headers,
                first_data_index(o),
                limit,
                (n - 1) as nat,
            );
            match streamed_record(rows, o, headers, n - 1) {
                Some(record) => if earlier.len() < limit {
                    earlier.push(record)
                } else {
                    earlier
                },
                None => earlier,
            }
        },
{
}

/// Whether the sizes of a loaded source fit the machine, so that it can be
/// handed to [`process_spreadsheet_core`].
pub fn source_is_countable(source: &Source) -> (r: bool)
    ensures
        r == source_fits(*source),
{
    match source {
        Source::Workbook(sheets) => {
            let mut total: usize = 0;
            let mut i: usize = 0;
            while i < sheets.len()
                invariant
                    i <= sheets.len(),
                    *source == Source::Workbook(*sheets),
                    total == row_count(sheets@, i as nat),
                decreases sheets.len() - i,
            {
                let n = sheets[i].rows.len();
                if n > usize::MAX - total {
                    proof {
                        assert(row_count(sheets@, (i + 1) as nat) == total + n);
                        lemma_row_count_grows(sheets@, (i + 1) as nat, sheets@.len());
                    }
                    return false;
                }
                total += n;
                i += 1;
            }
            true
        },
        Source::Delimited { header, records } => records.len() < usize::MAX,
        _ => true,
    }
}

/// More sheets hold at least as many rows as fewer.
pub proof fn lemma_row_count_grows(sheets: Seq<SheetSource>, n: nat, m: nat)
    requires
        n <= m <= sheets.len(),
    ensures
        row_count(sheets, n) <= row_count(sheets, m),
    decreases m,
{
    if n < m {
        lemma_row_count_grows(sheets, n, (m - 1) as nat);
    }
}

/// Reads a loaded source under the options: see [`process_source`]. The
/// kind of file is told by the extension of the path in the options.
pub fn process_spreadsheet_core(opts: &OptionSet, source: &Source, out_ref: Option<&str>) -> (r:
    Result<ResultSet, GenericError>)
    requires
        source_fits(*source),
    ensures
        opts@.path is None ==> r is Err && r->Err_0.code() == "no_filepath_specified"@,
        opts@.path is Some && *source is Unavailable ==> r is Err && r->Err_0.code()
            == "file_unavailable"@,
        r is Err ==> exists|ext: Extension|
            Some(r->Err_0.code()) == #[trigger] refusal_of(opts@, ext, *source),
        r is Ok ==> exists|ext: Extension|
            r->Ok_0@ == #[trigger] source_result(
                opts@,
                ext,
                *source,
                r->Ok_0@.filename,
                optional_str(out_ref),
            ) && refusal_of(opts@, ext, *source) is None,
{
    match &opts.path {
        Some(filepath) => {
            let path_data = PathData::new(filepath.as_str());
            let r = process_source(opts, &path_data, source, out_ref);
            proof {
                if r is Err {
                    assert(Some(r->Err_0.code()) == refusal_of(opts@, path_data.kind(), *source));
                } else {
                    assert(r->Ok_0@ == source_result(
                        opts@,
                        path_data.kind(),
                        *source,
                        r->Ok_0@.filename,
                        optional_str(out_ref),
                    ));
                }
            }
            r
        },
        None => {
            assert(refusal_of(opts@, Extension::Unmatched, *source) == Some(
                "no_filepath_specified"@,
            ));
            Err(GenericError("no_filepath_specified"))
        },
    }
}

/// Reads a loaded source under the options, with the rows kept in the result.
pub fn process_spreadsheet_direct(opts: &OptionSet, source: &Source) -> (r: Result<
    ResultSet,
    GenericError,
>)
    requires
        source_fits(*source),
    ensures
        opts@.path is None ==> r is Err && r->Err_0.code() == "no_filepath_specified"@,
        opts@.path is Some && *source is Unavailable ==> r is Err && r->Err_0.code()
            == "file_unavailable"@,
        r is Err ==> exists|ext: Extension|
            Some(r->Err_0.code()) == #[trigger] refusal_of(opts@, ext, *source),
        r is Ok ==> exists|ext: Extension|
            r->Ok_0@ == #[trigger] source_result(opts@, ext, *source, r->Ok_0@.filename, None)
                && refusal_of(opts@, ext, *source) is None,
{
    process_spreadsheet_core(opts, source, None)
}

/// The records of all the data rows of a sheet, in the order of the source:
/// what is handed to a sink, whatever the maximum of rows to keep.
pub open spec fn streamed_records(
    rows: Seq<Seq<RawCellView>>,
    o: OptionSetView,
    headers: Seq<Seq<char>>,
) -> Seq<Seq<(Seq<char>, CellValueView)>> {
    captured_upto(rows, o.rows, headers, first_data_index(o), rows.len(), rows.len())
}

/// Reads one sheet and hands the record of every data row to a sink, one
/// by one and in the order of the source, until the sink fails.
///
/// If the sink saved every record, gives the result of reading the sheet.
/// If the sink failed, gives its error: the sink saved every record before
/// the one it failed on and was handed none after it.
pub fn deliver_sheet<F: Fn(&IndexMap<String, CellValue>) -> Result<(), GenericError>>(
    rows: &[Vec<RawCell>],
    opts: &OptionSet,
    info: &WorkbookInfo,
    save: &F,
    out_ref: Option<&str>,
) -> (r: Result<ResultSet, GenericError>)
    requires
        forall|record: &IndexMap<String, CellValue>| save.requires((record,)),
    ensures
        exists|records: Seq<IndexMap<String, CellValue>>|
            {
                &&& #[trigger] records_view(records) == streamed_records(
                    sheet_view(rows@),
                    opts@,
                    sheet_headers(sheet_view(rows@), opts@.rows.columns, opts@),
                )
                &&& match r {
                    Ok(result) => result@ == single_sheet_result(
                        sheet_view(rows@),
                        opts@,
                        info@,
                        optional_str(out_ref),
                    ) && forall|i: int|
                        0 <= i < records.len() ==> save.ensures((&#[trigger] records[i],), Ok(())),
                    Err(e) => exists|k: int|
                        0 <= k < records.len() && save.ensures((&#[trigger] records[k],), Err(e))
                            && forall|i: int|
                            0 <= i < k ==> save.ensures((&#[trigger] records[i],), Ok(())),
                }
            },
{
    let headers = sheet_header_keys(rows, opts.rows.columns.as_slice(), opts);
    let start = if opts.omit_header {
        0
    } else {
        opts.header_row_index() + 1
    };
    let records = capture_rows(rows, &opts.rows, &headers, start, rows.len());
    match deliver_rows(&records, save) {
        Ok(_) => {
            let result = read_single_worksheet(rows, opts, info, out_ref);
            assert(records_view(records@) == streamed_records(
                sheet_view(rows@),
                opts@,
                sheet_headers(sheet_view(rows@), opts@.rows.columns, opts@),
            ));
            Ok(result)
        },
        Err(e) => {
            assert(records_view(records@) == streamed_records(
                sheet_view(rows@),
                opts@,
                sheet_headers(sheet_view(rows@), opts@.rows.columns, opts@),
            ));
            Err(e)
        },
    }
}

} // verus!
