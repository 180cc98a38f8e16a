//! Reading a sheet row by row.
//!
//! A reader takes the rows of a sheet one at a time. It waits for the header
//! row, then keeps the rows that follow as records, or hands them on where
//! rows are delivered rather than kept, and counts every row it is given.

use vstd::prelude::*;
use vstd::string::*;
use indexmap::IndexMap;
use crate::cell::{cells_view, RawCell, RawCellView};
use crate::column::{clone_columns, columns_view, Column, ColumnView, RowOptionSet,
    RowOptionSetView};
use crate::headers::{build_header_keys, is_data_row, is_not_header_row};
use crate::modes::ReadMode;
use crate::options::{OptionSet, OptionSetView};
use crate::pipeline::{captured_upto, csv_headers, csv_kept, csv_records, csv_row_to_map,
    first_data_index, row_display_texts, row_record, sheet_headers, sheet_records};
use crate::reader::{coerced_csv_row, record_of, workbook_row_to_map};
use crate::text::strings_view;
use crate::value::{record_entries, records_view, CellValue, CellValueView};

verus! {

/// Where the reading of a sheet stands.
#[derive(Debug, Clone, Copy, PartialEq, Eq, Structural)]
pub enum ReadPhase {
    /// The header row has not been reached.
    HeaderPending,
    /// The rows that come are kept as records.
    Capturing,
    /// The rows that come are counted and handed on, not kept.
    Counting,
    /// The sheet has ended.
    Done,
}

/// What became of a row that was given to the reader.
#[derive(Debug)]
pub enum RowOutcome {
    /// The row lies before the header row.
    Skipped,
    /// The row is the header row: it gives the keys and is no record.
    Header,
    /// The row was kept as a record.
    Kept,
    /// The row is data, but the limit of records to keep is reached.
    OverLimit,
    /// The row is the first data row, repeats the header and was dropped.
    Repeated,
    /// The row is data to hand on: here is its record.
    Streamed(IndexMap<String, CellValue>),
    /// The sheet has ended already; the row was ignored.
    Ignored,
}

/// A reader of the rows of one sheet.
pub struct SheetReader {
    opts: OptionSet,
    columns: Vec<Column>,
    row_opts: RowOptionSet,
    limit: usize,
    total: usize,
    headers: Vec<String>,
    kept: Vec<IndexMap<String, CellValue>>,
    closed: bool,
    history: Ghost<Seq<Seq<RawCellView>>>,
}

/// The phase after `count` rows under the options.
pub open spec fn phase_after(count: nat, o: OptionSetView, closed: bool) -> ReadPhase {
    if closed {
        ReadPhase::Done
    } else if count < first_data_index(o) {
        ReadPhase::HeaderPending
    } else if o.read_mode == ReadMode::Async {
        ReadPhase::Counting
    } else {
        ReadPhase::Capturing
    }
}

/// The mathematical content of a [`RowOutcome`].
pub enum RowOutcomeView {
    Skipped,
    Header,
    Kept,
    OverLimit,
    Repeated,
    Streamed(Seq<(Seq<char>, CellValueView)>),
    Ignored,
}

/// The content of an outcome.
pub open spec fn outcome_view(outcome: RowOutcome) -> RowOutcomeView {
    match outcome {
        RowOutcome::Skipped => RowOutcomeView::Skipped,
        RowOutcome::Header => RowOutcomeView::Header,
        RowOutcome::Kept => RowOutcomeView::Kept,
        RowOutcome::OverLimit => RowOutcomeView::OverLimit,
        RowOutcome::Repeated => RowOutcomeView::Repeated,
        RowOutcome::Streamed(record) => RowOutcomeView::Streamed(record_entries(record)),
        RowOutcome::Ignored => RowOutcomeView::Ignored,
    }
}

/// What becomes of the next row of a sheet that has not ended.
///
/// - While the header row lies ahead, the row is skipped; the header row
///   itself only gives the keys and is no record.
/// - Every row after the header row is data, and every row of a sheet
///   without header. The first data row is dropped if it repeats the header.
/// - Where rows are delivered rather than kept, the record of a data row
///   is handed on. Otherwise it is kept as long as fewer records than the
///   ceiling are held.
pub open spec fn row_outcome(
    seen: Seq<Seq<RawCellView>>,
    row: Seq<RawCellView>,
    o: OptionSetView,
    row_opts: RowOptionSetView,
    declared: Seq<ColumnView>,
    held: nat,
    ceiling: nat,
) -> RowOutcomeView {
    let index = seen.len();
    let now = seen.push(row);
    let keys = sheet_headers(now, declared, o);
    let record = row_record(now, row_opts, keys, index as int);
    if !o.omit_header && index < o.header_row {
        RowOutcomeView::Skipped
    } else if !o.omit_header && index == o.header_row {
        RowOutcomeView::Header
    } else if !is_data_row(record, (index - first_data_index(o)) as nat, keys) {
        RowOutcomeView::Repeated
    } else if o.read_mode == ReadMode::Async {
        RowOutcomeView::Streamed(record)
    } else if held < ceiling {
        RowOutcomeView::Kept
    } else {
        RowOutcomeView::OverLimit
    }
}

/// The records kept among the rows before position `n` do not depend on the rows from `n` on.
pub proof fn lemma_captured_prefix(
    a: Seq<Seq<RawCellView>>,
    b: Seq<Seq<RawCellView>>,
    row_opts: RowOptionSetView,
    headers: Seq<Seq<char>>,
    start: nat,
    limit: nat,
    n: nat,
)
    requires
        n <= a.len(),
        n <= b.len(),
        forall|i: int| 0 <= i < n ==> a[i] == b[i],
    ensures
        captured_upto(a, row_opts, headers, start, limit, n) == captured_upto(
            b,
            row_opts,
            headers,
            start,
            limit,
            n,
        ),
    decreases n,
{
    if n > start {
        lemma_captured_prefix(a, b, row_opts, headers, start, limit, (n - 1) as nat);
        assert(a[n - 1] == b[n - 1]);
    }
}

/// Up to the first data row nothing is kept, whatever the keys.
pub proof fn lemma_nothing_kept_before_start(
    rows: Seq<Seq<RawCellView>>,
    row_opts: RowOptionSetView,
    headers: Seq<Seq<char>>,
    start: nat,
    limit: nat,
    n: nat,
)
    requires
        n <= start,
    ensures
        captured_upto(rows, row_opts, headers, start, limit, n).len() == 0,
{
}

impl SheetReader {
    /// The rows given so far, in order.
    pub closed spec fn seen(&self) -> Seq<Seq<RawCellView>> {
        self.history@
    }

    /// The options under which the sheet is read.
    pub closed spec fn options(&self) -> OptionSetView {
        self.opts@
    }

    /// The declared columns from which the keys are built.
    pub closed spec fn declared(&self) -> Seq<ColumnView> {
        columns_view(self.columns@)
    }

    /// The row options under which the cells are coerced.
    pub closed spec fn row_options(&self) -> RowOptionSetView {
        self.row_opts@
    }

    /// The greatest number of records kept.
    pub closed spec fn ceiling(&self) -> nat {
        self.limit as nat
    }

    /// Whether the sheet has ended.
    pub closed spec fn ended(&self) -> bool {
        self.closed
    }

    /// The keys of the columns as they stand.
    pub closed spec fn keys(&self) -> Seq<Seq<char>> {
        strings_view(self.headers@)
    }

    /// The records kept so far.
    pub closed spec fn records(&self) -> Seq<Seq<(Seq<char>, CellValueView)>> {
        records_view(self.kept@)
    }

    /// The number of rows given so far.
    pub closed spec fn count(&self) -> nat {
        self.total as nat
    }

    /// What holds of every reader: it has counted the rows it was given,
    /// its keys are those of the rows it was given, and it has kept the
    /// records that a read of those rows keeps.
    #[verifier::type_invariant]
    spec fn wf(&self) -> bool {
        &&& self.total == self.history@.len()
        &&& strings_view(self.headers@) == sheet_headers(
            self.history@,
            columns_view(self.columns@),
            self.opts@,
        )
        &&& records_view(self.kept@) == sheet_records(
            self.history@,
            self.row_opts@,
            strings_view(self.headers@),
            self.opts@,
            self.limit as nat,
        )
    }

    /// A reader that has been given no row yet.
    pub fn new(opts: &OptionSet, columns: &[Column], row_opts: &RowOptionSet, limit: usize) -> (r:
        Self)
        ensures
            r.seen() == Seq::<Seq<RawCellView>>::empty(),
            r.options() == opts@,
            r.declared() == columns_view(columns@),
            r.row_options() == row_opts@,
            r.ceiling() == limit,
            !r.ended(),
            r.count() == 0,
    {
        let headers: Vec<String> = Vec::new();
        let kept: Vec<IndexMap<String, CellValue>> = Vec::new();
        assert(strings_view(headers@) =~= Seq::<Seq<char>>::empty());
        assert(records_view(kept@) =~= Seq::empty());
        SheetReader {
            opts: opts.duplicate(),
            columns: clone_columns(columns),
            row_opts: row_opts.duplicate(),
            limit,
            total: 0,
            headers,
            kept,
            closed: false,
            history: Ghost(Seq::empty()),
        }
    }

    /// A reader for a single sheet under the options.
    pub fn for_sheet(opts: &OptionSet) -> (r: Self)
        ensures
            r.seen() == Seq::<Seq<RawCellView>>::empty(),
            r.options() == opts@,
            r.declared() == opts@.rows.columns,
            r.row_options() == opts@.rows,
            r.ceiling() == crate::options::max_rows_of(opts@),
            !r.ended(),
            r.count() == 0,
    {
        SheetReader::new(opts, opts.rows.columns.as_slice(), &opts.rows, opts.max_rows())
    }

    /// Where the reading stands.
    pub fn phase(&self) -> (r: ReadPhase)
        ensures
            r == phase_after(self.count(), self.options(), self.ended()),
    {
        if self.closed {
            ReadPhase::Done
        } else {
            let pending = !self.opts.omit_header && self.total <= self.opts.header_row_index();
            if pending {
                ReadPhase::HeaderPending
            } else if self.opts.is_async() {
                ReadPhase::Counting
            } else {
                ReadPhase::Capturing
            }
        }
    }

    /// The number of rows given so far.
    pub fn total(&self) -> (r: usize)
        ensures
            r == self.count(),
            r == self.seen().len(),
    {
        proof {
            use_type_invariant(self);
        }
        self.total
    }

    /// The keys of the columns as they stand: those of a read of the rows given so far.
    pub fn header_keys(&self) -> (r: Vec<String>)
        ensures
            strings_view(r@) == self.keys(),
            self.keys() == sheet_headers(self.seen(), self.declared(), self.options()),
    {
        proof {
            use_type_invariant(self);
        }
        crate::text::clone_strings(self.headers.as_slice())
    }

    /// The records kept so far: those that a read of the rows given so far keeps.
    pub fn kept_rows(&self) -> (r: Vec<IndexMap<String, CellValue>>)
        ensures
            records_view(r@) == self.records(),
            self.records() == sheet_records(
                self.seen(),
                self.row_options(),
                self.keys(),
                self.options(),
                self.ceiling(),
            ),
    {
        proof {
            use_type_invariant(self);
        }
        crate::value::clone_records(self.kept.as_slice())
    }

    /// Ends the sheet: rows given afterwards are ignored.
    pub fn end(self) -> (r: Self)
        ensures
            r.ended(),
            r.seen() == self.seen(),
            r.options() == self.options(),
            r.declared() == self.declared(),
            r.row_options() == self.row_options(),
            r.ceiling() == self.ceiling(),
            r.keys() == self.keys(),
            r.records() == self.records(),
            r.count() == self.count(),
    {
        proof {
            use_type_invariant(&self);
        }
        let SheetReader { opts, columns, row_opts, limit, total, headers, kept, closed, history } =
            self;
        SheetReader { opts, columns, row_opts, limit, total, headers, kept, closed: true, history }
    }

    /// Gives the reader the next row of the sheet.
    ///
    /// The reader that results has seen the row, unless the sheet had
    /// ended. The outcome tells what became of the row: see [`row_outcome`].
    pub fn push_row(self, row: &[RawCell]) -> (r: (Self, RowOutcome))
        requires
            self.count() < usize::MAX,
        ensures
            r.0.options() == self.options(),
            r.0.declared() == self.declared(),
            r.0.row_options() == self.row_options(),
            r.0.ceiling() == self.ceiling(),
            r.0.ended() == self.ended(),
            self.ended() ==> r.1 is Ignored && r.0.seen() == self.seen() && r.0.keys()
                == self.keys() && r.0.records() == self.records() && r.0.count() == self.count(),
            !self.ended() ==> r.0.seen() == self.seen().push(cells_view(row@)) && r.0.count()
                == self.count() + 1 && outcome_view(r.1) == row_outcome(
                self.seen(),
                cells_view(row@),
                self.options(),
                self.row_options(),
                self.declared(),
                self.records().len(),
                self.ceiling(),
            ),
            r.0.keys() == sheet_headers(r.0.seen(), r.0.declared(), r.0.options()),
            r.0.records() == sheet_records(
                r.0.seen(),
                r.0.row_options(),
                r.0.keys(),
                r.0.options(),
                r.0.ceiling(),
            ),
    {
        proof {
            use_type_invariant(&self);
        }
        let SheetReader { opts, columns, row_opts, limit, total, headers, kept, closed, history } =
            self;
        if closed {
            return (
                SheetReader { opts, columns, row_opts, limit, total, headers, kept, closed, history },
                RowOutcome::Ignored,
            );
        }
        let ghost seen = history@;
        let ghost cells = cells_view(row@);
        let ghost now = seen.push(cells);
        let ghost start = first_data_index(opts@);
        let n = total;
        let below = !opts.omit_header && opts.header_row_index() > 0;
        let h = opts.header_row_index();
        let ghost old_keys = strings_view(headers@);
        let headers = if below && n == h {
            assert(now[h as int] == cells);
            let h_row = row_display_texts(row, true);
            build_header_keys(h_row.as_slice(), columns.as_slice(), &opts.field_mode)
        } else if n == 0 {
            assert(now[0] == cells);
            let first_row = row_display_texts(row, false);
            build_header_keys(first_row.as_slice(), columns.as_slice(), &opts.field_mode)
        } else {
            proof {
                assert(now[0] == seen[0]);
                if below && h < n {
                    assert(now[h as int] == seen[h as int]);
                }
            }
            headers
        };
        let ghost keys = strings_view(headers@);
        assert(keys == sheet_headers(now, columns_view(columns@), opts@));
        if !opts.omit_header && n <= h {
            proof {
                lemma_nothing_kept_before_start(now, row_opts@, keys, start, limit as nat, (n
                    + 1) as nat);
                lemma_nothing_kept_before_start(seen, row_opts@, old_keys, start, limit as nat, n as nat);
                assert(records_view(kept@) =~= sheet_records(
                    now,
                    row_opts@,
                    keys,
                    opts@,
                    limit as nat,
                ));
            }
            let outcome = if n < h {
                RowOutcome::Skipped
            } else {
                RowOutcome::Header
            };
            return (
                SheetReader {
                    opts,
                    columns,
                    row_opts,
                    limit,
                    total: n + 1,
                    headers,
                    kept,
                    closed,
                    history: Ghost(now),
                },
                outcome,
            );
        }
        let record = workbook_row_to_map(row, &row_opts, headers.as_slice());
        let first: usize = if opts.omit_header {
            0
        } else {
            h + 1
        };
        let is_data = is_not_header_row(&record, n - first, &headers);
        proof {
            assert(now[n as int] == cells);
            assert(record_entries(record) == row_record(now, row_opts@, keys, n as int));
            if n == 0 {
                lemma_nothing_kept_before_start(now, row_opts@, keys, start, limit as nat, 0);
                lemma_nothing_kept_before_start(seen, row_opts@, old_keys, start, limit as nat, 0);
            } else {
                assert(keys == old_keys);
                assert forall|i: int| 0 <= i < n implies now[i] == seen[i] by {}
                lemma_captured_prefix(now, seen, row_opts@, keys, start, limit as nat, n as nat);
            }
        }
        let mut kept = kept;
        let ghost before = records_view(kept@);
        let outcome = if !is_data {
            RowOutcome::Repeated
        } else if opts.is_async() {
            RowOutcome::Streamed(record)
        } else if kept.len() < limit {
            kept.push(record);
            assert(records_view(kept@) =~= before.push(record_entries(record)));
            RowOutcome::Kept
        } else {
            RowOutcome::OverLimit
        };
        assert(records_view(kept@) =~= sheet_records(now, row_opts@, keys, opts@, limit as nat));
        (
            SheetReader {
                opts,
                columns,
                row_opts,
                limit,
                total: n + 1,
                headers,
                kept,
                closed,
                history: Ghost(now),
            },
            outcome,
        )
    }

    /// Gives the reader rows of the sheet, in order; what is to be handed
    /// on is dropped. The reader that results has seen them all, unless
    /// the sheet had ended.
    pub fn push_rows(self, rows: &[Vec<RawCell>]) -> (r: Self)
        requires
            self.count() + rows@.len() <= usize::MAX,
        ensures
            r.options() == self.options(),
            r.declared() == self.declared(),
            r.row_options() == self.row_options(),
            r.ceiling() == self.ceiling(),
            r.ended() == self.ended(),
            !self.ended() ==> r.seen() == self.seen() + crate::cell::sheet_view(rows@),
            self.ended() ==> r.seen() == self.seen(),
            r.keys() == sheet_headers(r.seen(), r.declared(), r.options()),
            r.records() == sheet_records(
                r.seen(),
                r.row_options(),
                r.keys(),
                r.options(),
                r.ceiling(),
            ),
    {
        proof {
            use_type_invariant(&self);
        }
        let ghost all = crate::cell::sheet_view(rows@);
        let ghost first = self.seen();
        let mut reader = self;
        let mut i: usize = 0;
        assert(first + all.take(0) =~= first);
        while i < rows.len()
            invariant
                i <= rows.len(),
                all == crate::cell::sheet_view(rows@),
                first == self.seen(),
                reader.options() == self.options(),
                reader.declared() == self.declared(),
                reader.row_options() == self.row_options(),
                reader.ceiling() == self.ceiling(),
                reader.ended() == self.ended(),
                self.count() + rows@.len() <= usize::MAX,
                !self.ended() ==> reader.seen() == first + all.take(i as int) && reader.count()
                    == self.count() + i,
                self.ended() ==> reader.seen() == first && reader.count() == self.count(),
                reader.keys() == sheet_headers(reader.seen(), reader.declared(), reader.options()),
                reader.records() == sheet_records(
                    reader.seen(),
                    reader.row_options(),
                    reader.keys(),
                    reader.options(),
                    reader.ceiling(),
                ),
            decreases rows.len() - i,
        {
            let (next, _outcome) = reader.push_row(rows[i].as_slice());
            proof {
                assert(all[i as int] == cells_view(rows@[i as int]@));
                assert((first + all.take(i as int)).push(all[i as int]) =~= first + all.take(
                    i as int + 1,
                ));
            }
            reader = next;
            i += 1;
        }
        assert(all.take(rows@.len() as int) =~= all);
        reader
    }

    /// The outcome of the read: the keys, the records kept and the number of rows.
    pub fn into_parts(self) -> (r: (Vec<String>, Vec<IndexMap<String, CellValue>>, usize))
        ensures
            strings_view(r.0@) == sheet_headers(self.seen(), self.declared(), self.options()),
            records_view(r.1@) == sheet_records(
                self.seen(),
                self.row_options(),
                strings_view(r.0@),
                self.options(),
                self.ceiling(),
            ),
            r.2 == self.seen().len(),
    {
        proof {
            use_type_invariant(&self);
        }
        (self.headers, self.kept, self.total)
    }
}

/// What became of a line that was given to the reader of a delimited file.
#[derive(Debug)]
pub enum LineOutcome {
    /// The line was kept as a record.
    Kept,
    /// The limit of records to keep is reached.
    OverLimit,
    /// The line is to be handed on: here is its record.
    Streamed(IndexMap<String, CellValue>),
    /// The file has ended already; the line was ignored.
    Ignored,
}

/// The mathematical content of a [`LineOutcome`].
pub enum LineOutcomeView {
    Kept,
    OverLimit,
    Streamed(Seq<(Seq<char>, CellValueView)>),
    Ignored,
}

/// The content of an outcome.
pub open spec fn line_outcome_view(outcome: LineOutcome) -> LineOutcomeView {
    match outcome {
        LineOutcome::Kept => LineOutcomeView::Kept,
        LineOutcome::OverLimit => LineOutcomeView::OverLimit,
        LineOutcome::Streamed(record) => LineOutcomeView::Streamed(record_entries(record)),
        LineOutcome::Ignored => LineOutcomeView::Ignored,
    }
}

/// What becomes of the next line of a delimited file that has not ended:
/// where lines are delivered rather than kept, its record is handed on;
/// otherwise it is kept as long as fewer lines than the maximum were given.
pub open spec fn line_outcome(
    given: nat,
    line: Seq<Seq<char>>,
    o: OptionSetView,
    keys: Seq<Seq<char>>,
) -> LineOutcomeView {
    if o.read_mode == ReadMode::Async {
        LineOutcomeView::Streamed(record_of(coerced_csv_row(line, o.rows), keys))
    } else if given < crate::options::max_rows_of(o) {
        LineOutcomeView::Kept
    } else {
        LineOutcomeView::OverLimit
    }
}

/// The records kept of the lines of a delimited file: none where lines are
/// delivered; else those of the first lines, up to the maximum.
pub open spec fn kept_lines(
    lines: Seq<Seq<Seq<char>>>,
    o: OptionSetView,
    keys: Seq<Seq<char>>,
) -> Seq<Seq<(Seq<char>, CellValueView)>> {
    if o.read_mode == ReadMode::Async {
        Seq::empty()
    } else {
        csv_records(lines, o.rows, keys, csv_kept(lines.len(), o))
    }
}

/// A reader of the lines of one delimited file.
pub struct DelimitedReader {
    opts: OptionSet,
    headers: Vec<String>,
    kept: Vec<IndexMap<String, CellValue>>,
    total: usize,
    closed: bool,
    first_line: Ghost<Seq<Seq<char>>>,
    history: Ghost<Seq<Seq<Seq<char>>>>,
}

impl DelimitedReader {
    /// The first line of the file.
    pub closed spec fn header_line(&self) -> Seq<Seq<char>> {
        self.first_line@
    }

    /// The lines given so far, after the first line, in order.
    pub closed spec fn seen(&self) -> Seq<Seq<Seq<char>>> {
        self.history@
    }

    /// The options under which the file is read.
    pub closed spec fn options(&self) -> OptionSetView {
        self.opts@
    }

    /// Whether the file has ended.
    pub closed spec fn ended(&self) -> bool {
        self.closed
    }

    /// The keys of the columns.
    pub closed spec fn keys(&self) -> Seq<Seq<char>> {
        strings_view(self.headers@)
    }

    /// The records kept so far.
    pub closed spec fn records(&self) -> Seq<Seq<(Seq<char>, CellValueView)>> {
        records_view(self.kept@)
    }

    /// The number of lines given so far, the first line among them.
    pub closed spec fn count(&self) -> nat {
        self.total as nat
    }

    /// What holds of every reader: it has counted the lines it was given,
    /// its keys are those of the first line, and it has kept the records
    /// that a read of those lines keeps.
    #[verifier::type_invariant]
    spec fn wf(&self) -> bool {
        &&& self.total == self.history@.len() + 1
        &&& strings_view(self.headers@) == csv_headers(self.first_line@, self.opts@)
        &&& records_view(self.kept@) == kept_lines(
            self.history@,
            self.opts@,
            strings_view(self.headers@),
        )
    }

    /// A reader that has been given the first line of the file and no other.
    pub fn new(opts: &OptionSet, header: &[String]) -> (r: Self)
        ensures
            r.header_line() == strings_view(header@),
            r.seen() == Seq::<Seq<Seq<char>>>::empty(),
            r.options() == opts@,
            r.keys() == csv_headers(strings_view(header@), opts@),
            r.count() == 1,
            !r.ended(),
    {
        let headers: Vec<String> = if opts.omit_header {
            let none: Vec<String> = Vec::new();
            assert(strings_view(none@) =~= Seq::<Seq<char>>::empty());
            none
        } else {
            build_header_keys(header, opts.rows.columns.as_slice(), &opts.field_mode)
        };
        let kept: Vec<IndexMap<String, CellValue>> = Vec::new();
        let ghost lines = Seq::<Seq<Seq<char>>>::empty();
        assert(records_view(kept@) =~= kept_lines(lines, opts@, strings_view(headers@)));
        DelimitedReader {
            opts: opts.duplicate(),
            headers,
            kept,
            total: 1,
            closed: false,
            first_line: Ghost(strings_view(header@)),
            history: Ghost(lines),
        }
    }

    /// The number of lines given so far, the first line among them.
    pub fn total(&self) -> (r: usize)
        ensures
            r == self.count(),
            r == self.seen().len() + 1,
    {
        proof {
            use_type_invariant(self);
        }
        self.total
    }

    /// Ends the file: lines given afterwards are ignored.
    pub fn end(self) -> (r: Self)
        ensures
            r.ended(),
            r.header_line() == self.header_line(),
            r.seen() == self.seen(),
            r.options() == self.options(),
            r.keys() == self.keys(),
            r.records() == self.records(),
            r.count() == self.count(),
    {
        proof {
            use_type_invariant(&self);
        }
        let DelimitedReader { opts, headers, kept, total, closed, first_line, history } = self;
        DelimitedReader { opts, headers, kept, total, closed: true, first_line, history }
    }

    /// Gives the reader the next line of the file, cut into fields.
    ///
    /// The reader that results has seen the line, unless the file had
    /// ended. The outcome tells what became of the line: see [`line_outcome`].
    pub fn push_record(self, record: &[String]) -> (r: (Self, LineOutcome))
        requires
            self.count() < usize::MAX,
        ensures
            r.0.header_line() == self.header_line(),
            r.0.options() == self.options(),
            r.0.keys() == self.keys(),
            r.0.ended() == self.ended(),
            self.ended() ==> r.1 is Ignored && r.0.seen() == self.seen() && r.0.records()
                == self.records() && r.0.count() == self.count(),
            !self.ended() ==> r.0.seen() == self.seen().push(strings_view(record@)) && r.0.count()
                == self.count() + 1 && line_outcome_view(r.1) == line_outcome(
                self.seen().len(),
                strings_view(record@),
                self.options(),
                self.keys(),
            ),
            r.0.records() == kept_lines(r.0.seen(), r.0.options(), r.0.keys()),
    {
        proof {
            use_type_invariant(&self);
        }
        let DelimitedReader { opts, headers, kept, total, closed, first_line, history } = self;
        if closed {
            return (
                DelimitedReader { opts, headers, kept, total, closed, first_line, history },
                LineOutcome::Ignored,
            );
        }
        let ghost seen = history@;
        let ghost line = strings_view(record@);
        let ghost now = seen.push(line);
        let ghost keys = strings_view(headers@);
        let given = total - 1;
        let mut kept = kept;
        let ghost before = records_view(kept@);
        let outcome = if opts.is_async() {
            LineOutcome::Streamed(csv_row_to_map(record, &opts.rows, headers.as_slice()))
        } else if given < opts.max_rows() {
            let row = csv_row_to_map(record, &opts.rows, headers.as_slice());
            kept.push(row);
            proof {
                assert(now[given as int] == line);
                assert(records_view(kept@) =~= before.push(record_entries(row)));
                assert(csv_records(now, opts@.rows, keys, (given + 1) as nat) =~= csv_records(
                    seen,
                    opts@.rows,
                    keys,
                    given as nat,
                ).push(record_of(coerced_csv_row(line, opts@.rows), keys)));
            }
            LineOutcome::Kept
        } else {
            proof {
                let held = crate::options::max_rows_of(opts@);
                assert(csv_records(now, opts@.rows, keys, held) =~= csv_records(
                    seen,
                    opts@.rows,
                    keys,
                    held,
                ));
            }
            LineOutcome::OverLimit
        };
        assert(records_view(kept@) =~= kept_lines(now, opts@, keys));
        (
            DelimitedReader {
                opts,
                headers,
                kept,
                total: total + 1,
                closed,
                first_line,
                history: Ghost(now),
            },
            outcome,
        )
    }

    /// The outcome of the read: the keys, the records kept and the number
    /// of lines, the first line among them.
    pub fn into_parts(self) -> (r: (Vec<String>, Vec<IndexMap<String, CellValue>>, usize))
        ensures
            strings_view(r.0@) == csv_headers(self.header_line(), self.options()),
            records_view(r.1@) == kept_lines(self.seen(), self.options(), strings_view(r.0@)),
            r.2 == self.seen().len() + 1,
    {
        proof {
            use_type_invariant(&self);
        }
        (self.headers, self.kept, self.total)
    }
}

} // verus!
