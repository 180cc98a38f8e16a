//! What a read returns: the rows of one sheet or of several, with the keys
//! of their columns, the number of rows in the source and what is known of the file.

use vstd::prelude::*;
use vstd::string::*;
use indexmap::IndexMap;
use crate::column::optional_text;
use crate::modes::ReadMode;
use crate::options::{optional_texts, OptionSet, OptionSetView};
use crate::path_data::PathData;
use crate::text::{chars_equal, clone_strings, snake_case_of, strings_view, to_chars,
    to_snake_case};
use crate::value::{clone_records, records_view, CellValue, CellValueView};

verus! {

/// What is known of a source file: its name, its kind, and its sheets.
#[derive(Debug)]
pub struct WorkbookInfo {
    /// The name of the file.
    pub filename: String,
    /// The extension that tells its kind.
    pub extension: String,
    /// The names of the sheets that were selected, if any was.
    pub selected: Option<Vec<String>>,
    /// The names of all its sheets.
    pub sheets: Vec<String>,
}

/// The mathematical content of a [`WorkbookInfo`].
pub struct WorkbookInfoView {
    pub filename: Seq<char>,
    pub extension: Seq<char>,
    pub selected: Option<Seq<Seq<char>>>,
    pub sheets: Seq<Seq<char>>,
}

impl View for WorkbookInfo {
    type V = WorkbookInfoView;

    open spec fn view(&self) -> WorkbookInfoView {
        WorkbookInfoView {
            filename: self.filename@,
            extension: self.extension@,
            selected: optional_texts(self.selected),
            sheets: strings_view(self.sheets@),
        }
    }
}

impl WorkbookInfo {
    /// The description of a workbook with its selected sheets and all its sheets.
    pub fn new(path_data: &PathData, selected: &[String], sheet_refs: &[String]) -> (r: Self)
        ensures
            r@.filename == path_data.file_label(),
            r@.extension == path_data.kind().name(),
            r@.selected == Some(strings_view(selected@)),
            r@.sheets == strings_view(sheet_refs@),
    {
        WorkbookInfo {
            extension: path_data.extension(),
            filename: path_data.filename(),
            selected: Some(clone_strings(selected)),
            sheets: clone_strings(sheet_refs),
        }
    }

    /// The description of a file that has one sheet only, called `single`.
    pub fn simple(path_data: &PathData) -> (r: Self)
        ensures
            r@.filename == path_data.file_label(),
            r@.extension == path_data.kind().name(),
            r@.selected is None,
            r@.sheets == seq!["single"@],
    {
        let mut sheets: Vec<String> = Vec::new();
        sheets.push("single".to_string());
        assert(strings_view(sheets@) =~= seq!["single"@]);
        WorkbookInfo {
            extension: path_data.extension(),
            filename: path_data.filename(),
            selected: None,
            sheets,
        }
    }

    /// The extension of the file.
    pub fn ext(&self) -> (r: String)
        ensures
            r@ == self@.extension,
    {
        self.extension.clone()
    }

    /// The name of the file.
    pub fn name(&self) -> (r: String)
        ensures
            r@ == self@.filename,
    {
        self.filename.clone()
    }

    /// The name of the sheet at a position, `single` if there is none, with the position.
    pub fn sheet(&self, index: usize) -> (r: (String, usize))
        ensures
            r.1 == index,
            r.0@ == (if index < self@.sheets.len() {
                self@.sheets[index as int]
            } else {
                "single"@
            }),
    {
        if index < self.sheets.len() {
            (self.sheets[index].clone(), index)
        } else {
            ("single".to_string(), index)
        }
    }

    /// The names of all the sheets.
    pub fn sheets(&self) -> (r: Vec<String>)
        ensures
            strings_view(r@) == self@.sheets,
    {
        clone_strings(self.sheets.as_slice())
    }
}

/// The rows read from one sheet.
#[derive(Debug)]
pub struct SheetDataSet {
    /// The name of the sheet as written and in snake case.
    pub sheet: (String, String),
    /// The number of rows in the sheet, whether kept or not.
    pub num_rows: usize,
    /// The keys of the columns.
    pub keys: Vec<String>,
    /// The rows that were kept.
    pub rows: Vec<IndexMap<String, CellValue>>,
}

/// The mathematical content of a [`SheetDataSet`].
pub struct SheetDataSetView {
    pub name: Seq<char>,
    pub key: Seq<char>,
    pub num_rows: nat,
    pub keys: Seq<Seq<char>>,
    pub rows: Seq<Seq<(Seq<char>, CellValueView)>>,
}

impl View for SheetDataSet {
    type V = SheetDataSetView;

    open spec fn view(&self) -> SheetDataSetView {
        SheetDataSetView {
            name: self.sheet.0@,
            key: self.sheet.1@,
            num_rows: self.num_rows as nat,
            keys: strings_view(self.keys@),
            rows: records_view(self.rows@),
        }
    }
}

/// The contents of a list of sheets.
pub open spec fn sheets_view(sheets: Seq<SheetDataSet>) -> Seq<SheetDataSetView> {
    Seq::new(sheets.len(), |i: int| sheets[i]@)
}

impl SheetDataSet {
    /// The rows of a sheet with its name, the keys of its columns and the
    /// number of rows in the source.
    pub fn new(
        name: &str,
        keys: &[String],
        rows: &[IndexMap<String, CellValue>],
        total: usize,
    ) -> (r: Self)
        ensures
            r@ == (SheetDataSetView {
                name: name@,
                key: snake_case_of(name@),
                num_rows: total as nat,
                keys: strings_view(keys@),
                rows: records_view(rows@),
            }),
    {
        SheetDataSet {
            sheet: (name.to_string(), to_snake_case(name)),
            keys: clone_strings(keys),
            rows: clone_records(rows),
            num_rows: total,
        }
    }

    /// The name of the sheet in snake case.
    pub fn key(&self) -> (r: String)
        ensures
            r@ == self@.key,
    {
        self.sheet.1.clone()
    }

    /// The name of the sheet.
    pub fn name(&self) -> (r: String)
        ensures
            r@ == self@.name,
    {
        self.sheet.0.clone()
    }

    /// A copy of the sheet.
    pub fn duplicate(&self) -> (r: Self)
        ensures
            r@ == self@,
    {
        SheetDataSet {
            sheet: (self.sheet.0.clone(), self.sheet.1.clone()),
            keys: clone_strings(self.keys.as_slice()),
            rows: clone_records(self.rows.as_slice()),
            num_rows: self.num_rows,
        }
    }
}

/// A copy of a list of sheets.
pub fn clone_sheets(sheets: &[SheetDataSet]) -> (r: Vec<SheetDataSet>)
    ensures
        sheets_view(r@) == sheets_view(sheets@),
{
    let mut r: Vec<SheetDataSet> = Vec::new();
    let mut i: usize = 0;
    while i < sheets.len()
        invariant
            i <= sheets.len(),
            r.len() == i,
            forall|j: int| 0 <= j < i ==> r@[j]@ == sheets@[j]@,
        decreases sheets.len() - i,
    {
        r.push(sheets[i].duplicate());
        i += 1;
    }
    assert(sheets_view(r@) =~= sheets_view(sheets@));
    r
}

/// The rows of a read: those of one sheet, or those of several sheets.
#[derive(Debug)]
pub enum SpreadData {
    Single(Vec<IndexMap<String, CellValue>>),
    Multiple(Vec<SheetDataSet>),
}

/// The mathematical content of a [`SpreadData`].
pub enum SpreadDataView {
    Single(Seq<Seq<(Seq<char>, CellValueView)>>),
    Multiple(Seq<SheetDataSetView>),
}

impl View for SpreadData {
    type V = SpreadDataView;

    open spec fn view(&self) -> SpreadDataView {
        match self {
            SpreadData::Single(rows) => SpreadDataView::Single(records_view(rows@)),
            SpreadData::Multiple(sheets) => SpreadDataView::Multiple(sheets_view(sheets@)),
        }
    }
}

impl SpreadDataView {
    /// The rows of the first sheet: the rows themselves for one sheet, those
    /// of the first for several, none if there is no sheet.
    pub open spec fn first_sheet(self) -> Seq<Seq<(Seq<char>, CellValueView)>> {
        match self {
            SpreadDataView::Single(rows) => rows,
            SpreadDataView::Multiple(sheets) => if sheets.len() > 0 {
                sheets[0].rows
            } else {
                Seq::empty()
            },
        }
    }

    /// The sheets of a read of several sheets; none for a read of one.
    pub open spec fn sheets(self) -> Seq<SheetDataSetView> {
        match self {
            SpreadDataView::Single(_) => Seq::empty(),
            SpreadDataView::Multiple(sheets) => sheets,
        }
    }
}

impl SpreadData {
    /// The rows of one sheet.
    pub fn from_single(rows: Vec<IndexMap<String, CellValue>>) -> (r: Self)
        ensures
            r@ == SpreadDataView::Single(records_view(rows@)),
    {
        SpreadData::Single(rows)
    }

    /// The rows of several sheets.
    pub fn from_multiple(sheet_data: &[SheetDataSet]) -> (r: Self)
        ensures
            r@ == SpreadDataView::Multiple(sheets_view(sheet_data@)),
    {
        SpreadData::Multiple(clone_sheets(sheet_data))
    }

    /// The rows of the first sheet.
    pub fn first_sheet(&self) -> (r: Vec<IndexMap<String, CellValue>>)
        ensures
            records_view(r@) == self@.first_sheet(),
    {
        match self {
            SpreadData::Single(rows) => clone_records(rows.as_slice()),
            SpreadData::Multiple(sheets) => {
                if sheets.len() > 0 {
                    assert(sheets_view(sheets@)[0] == sheets@[0]@);
                    clone_records(sheets[0].rows.as_slice())
                } else {
                    let r: Vec<IndexMap<String, CellValue>> = Vec::new();
                    assert(records_view(r@) =~= Seq::empty());
                    r
                }
            },
        }
    }

    /// The sheets of a read of several sheets; none for a read of one.
    pub fn sheets(&self) -> (r: Vec<SheetDataSet>)
        ensures
            sheets_view(r@) == self@.sheets(),
    {
        match self {
            SpreadData::Single(_) => {
                let r: Vec<SheetDataSet> = Vec::new();
                assert(sheets_view(r@) =~= Seq::empty());
                r
            },
            SpreadData::Multiple(sheets) => clone_sheets(sheets.as_slice()),
        }
    }

    /// A copy of the rows.
    pub fn duplicate(&self) -> (r: Self)
        ensures
            r@ == self@,
    {
        match self {
            SpreadData::Single(rows) => SpreadData::Single(clone_records(rows.as_slice())),
            SpreadData::Multiple(sheets) => SpreadData::Multiple(clone_sheets(sheets.as_slice())),
        }
    }
}

/// The outcome of reading one sheet: the number of rows in the source and,
/// unless they were handed on one by one, the rows that were kept.
#[derive(Debug)]
pub enum DataSet {
    WithRows(usize, Vec<IndexMap<String, CellValue>>),
    Count(usize),
}

/// The mathematical content of a [`DataSet`].
pub enum DataSetView {
    WithRows(nat, Seq<Seq<(Seq<char>, CellValueView)>>),
    Count(nat),
}

impl View for DataSet {
    type V = DataSetView;

    open spec fn view(&self) -> DataSetView {
        match self {
            DataSet::WithRows(n, rows) => DataSetView::WithRows(*n as nat, records_view(rows@)),
            DataSet::Count(n) => DataSetView::Count(*n as nat),
        }
    }
}

impl DataSetView {
    /// The number of rows in the source.
    pub open spec fn count(self) -> nat {
        match self {
            DataSetView::WithRows(n, _) => n,
            DataSetView::Count(n) => n,
        }
    }

    /// The rows that were kept; none where only the count is held.
    pub open spec fn rows(self) -> Seq<Seq<(Seq<char>, CellValueView)>> {
        match self {
            DataSetView::WithRows(_, rows) => rows,
            DataSetView::Count(_) => Seq::empty(),
        }
    }
}

impl DataSet {
    /// The outcome for a count and rows under the read mode of the options:
    /// in `Async` mode the count alone, else the count with the rows.
    pub fn from_count_and_rows(
        count: usize,
        rows: Vec<IndexMap<String, CellValue>>,
        opts: &OptionSet,
    ) -> (r: Self)
        ensures
            r@ == (if opts@.read_mode == ReadMode::Async {
                DataSetView::Count(count as nat)
            } else {
                DataSetView::WithRows(count as nat, records_view(rows@))
            }),
    {
        match opts.read_mode() {
            ReadMode::Sync | ReadMode::PreviewMultiple => DataSet::WithRows(count, rows),
            ReadMode::Async => DataSet::Count(count),
        }
    }
}

/// The result of a read.
#[derive(Debug)]
pub struct ResultSet {
    /// The name of the file.
    pub filename: String,
    /// The extension that tells its kind.
    pub extension: String,
    /// The names of the sheets that were selected, if any was.
    pub selected: Option<Vec<String>>,
    /// The names of the sheets.
    pub sheets: Vec<String>,
    /// The keys of the columns of the first sheet read.
    pub keys: Vec<String>,
    /// The number of rows in the source, over all the sheets read.
    pub num_rows: usize,
    /// The rows that were kept.
    pub data: SpreadData,
    /// Where the rows went if they were handed on rather than kept.
    pub out_ref: Option<String>,
}

/// The mathematical content of a [`ResultSet`].
pub struct ResultSetView {
    pub filename: Seq<char>,
    pub extension: Seq<char>,
    pub selected: Option<Seq<Seq<char>>>,
    pub sheets: Seq<Seq<char>>,
    pub keys: Seq<Seq<char>>,
    pub num_rows: nat,
    pub data: SpreadDataView,
    pub out_ref: Option<Seq<char>>,
}

impl View for ResultSet {
    type V = ResultSetView;

    open spec fn view(&self) -> ResultSetView {
        ResultSetView {
            filename: self.filename@,
            extension: self.extension@,
            selected: optional_texts(self.selected),
            sheets: strings_view(self.sheets@),
            keys: strings_view(self.keys@),
            num_rows: self.num_rows as nat,
            data: self.data@,
            out_ref: optional_text(self.out_ref),
        }
    }
}

/// The number of rows in the first `n` sheets together.
pub open spec fn total_rows(sheets: Seq<SheetDataSetView>, n: nat) -> nat
    decreases n,
{
    if n == 0 || n > sheets.len() {
        0
    } else {
        total_rows(sheets, (n - 1) as nat) + sheets[n - 1].num_rows
    }
}

/// The names of the sheets.
pub open spec fn sheet_names_of(sheets: Seq<SheetDataSetView>) -> Seq<Seq<char>> {
    Seq::new(sheets.len(), |i: int| sheets[i].name)
}

/// The result of reading one sheet.
pub open spec fn single_result(
    info: WorkbookInfoView,
    keys: Seq<Seq<char>>,
    data_set: DataSetView,
    out_ref: Option<Seq<char>>,
) -> ResultSetView {
    ResultSetView {
        filename: info.filename,
        extension: info.extension,
        selected: info.selected,
        sheets: info.sheets,
        keys,
        num_rows: data_set.count(),
        data: SpreadDataView::Single(data_set.rows()),
        out_ref,
    }
}

/// The result of reading several sheets: the keys are those of the first
/// sheet and the number of rows is that of all sheets together.
pub open spec fn multiple_result(sheets: Seq<SheetDataSetView>, info: WorkbookInfoView) -> ResultSetView {
    ResultSetView {
        filename: info.filename,
        extension: info.extension,
        selected: None,
        sheets: sheet_names_of(sheets),
        keys: if sheets.len() > 0 {
            sheets[0].keys
        } else {
            Seq::empty()
        },
        num_rows: total_rows(sheets, sheets.len()),
        data: SpreadDataView::Multiple(sheets),
        out_ref: None,
    }
}

/// The totals of more sheets are at least those of fewer.
pub proof fn lemma_total_rows_grows(sheets: Seq<SheetDataSetView>, n: nat, m: nat)
    requires
        n <= m <= sheets.len(),
    ensures
        total_rows(sheets, n) <= total_rows(sheets, m),
    decreases m,
{
    if n < m {
        lemma_total_rows_grows(sheets, n, (m - 1) as nat);
    }
}

impl ResultSet {
    /// The result of reading one sheet.
    pub fn new(info: &WorkbookInfo, keys: &[String], data_set: DataSet, out_ref: Option<&str>) -> (r:
        Self)
        ensures
            r@ == single_result(
                info@,
                strings_view(keys@),
                data_set@,
                match out_ref {
                    Some(s) => Some(s@),
                    None => None,
                },
            ),
    {
        let (num_rows, data) = match data_set {
            DataSet::WithRows(size, rows) => (size, rows),
            DataSet::Count(size) => {
                let rows: Vec<IndexMap<String, CellValue>> = Vec::new();
                assert(records_view(rows@) =~= Seq::empty());
                (size, rows)
            },
        };
        ResultSet {
            extension: info.ext(),
            filename: info.name(),
            selected: match &info.selected {
                Some(names) => Some(clone_strings(names.as_slice())),
                None => None,
            },
            sheets: info.sheets(),
            keys: clone_strings(keys),
            num_rows,
            data: SpreadData::from_single(data),
            out_ref: match out_ref {
                Some(s) => Some(s.to_string()),
                None => None,
            },
        }
    }

    /// The result of reading several sheets.
    pub fn from_multiple(sheets: &[SheetDataSet], info: &WorkbookInfo) -> (r: Self)
        requires
            total_rows(sheets_view(sheets@), sheets@.len()) <= usize::MAX,
        ensures
            r@ == multiple_result(sheets_view(sheets@), info@),
    {
        let ghost all = sheets_view(sheets@);
        let mut sheet_names: Vec<String> = Vec::new();
        let mut keys: Vec<String> = Vec::new();
        let mut num_rows: usize = 0;
        let mut sheet_index: usize = 0;
        assert(strings_view(keys@) =~= Seq::<Seq<char>>::empty());
        while sheet_index < sheets.len()
            invariant
                sheet_index <= sheets.len(),
                all == sheets_view(sheets@),
                total_rows(all, all.len()) <= usize::MAX,
                num_rows == total_rows(all, sheet_index as nat),
                sheet_names.len() == sheet_index,
                forall|j: int| 0 <= j < sheet_index ==> sheet_names@[j]@ == all[j].name,
                strings_view(keys@) == (if sheet_index > 0 {
                    all[0].keys
                } else {
                    Seq::empty()
                }),
            decreases sheets.len() - sheet_index,
        {
            proof {
                lemma_total_rows_grows(all, (sheet_index + 1) as nat, all.len());
                assert(all[sheet_index as int] == sheets@[sheet_index as int]@);
            }
            num_rows += sheets[sheet_index].num_rows;
            sheet_names.push(sheets[sheet_index].name());
            if sheet_index == 0 {
                keys = clone_strings(sheets[sheet_index].keys.as_slice());
            }
            sheet_index += 1;
        }
        assert(strings_view(sheet_names@) =~= sheet_names_of(all));
        ResultSet {
            extension: info.extension.clone(),
            filename: info.filename.clone(),
            selected: None,
            sheets: sheet_names,
            keys,
            num_rows,
            data: SpreadData::Multiple(clone_sheets(sheets)),
            out_ref: None,
        }
    }

    /// The rows of the first sheet.
    pub fn to_vec(&self) -> (r: Vec<IndexMap<String, CellValue>>)
        ensures
            records_view(r@) == self@.data.first_sheet(),
    {
        self.data.first_sheet()
    }
}

/// The position of the first sheet whose name in snake case is that of the
/// key in snake case, or the number of sheets if there is none.
pub open spec fn sheet_position(names: Seq<Seq<char>>, key: Seq<char>) -> int
    decreases names.len(),
{
    if names.len() == 0 {
        0
    } else if snake_case_of(names[0]) == snake_case_of(key) {
        0
    } else {
        1 + sheet_position(names.drop_first(), key)
    }
}

/// The positions of the sheets that the keys name, in the order of the
/// keys; a key that names no sheet is passed over.
pub open spec fn positions_by_name(names: Seq<Seq<char>>, keys: Seq<Seq<char>>) -> Seq<usize>
    decreases keys.len(),
{
    if keys.len() == 0 {
        Seq::empty()
    } else {
        let earlier = positions_by_name(names, keys.drop_last());
        let at = sheet_position(names, keys.last());
        if 0 <= at < names.len() {
            earlier.push(at as usize)
        } else {
            earlier
        }
    }
}

/// The positions among `indices` at which there is a sheet, in order.
pub open spec fn positions_by_index(count: nat, indices: Seq<u32>) -> Seq<usize>
    decreases indices.len(),
{
    if indices.len() == 0 {
        Seq::empty()
    } else {
        let earlier = positions_by_index(count, indices.drop_last());
        if (indices.last() as nat) < count {
            earlier.push(indices.last() as usize)
        } else {
            earlier
        }
    }
}

/// The positions of the sheets to read: those that the selected names
/// match; if none, those among the selected positions that exist; if none
/// again, the first position.
pub open spec fn selected_positions(names: Seq<Seq<char>>, o: OptionSetView) -> Seq<usize> {
    let by_name = match o.selected {
        Some(keys) => positions_by_name(names, keys),
        None => Seq::empty(),
    };
    if by_name.len() > 0 {
        by_name
    } else {
        let by_index = positions_by_index(names.len(), o.indices);
        if by_index.len() > 0 {
            by_index
        } else {
            seq![0usize]
        }
    }
}

/// The names of the sheets at the positions that exist.
pub open spec fn names_at(names: Seq<Seq<char>>, positions: Seq<usize>) -> Seq<Seq<char>>
    decreases positions.len(),
{
    if positions.len() == 0 {
        Seq::empty()
    } else {
        let earlier = names_at(names, positions.drop_last());
        if (positions.last() as int) < names.len() {
            earlier.push(names[positions.last() as int])
        } else {
            earlier
        }
    }
}

/// The position of the first sheet that a key names.
fn find_sheet(sheet_names: &[String], key: &str) -> (r: usize)
    ensures
        r == sheet_position(strings_view(sheet_names@), key@),
        r <= sheet_names@.len(),
{
    let target = to_snake_case(key);
    let target_chars = to_chars(target.as_str());
    let ghost names = strings_view(sheet_names@);
    let mut i: usize = 0;
    assert(names.skip(0) =~= names);
    while i < sheet_names.len()
        invariant
            i <= sheet_names.len(),
            names == strings_view(sheet_names@),
            target_chars@ == snake_case_of(key@),
            sheet_position(names, key@) == i + sheet_position(names.skip(i as int), key@),
        decreases sheet_names.len() - i,
    {
        let ghost rest = names.skip(i as int);
        assert(rest[0] == sheet_names@[i as int]@);
        assert(rest.drop_first() =~= names.skip(i as int + 1));
        let candidate = to_snake_case(sheet_names[i].as_str());
        if chars_equal(&to_chars(candidate.as_str()), &target_chars) {
            return i;
        }
        i += 1;
    }
    assert(names.skip(sheet_names.len() as int) =~= Seq::<Seq<char>>::empty());
    i
}

/// Finds the sheets to read among the sheets of a workbook.
///
/// Gives the names of the sheets to read, the names of all sheets, and the
/// positions of the sheets to read: see [`selected_positions`]. A selection
/// that matches nothing falls back to the first sheet.
pub fn match_sheet_name_and_index(sheet_names: &[String], opts: &OptionSet) -> (r: (
    Vec<String>,
    Vec<String>,
    Vec<usize>,
))
    ensures
        r.2@ == selected_positions(strings_view(sheet_names@), opts@),
        strings_view(r.0@) == names_at(strings_view(sheet_names@), r.2@),
        strings_view(r.1@) == strings_view(sheet_names@),
{
    let ghost names = strings_view(sheet_names@);
    let mut sheet_indices: Vec<usize> = Vec::new();
    let mut selected_names: Vec<String> = Vec::new();
    assert(strings_view(selected_names@) =~= names_at(names, sheet_indices@));
    if let Some(sheet_keys) = &opts.selected {
        let ghost keys = strings_view(sheet_keys@);
        let mut k: usize = 0;
        assert(keys.take(0) =~= Seq::<Seq<char>>::empty());
        while k < sheet_keys.len()
            invariant
                k <= sheet_keys.len(),
                names == strings_view(sheet_names@),
                keys == strings_view(sheet_keys@),
                sheet_indices@ == positions_by_name(names, keys.take(k as int)),
                strings_view(selected_names@) == names_at(names, sheet_indices@),
            decreases sheet_keys.len() - k,
        {
            assert(keys.take(k as int + 1).drop_last() =~= keys.take(k as int));
            assert(keys.take(k as int + 1).last() == sheet_keys@[k as int]@);
            let at = find_sheet(sheet_names, sheet_keys[k].as_str());
            if at < sheet_names.len() {
                let ghost before = sheet_indices@;
                let ghost before_names = strings_view(selected_names@);
                sheet_indices.push(at);
                selected_names.push(sheet_names[at].clone());
                assert(sheet_indices@.drop_last() =~= before);
                assert(strings_view(selected_names@) =~= before_names.push(names[at as int]));
            }
            k += 1;
        }
        assert(keys.take(sheet_keys.len() as int) =~= keys);
    }
    if sheet_indices.len() < 1 {
        let mut k: usize = 0;
        assert(opts.indices@.take(0) =~= Seq::<u32>::empty());
        while k < opts.indices.len()
            invariant
                k <= opts.indices.len(),
                names == strings_view(sheet_names@),
                sheet_indices@ == positions_by_index(names.len(), opts.indices@.take(k as int)),
                strings_view(selected_names@) == names_at(names, sheet_indices@),
            decreases opts.indices.len() - k,
        {
            assert(opts.indices@.take(k as int + 1).drop_last() =~= opts.indices@.take(k as int));
            let sheet_index = opts.indices[k] as usize;
            if sheet_index < sheet_names.len() {
                let ghost before = sheet_indices@;
                let ghost before_names = strings_view(selected_names@);
                sheet_indices.push(sheet_index);
                selected_names.push(sheet_names[sheet_index].clone());
                assert(sheet_indices@.drop_last() =~= before);
                assert(strings_view(selected_names@) =~= before_names.push(
                    names[sheet_index as int],
                ));
            }
            k += 1;
        }
        assert(opts.indices@.take(opts.indices.len() as int) =~= opts.indices@);
    }
    if sheet_indices.len() < 1 {
        sheet_indices.push(0);
        assert(sheet_indices@ =~= seq![0usize]);
        assert(sheet_indices@.drop_last() =~= Seq::<usize>::empty());
        if sheet_names.len() > 0 {
            let ghost before_names = strings_view(selected_names@);
            selected_names.push(sheet_names[0].clone());
            assert(strings_view(selected_names@) =~= before_names.push(names[0]));
        }
    }
    (selected_names, clone_strings(sheet_names), sheet_indices)
}

impl Clone for WorkbookInfo {
    fn clone(&self) -> (r: Self)
        ensures
            r@ == self@,
    {
        WorkbookInfo {
            filename: self.filename.clone(),
            extension: self.extension.clone(),
            selected: match &self.selected {
                Some(names) => Some(clone_strings(names.as_slice())),
                None => None,
            },
            sheets: clone_strings(self.sheets.as_slice()),
        }
    }
}

impl Clone for SheetDataSet {
    fn clone(&self) -> (r: Self)
        ensures
            r@ == self@,
    {
        self.duplicate()
    }
}

impl Clone for SpreadData {
    fn clone(&self) -> (r: Self)
        ensures
            r@ == self@,
    {
        self.duplicate()
    }
}

impl Clone for DataSet {
    fn clone(&self) -> (r: Self)
        ensures
            r@ == self@,
    {
        match self {
            DataSet::WithRows(n, rows) => DataSet::WithRows(*n, clone_records(rows.as_slice())),
            DataSet::Count(n) => DataSet::Count(*n),
        }
    }
}

impl Clone for ResultSet {
    fn clone(&self) -> (r: Self)
        ensures
            r@ == self@,
    {
        ResultSet {
            filename: self.filename.clone(),
            extension: self.extension.clone(),
            selected: match &self.selected {
                Some(names) => Some(clone_strings(names.as_slice())),
                None => None,
            },
            sheets: clone_strings(self.sheets.as_slice()),
            keys: clone_strings(self.keys.as_slice()),
            num_rows: self.num_rows,
            data: self.data.duplicate(),
            out_ref: match &self.out_ref {
                Some(s) => Some(s.clone()),
                None => None,
            },
        }
    }
}

} // verus!
