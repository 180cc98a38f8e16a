use spreadsheet_to_json::cell::RawCell;
use spreadsheet_to_json::column::Column;
use spreadsheet_to_json::data_set::{
    match_sheet_name_and_index, DataSet, ResultSet, SheetDataSet, SpreadData, WorkbookInfo,
};
use spreadsheet_to_json::decimal::Decimal;
use spreadsheet_to_json::format::Format;
use spreadsheet_to_json::options::OptionSet;
use spreadsheet_to_json::path_data::{Extension, PathData};
use spreadsheet_to_json::pipeline::{
    capture_rows, delimiter_for, process_source, process_spreadsheet_core,
    process_spreadsheet_direct, read_csv_core, read_multiple_worksheets, read_single_worksheet,
    read_workbook_core, sheet_header_keys, source_is_countable, stream_record, SheetSource, Source,
};
use spreadsheet_to_json::value::CellValue;

fn text(s: &str) -> RawCell {
    RawCell::Text(s.to_string())
}

fn sheet(name: &str, data_rows: usize) -> SheetSource {
    let mut rows = vec![vec![text("Name"), text("Amount"), text("Paid On")]];
    for i in 0..data_rows {
        rows.push(vec![
            text(&["item ", &i.to_string()].concat()),
            RawCell::Float(Decimal::parse(&[&i.to_string(), ".5"].concat()).unwrap()),
            text("2024-1-5"),
        ]);
    }
    SheetSource { name: name.to_string(), rows }
}

#[test]
fn test_direct_processing_xlsx() {
    let sample_path = "data/sample-data-1.xlsx";

    // a maximum row count of 1000 rows as the source has 401 rows
    let opts = OptionSet::new(sample_path).max_row_count(1_000);

    let source = Source::Workbook(vec![sheet("Sheet1", 400)]);
    let result = process_spreadsheet_direct(&opts, &source);

    // The source should have 1 header row and 400 data rows
    let result = result.unwrap();
    assert_eq!(result.num_rows, 401);
    assert_eq!(result.to_vec().len(), 400);
    assert_eq!(result.keys, vec!["name", "amount", "paid_on"]);
    assert_eq!(result.filename, "sample-data-1.xlsx");
    assert_eq!(result.extension, "xlsx");
    assert_eq!(result.selected, Some(vec!["Sheet1".to_string()]));
    assert_eq!(result.out_ref, None);
}

#[test]
fn test_direct_processing_csv() {
    let sample_path = "data/sample-data-1.csv";

    let opts = OptionSet::new(sample_path).max_row_count(1_000);

    let header = vec!["Name".to_string(), "Amount".to_string()];
    let records: Vec<Vec<String>> =
        (0..400).map(|i: u32| vec![["row ", &i.to_string()].concat(), i.to_string()]).collect();
    let source = Source::Delimited { header, records };
    let result = process_spreadsheet_direct(&opts, &source);

    // The source should have 1 header row and 400 data rows
    let result = result.unwrap();
    assert_eq!(result.num_rows, 401);
    assert_eq!(result.to_vec().len(), 400);
    assert_eq!(result.keys, vec!["name", "amount"]);
    assert_eq!(result.sheets, vec!["single"]);
    assert_eq!(result.selected, None);
    let rows = result.to_vec();
    assert_eq!(rows[0].get("name"), Some(&CellValue::Text("row 0".to_string())));
    // without a declared format a delimited cell is the text it holds
    assert_eq!(rows[0].get("amount"), Some(&CellValue::Text("0".to_string())));
    assert_eq!(rows[399].get("amount"), Some(&CellValue::Text("399".to_string())));
}

#[test]
fn test_multisheet_preview_ods() {
    let sample_path = "data/sample-data-2.ods";

    // a maximum row count returned of 10 rows
    // and read mode to *preview* to scan all sheets
    let opts = OptionSet::new(sample_path).max_row_count(10).read_mode_preview();

    let source = Source::Workbook(vec![sheet("First", 100), sheet("Second Sheet", 16)]);
    let result = process_spreadsheet_direct(&opts, &source);

    // The source spreadsheet should have 2 sheets
    let dataset = result.unwrap();
    assert_eq!(dataset.sheets.len(), 2);
    // The source spreadsheet should have 101 + 17 (= 118) populated rows including headers
    assert_eq!(dataset.num_rows, 118);

    // The first sheet's data should only output 10 rows
    assert_eq!(dataset.data.first_sheet().len(), 10);

    let sheets = dataset.data.sheets();
    assert_eq!(sheets.len(), 2);
    assert_eq!(sheets[0].num_rows, 101);
    assert_eq!(sheets[1].num_rows, 17);
    assert_eq!(sheets[1].rows.len(), 10);
    assert_eq!(sheets[1].name(), "Second Sheet");
    assert_eq!(sheets[1].key(), "second_sheet");
    assert_eq!(dataset.keys, vec!["name", "amount", "paid_on"]);
    assert_eq!(dataset.sheets, vec!["First", "Second Sheet"]);
    assert_eq!(dataset.selected, None);
}

#[test]
fn async_mode_counts_without_keeping() {
    let opts = OptionSet::new("big.xlsx").read_mode_async();
    let source = Source::Workbook(vec![sheet("Sheet1", 250)]);
    let result = process_spreadsheet_core(&opts, &source, Some("table_a")).unwrap();
    assert_eq!(result.num_rows, 251);
    assert_eq!(result.to_vec().len(), 0);
    assert_eq!(result.keys, vec!["name", "amount", "paid_on"]);
    assert_eq!(result.out_ref, Some("table_a".to_string()));

    let opts = OptionSet::new("big.csv").read_mode_async();
    let header = vec!["A".to_string()];
    let records: Vec<Vec<String>> = (0..30).map(|i: u32| vec![i.to_string()]).collect();
    let result =
        process_spreadsheet_core(&opts, &Source::Delimited { header, records }, None).unwrap();
    assert_eq!(result.num_rows, 31);
    assert_eq!(result.to_vec().len(), 0);
}

#[test]
fn refusals() {
    let workbook = Source::Workbook(vec![sheet("One", 1)]);
    let code = |r: Result<ResultSet, spreadsheet_to_json::error::GenericError>| r.unwrap_err().0;
    assert_eq!(code(process_spreadsheet_direct(&OptionSet::default(), &workbook)), "no_filepath_specified");
    let opts = OptionSet::new("data/book.xlsx");
    assert_eq!(code(process_spreadsheet_direct(&opts, &Source::Unavailable)), "file_unavailable");
    assert_eq!(code(process_spreadsheet_direct(&opts, &Source::Unreadable)), "cannot_open_workbook");
    let failed = Source::Failed(spreadsheet_to_json::error::GenericError("xlsx_error"));
    assert_eq!(code(process_spreadsheet_direct(&opts, &failed)), "xlsx_error");
    let failed = Source::Failed(spreadsheet_to_json::error::GenericError::from_workbook_error(
        &calamine::Error::Msg("broken sheet"),
    ));
    assert_eq!(code(process_spreadsheet_direct(&opts, &failed)), "unknown_calamine_error");
    assert_eq!(
        code(process_spreadsheet_direct(&opts, &Source::Workbook(vec![]))),
        "workbook_with_no_sheets"
    );
    let opts = OptionSet::new("data/book.txt");
    assert_eq!(code(process_spreadsheet_direct(&opts, &workbook)), "unsupported_format");
    assert_eq!(code(process_spreadsheet_direct(&opts, &Source::Unreadable)), "unsupported_format");
    assert_eq!(code(process_spreadsheet_direct(&opts, &Source::Unavailable)), "file_unavailable");
    let opts = OptionSet::new("data/list.csv");
    assert_eq!(code(process_spreadsheet_direct(&opts, &Source::Unreadable)), "unreadable_csv_file");
    let opts = OptionSet::new("data/list.TSV");
    assert_eq!(code(process_spreadsheet_direct(&opts, &Source::Unreadable)), "unreadable_tsv_file");
    let path = PathData::new("x.ods");
    assert_eq!(
        code(process_source(&OptionSet::new("x.ods"), &path, &Source::Workbook(vec![]), None)),
        "workbook_with_no_sheets"
    );
    assert_eq!(code(read_workbook_core(&path, &[], &opts, None)), "workbook_with_no_sheets");
    assert!(source_is_countable(&workbook));
    assert!(source_is_countable(&Source::Unavailable));
    assert_eq!(delimiter_for(Extension::Tsv), b'\t');
    assert_eq!(delimiter_for(Extension::Csv), b',');
}

#[test]
fn ceilings_and_header_rows() {
    let source = sheet("S", 20);
    let info = WorkbookInfo::simple(&PathData::new("s.xlsx"));

    let opts = OptionSet::new("s.xlsx").max_row_count(5);
    let result = read_single_worksheet(&source.rows, &opts, &info, None);
    assert_eq!(result.num_rows, 21);
    let rows = result.to_vec();
    assert_eq!(rows.len(), 5);
    assert_eq!(rows[0].get("name"), Some(&CellValue::Text("item 0".to_string())));
    assert_eq!(rows[4].get("name"), Some(&CellValue::Text("item 4".to_string())));

    // the header row lies below: rows before it are skipped, but counted
    let mut rows = vec![vec![text("Report"), RawCell::Empty], vec![RawCell::Empty, RawCell::Empty]];
    rows.push(vec![text("First Name"), text("Age")]);
    rows.push(vec![text("Ann"), RawCell::Int(30)]);
    rows.push(vec![text("Bob"), RawCell::Int(41)]);
    let opts = OptionSet::new("s.xlsx").header_row(2);
    let result = read_single_worksheet(&rows, &opts, &info, None);
    assert_eq!(result.num_rows, 5);
    assert_eq!(result.keys, vec!["first_name", "age"]);
    let kept = result.to_vec();
    assert_eq!(kept.len(), 2);
    assert_eq!(kept[0].get("first_name"), Some(&CellValue::Text("Ann".to_string())));
    assert_eq!(kept[1].get("age"), Some(&CellValue::Integer(41)));
    assert_eq!(stream_record(&rows, 0, &opts, &result.keys), None);
    assert_eq!(stream_record(&rows, 2, &opts, &result.keys), None);
    assert_eq!(stream_record(&rows, 3, &opts, &result.keys).unwrap(), kept[0]);

    // a header row beyond the sheet: keys from the first row, nothing kept
    let opts = OptionSet::new("s.xlsx").header_row(9);
    let result = read_single_worksheet(&rows, &opts, &info, None);
    assert_eq!(result.keys, vec!["report", "b"]);
    assert_eq!(result.to_vec().len(), 0);
    assert_eq!(result.num_rows, 5);

    // an empty sheet
    let result = read_single_worksheet(&[], &OptionSet::new("s.xlsx"), &info, None);
    assert_eq!(result.num_rows, 0);
    assert_eq!(result.keys.len(), 0);
    assert_eq!(result.to_vec().len(), 0);
}

#[test]
fn header_row_is_never_a_record() {
    let info = WorkbookInfo::simple(&PathData::new("s.xlsx"));
    let rows = vec![
        vec![text("Name"), text("Amount"), RawCell::Empty],
        vec![text("Name"), text("Amount"), RawCell::Empty],
        vec![text("x"), RawCell::Int(1), RawCell::Empty],
        vec![text("y"), RawCell::Int(2), RawCell::Empty],
    ];
    // the header row has an empty cell: it gives the keys and is no record
    let opts = OptionSet::new("s.xlsx");
    let result = read_single_worksheet(&rows, &opts, &info, None);
    assert_eq!(result.keys, vec!["name", "amount", "c"]);
    assert_eq!(result.num_rows, 4);
    let kept = result.to_vec();
    // the row after the header row does not repeat it (its empty cell is no key)
    assert_eq!(kept.len(), 3);
    assert_eq!(kept[0].get("name"), Some(&CellValue::Text("Name".to_string())));
    assert_eq!(kept[1].get("name"), Some(&CellValue::Text("x".to_string())));

    // under declared keys the header row is no record either
    let opts = OptionSet::new("s.xlsx").override_headers(&["Product", "Total", "Note"]);
    let result = read_single_worksheet(&rows, &opts, &info, None);
    assert_eq!(result.keys, vec!["product", "total", "note"]);
    assert_eq!(result.to_vec().len(), 3);
    assert_eq!(result.to_vec()[2].get("total"), Some(&CellValue::Integer(2)));

    // a sheet without header: every row is data
    let plain = vec![vec![text("x"), RawCell::Int(1)], vec![text("y"), RawCell::Int(2)]];
    let opts = OptionSet::new("s.xlsx").omit_header().override_headers(&["Product", "Total"]);
    let result = read_single_worksheet(&plain, &opts, &info, None);
    assert_eq!(result.to_vec().len(), 2);
    assert_eq!(result.to_vec()[0].get("product"), Some(&CellValue::Text("x".to_string())));
}

#[test]
fn first_data_row_is_dropped_if_it_repeats_the_header() {
    let info = WorkbookInfo::simple(&PathData::new("s.xlsx"));
    let rows = vec![
        vec![text("Name"), text("Amount")],
        vec![text("Name"), text("Amount")],
        vec![text("Name"), text("Amount")],
        vec![text("x"), RawCell::Int(1)],
    ];
    let opts = OptionSet::new("s.xlsx");
    let headers = sheet_header_keys(&rows, &[], &opts);
    assert_eq!(headers, vec!["name", "amount"]);
    let result = read_single_worksheet(&rows, &opts, &info, None);
    // the first data row repeats the header and is dropped; the next one is kept
    let kept = result.to_vec();
    assert_eq!(kept.len(), 2);
    assert_eq!(kept[0].get("name"), Some(&CellValue::Text("Name".to_string())));
    assert_eq!(kept[1].get("name"), Some(&CellValue::Text("x".to_string())));
    assert_eq!(stream_record(&rows, 0, &opts, &headers), None);
    assert_eq!(stream_record(&rows, 1, &opts, &headers), None);
    assert!(stream_record(&rows, 2, &opts, &headers).is_some());
    assert!(stream_record(&rows, 3, &opts, &headers).is_some());

    // the rows from a position on, a limited number of them
    assert_eq!(capture_rows(&rows, &opts.rows, &headers, 1, 100).len(), 2);
    assert_eq!(capture_rows(&rows, &opts.rows, &headers, 2, 100).len(), 1);
    assert_eq!(capture_rows(&rows, &opts.rows, &headers, 3, 100).len(), 1);
    assert_eq!(capture_rows(&rows, &opts.rows, &headers, 1, 1).len(), 1);
    assert_eq!(capture_rows(&rows, &opts.rows, &headers, 7, 10).len(), 0);
    assert_eq!(capture_rows(&rows, &opts.rows, &headers, 0, 0).len(), 0);
}

#[test]
fn preview_uses_declared_columns_for_the_first_sheet_only() {
    let first = SheetSource {
        name: "A".to_string(),
        rows: vec![vec![text("Code"), text("Price")], vec![text("007"), text("1.256")]],
    };
    let second = SheetSource {
        name: "B".to_string(),
        rows: vec![vec![text("Code"), text("Price")], vec![text("008"), text("2.256")]],
    };
    let mut opts = OptionSet::new("book.ods").read_mode_preview();
    opts.rows.columns = vec![
        Column::new(Some("sku")),
        Column::new_format(Format::Decimal(1), None),
    ];
    let info = WorkbookInfo::new(&PathData::new("book.ods"), &[], &[]);
    let result = read_multiple_worksheets(&[first, second], &opts, &info, 10);
    let sheets = result.data.sheets();
    assert_eq!(sheets[0].keys, vec!["sku", "price"]);
    assert_eq!(sheets[1].keys, vec!["code", "price"]);
    assert_eq!(result.keys, vec!["sku", "price"]);
    // the header row is no record, whatever keys are declared
    assert_eq!(sheets[0].rows.len(), 1);
    assert_eq!(
        sheets[0].rows[0].get("price"),
        Some(&CellValue::Number(Decimal::parse("1.3").unwrap()))
    );
    assert_eq!(sheets[1].rows.len(), 1);
    assert_eq!(sheets[1].rows[0].get("price"), Some(&CellValue::Text("2.256".to_string())));
    assert_eq!(result.num_rows, 4);
}

#[test]
fn delimited_files() {
    let info = WorkbookInfo::simple(&PathData::new("list.csv"));
    let header = vec!["Name".to_string(), "Amount".to_string()];
    let records = vec![
        vec!["a".to_string(), "1".to_string()],
        vec!["b".to_string(), "2".to_string()],
        vec!["c".to_string(), "3".to_string()],
    ];
    let opts = OptionSet::new("list.csv").max_row_count(2);
    let result = read_csv_core(&header, &records, &opts, &info, None);
    assert_eq!(result.num_rows, 4);
    assert_eq!(result.to_vec().len(), 2);
    assert_eq!(result.keys, vec!["name", "amount"]);
    let opts = OptionSet::new("list.csv").omit_header();
    let result = read_csv_core(&header, &records, &opts, &info, Some("out"));
    assert_eq!(result.keys.len(), 0);
    assert_eq!(result.to_vec().len(), 3);
    assert_eq!(result.to_vec()[0].len(), 0);
    assert_eq!(result.out_ref, Some("out".to_string()));
}

#[test]
fn sheets_are_matched_by_name_then_index() {
    let names = vec!["Sales 2023".to_string(), "Costs".to_string(), "Notes".to_string()];
    let opts = OptionSet::new("x.xlsx").sheet_name("sales_2023");
    let (selected, all, indices) = match_sheet_name_and_index(&names, &opts);
    assert_eq!(selected, vec!["Sales 2023"]);
    assert_eq!(all, names);
    assert_eq!(indices, vec![0]);

    let opts = OptionSet::new("x.xlsx")
        .sheet_names(&["notes".to_string(), "missing".to_string(), "COSTS".to_string()]);
    let (selected, _, indices) = match_sheet_name_and_index(&names, &opts);
    assert_eq!(selected, vec!["Notes", "Costs"]);
    assert_eq!(indices, vec![2, 1]);

    // no name matches: the indices decide
    let opts = OptionSet::new("x.xlsx").sheet_name("missing").sheet_indices(&[1, 7, 2]);
    let (selected, _, indices) = match_sheet_name_and_index(&names, &opts);
    assert_eq!(selected, vec!["Costs", "Notes"]);
    assert_eq!(indices, vec![1, 2]);

    // nothing matches: the first sheet
    let opts = OptionSet::new("x.xlsx").sheet_name("missing").sheet_index(9);
    let (selected, _, indices) = match_sheet_name_and_index(&names, &opts);
    assert_eq!(selected, vec!["Sales 2023"]);
    assert_eq!(indices, vec![0]);
    let (selected, all, indices) = match_sheet_name_and_index(&[], &opts);
    assert_eq!(selected.len(), 0);
    assert_eq!(all.len(), 0);
    assert_eq!(indices, vec![0]);

    // the selected sheet is the one that is read
    let source = Source::Workbook(vec![sheet("Sales 2023", 3), sheet("Costs", 8)]);
    let opts = OptionSet::new("x.xlsx").sheet_name("costs");
    let result = process_spreadsheet_direct(&opts, &source).unwrap();
    assert_eq!(result.num_rows, 9);
    assert_eq!(result.selected, Some(vec!["Costs".to_string()]));
    assert_eq!(result.sheets, vec!["Sales 2023", "Costs"]);
}

#[test]
fn data_sets() {
    let info = WorkbookInfo::new(
        &PathData::new("dir/book.xlsx"),
        &["One".to_string()],
        &["One".to_string(), "Two".to_string()],
    );
    assert_eq!(info.name(), "book.xlsx");
    assert_eq!(info.ext(), "xlsx");
    assert_eq!(info.sheets(), vec!["One", "Two"]);
    assert_eq!(info.sheet(1), ("Two".to_string(), 1));
    assert_eq!(info.sheet(5), ("single".to_string(), 5));
    let simple = WorkbookInfo::simple(&PathData::new("list.tsv"));
    assert_eq!(simple.sheets(), vec!["single"]);
    assert_eq!(simple.selected, None);
    assert_eq!(simple.ext(), "tsv");

    let mut record = indexmap::IndexMap::new();
    record.insert("k".to_string(), CellValue::Integer(1));
    let keys = vec!["k".to_string()];
    let sync = OptionSet::new("x.xlsx");
    match DataSet::from_count_and_rows(9, vec![record.clone()], &sync) {
        DataSet::WithRows(n, rows) => {
            assert_eq!(n, 9);
            assert_eq!(rows.len(), 1);
        }
        other => panic!("unexpected {:?}", other),
    }
    let deferred = OptionSet::new("x.xlsx").read_mode_async();
    assert!(matches!(
        DataSet::from_count_and_rows(9, vec![record.clone()], &deferred),
        DataSet::Count(9)
    ));
    let result = ResultSet::new(&info, &keys, DataSet::Count(12), Some("ref"));
    assert_eq!(result.num_rows, 12);
    assert_eq!(result.to_vec().len(), 0);
    assert_eq!(result.out_ref, Some("ref".to_string()));
    let result = ResultSet::new(&info, &keys, DataSet::WithRows(3, vec![record.clone()]), None);
    assert_eq!(result.num_rows, 3);
    assert_eq!(result.to_vec(), vec![record.clone()]);
    assert_eq!(result.data.sheets().len(), 0);

    let one = SheetDataSet::new("Sheet One", &keys, &[record.clone()], 4);
    let two = SheetDataSet::new("Two", &[], &[], 6);
    assert_eq!(one.name(), "Sheet One");
    assert_eq!(one.key(), "sheet_one");
    let many = ResultSet::from_multiple(&[one, two], &info);
    assert_eq!(many.num_rows, 10);
    assert_eq!(many.keys, keys);
    assert_eq!(many.sheets, vec!["Sheet One", "Two"]);
    assert_eq!(many.to_vec(), vec![record.clone()]);
    let copy = many.clone();
    assert_eq!(copy.num_rows, many.num_rows);
    assert_eq!(copy.sheets, many.sheets);
    assert_eq!(copy.to_vec(), many.to_vec());
    assert_eq!(copy.data.sheets().len(), 2);
    assert_eq!(info.clone().sheets(), info.sheets());
    assert_eq!(RawCell::Float(Decimal::parse("1.5").unwrap()).clone().display_text(), "1.5");
    assert_eq!(SpreadData::from_multiple(&[]).first_sheet().len(), 0);
    assert_eq!(SpreadData::from_single(vec![record.clone()]).first_sheet(), vec![record]);
    assert_eq!(ResultSet::from_multiple(&[], &info).num_rows, 0);
}
