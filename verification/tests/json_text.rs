use indexmap::IndexMap;
use spreadsheet_to_json::column::Column;
use spreadsheet_to_json::data_set::{DataSet, ResultSet, SheetDataSet, SpreadData, WorkbookInfo};
use spreadsheet_to_json::decimal::Decimal;
use spreadsheet_to_json::error::GenericError;
use spreadsheet_to_json::format::Format;
use spreadsheet_to_json::json_text::{
    failure_report, failure_report_with, json_array, json_bool_text, json_member_text,
    json_object, json_texts, record_to_json, records_to_lines, rows_to_json,
};
use spreadsheet_to_json::options::OptionSet;
use spreadsheet_to_json::path_data::PathData;
use spreadsheet_to_json::value::CellValue;

fn record(entries: Vec<(&str, CellValue)>) -> IndexMap<String, CellValue> {
    entries.into_iter().map(|(k, v)| (k.to_string(), v)).collect()
}

fn info() -> WorkbookInfo {
    WorkbookInfo::new(
        &PathData::new("dir/book.xlsx"),
        &["One".to_string()],
        &["One".to_string(), "Two".to_string()],
    )
}

#[test]
fn json_building_blocks() {
    assert_eq!(json_array(&vec![]), "[]");
    assert_eq!(json_array(&vec!["1".to_string(), "true".to_string()]), "[1,true]");
    assert_eq!(json_object(&vec![]), "{}");
    assert_eq!(json_member_text("a b", "1"), "\"a b\":1");
    assert_eq!(json_object(&vec![json_member_text("a", "1"), json_member_text("b", "[]")]), "{\"a\":1,\"b\":[]}");
    assert_eq!(json_bool_text(true), "true");
    assert_eq!(json_bool_text(false), "false");
    assert_eq!(json_texts(&["x".to_string(), "y\n".to_string()]), "[\"x\",\"y\\n\"]");
}

#[test]
fn records_as_json() {
    let row = record(vec![
        ("id", CellValue::Integer(1)),
        ("name", CellValue::Text("a\"b".to_string())),
        ("ok", CellValue::Bool(true)),
        ("x", CellValue::Null),
        ("n", CellValue::Number(Decimal::parse("1.50").unwrap())),
    ]);
    let expected = "{\"id\":1,\"name\":\"a\\\"b\",\"ok\":true,\"x\":null,\"n\":1.50}";
    assert_eq!(record_to_json(&row), expected);
    assert_eq!(record_to_json(&IndexMap::new()), "{}");
    let second = record(vec![("id", CellValue::Integer(-2))]);
    assert_eq!(
        records_to_lines(&[row.clone(), second.clone()]),
        vec![expected.to_string(), "{\"id\":-2}".to_string()]
    );
    assert_eq!(rows_to_json(&[second.clone(), second]), "[{\"id\":-2},{\"id\":-2}]");
    // the text is JSON that reads back to the same values
    let parsed: serde_json::Value = serde_json::from_str(expected).unwrap();
    assert_eq!(parsed.get("name").and_then(|v| v.as_str()), Some("a\"b"));
    assert_eq!(parsed.get("n").and_then(|v| v.as_f64()), Some(1.5));
}

#[test]
fn results_as_json() {
    let keys = vec!["k".to_string()];
    let row = record(vec![("k", CellValue::Integer(1))]);
    let result = ResultSet::new(&info(), &keys, DataSet::WithRows(3, vec![row.clone()]), None);
    assert_eq!(
        result.to_json(),
        "{\"name\":\"book.xlsx\",\"extension\":\"xlsx\",\"selected\":[\"One\"],\
         \"sheets\":[\"One\",\"Two\"],\"num_rows\":3,\"fields\":[\"k\"],\"data\":[{\"k\":1}]}"
    );
    assert_eq!(result.json_rows(), "[{\"k\":1}]");
    assert_eq!(result.rows(), vec!["{\"k\":1}"]);
    assert_eq!(
        result.to_output_lines(false),
        vec![
            "name:book.xlsx",
            "extension: xlsx",
            "sheet: name: One",
            "sheets: One, Two",
            "row count: 3",
            "fields: k",
            "data:",
            "[{\"k\":1}]",
        ]
    );
    assert_eq!(result.to_output_lines(true).last().unwrap(), "data:");

    // rows that went elsewhere are not part of the output
    let streamed = ResultSet::new(&info(), &keys, DataSet::Count(9), Some("table_a"));
    assert_eq!(
        streamed.to_json(),
        "{\"name\":\"book.xlsx\",\"extension\":\"xlsx\",\"selected\":[\"One\"],\
         \"sheets\":[\"One\",\"Two\"],\"num_rows\":9,\"fields\":[\"k\"],\"outref\":\"table_a\"}"
    );
    assert_eq!(streamed.to_output_lines(true).last().unwrap(), "output reference: table_a");
    assert_eq!(streamed.to_output_lines(false).len(), 7);

    let one = SheetDataSet::new("Sheet One", &keys, &[row.clone()], 4);
    let two = SheetDataSet::new("Two", &[], &[], 6);
    assert_eq!(
        one.to_json(),
        "{\"sheet\":[\"Sheet One\",\"sheet_one\"],\"num_rows\":4,\"keys\":[\"k\"],\"rows\":[{\"k\":1}]}"
    );
    let many = ResultSet::from_multiple(&[one, two], &info());
    assert_eq!(
        many.to_json(),
        "{\"name\":\"book.xlsx\",\"extension\":\"xlsx\",\"selected\":[],\
         \"sheets\":[\"Sheet One\",\"Two\"],\"num_rows\":10,\"fields\":[\"k\"],\"data\":[\
         {\"sheet\":[\"Sheet One\",\"sheet_one\"],\"num_rows\":4,\"keys\":[\"k\"],\"rows\":[{\"k\":1}]},\
         {\"sheet\":[\"Two\",\"two\"],\"num_rows\":6,\"keys\":[],\"rows\":[]}]}"
    );
    assert_eq!(
        many.to_output_lines(true),
        vec![
            "name:book.xlsx",
            "extension: xlsx",
            "sheet: name: ",
            "sheets: Sheet One, Two",
            "row count: 10",
            "fields: k",
            "data:",
            "Sheet: Sheet One :",
            "{\"k\":1}",
            "Sheet: Two :",
        ]
    );
    assert_eq!(SpreadData::from_single(vec![]).to_json(), "[]");
}

#[test]
fn options_as_json() {
    let opts = OptionSet::new("data/sample.xlsx").max_row_count(10);
    let flags = "\"omit_header\":false,\"header_row\":0,\"read_mode\":\"direct\",\"jsonl\":false,\
                 \"decimal_separator\":\".\",\"date_only\":false";
    assert_eq!(
        opts.to_json_with(Some("sample.xlsx".to_string())),
        ["{\"file name\":\"sample.xlsx\",\"max\":10,", flags, "}"].concat()
    );
    assert_eq!(opts.to_json(), opts.to_json_with(Some("sample.xlsx".to_string())));
    let opts = OptionSet::new("data/sample.xlsx").sheet_name("S");
    assert_eq!(
        opts.to_json_with(None),
        ["{\"selected\":{\"sheet\":\"S\",\"index\":0},", flags, "}"].concat()
    );
    let mut opts = OptionSet::new("data/sample.xlsx")
        .sheet_names(&["S".to_string(), "T".to_string()])
        .sheet_indices(&[4, 5])
        .read_mode_preview()
        .json_lines()
        .omit_header()
        .header_row(3);
    opts.rows.columns = vec![
        Column::new(Some("sku")),
        Column::new_format(Format::Decimal(2), Some(CellValue::Text("n/a".to_string())))
            .set_decimal_comma(true),
    ];
    opts.rows.decimal_comma = true;
    opts.rows.date_only = true;
    assert_eq!(
        opts.to_json_with(None),
        "{\"selected\":{\"sheets\":[\"S\",\"T\"],\"indices\":[4,5]},\
         \"omit_header\":true,\"header_row\":3,\"read_mode\":\"preview\",\"jsonl\":true,\
         \"decimal_separator\":\",\",\"date_only\":true,\"columns\":[\
         {\"key\":\"sku\",\"format\":\"auto\",\"default\":null,\"date_only\":false,\"decimal_comma\":false},\
         {\"key\":\"\",\"format\":\"decimal(2)\",\"default\":\"n/a\",\"date_only\":false,\"decimal_comma\":true}]}"
    );
    assert_eq!(
        Column::new(Some("sku")).to_json(),
        "{\"key\":\"sku\",\"format\":\"auto\",\"default\":null,\"date_only\":false,\"decimal_comma\":false}"
    );
}

#[test]
fn failures_as_json() {
    let error = GenericError("file_unavailable");
    assert_eq!(
        failure_report_with(&error, "{}"),
        "{\"error\":true,\"message\":\"file_unavailable\",\"options\":{}}"
    );
    let opts = OptionSet::new("missing.csv");
    let report = failure_report(&error, &opts);
    let parsed: serde_json::Value = serde_json::from_str(&report).unwrap();
    assert_eq!(parsed.get("error").and_then(|v| v.as_bool()), Some(true));
    assert_eq!(parsed.get("message").and_then(|v| v.as_str()), Some("file_unavailable"));
    assert_eq!(
        parsed.get("options").and_then(|o| o.get("file name")).and_then(|v| v.as_str()),
        Some("missing.csv")
    );
}
