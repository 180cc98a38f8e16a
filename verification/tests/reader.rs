use spreadsheet_to_json::cell::{DateTimeParts, RawCell};
use spreadsheet_to_json::column::{Column, RowOptionSet};
use spreadsheet_to_json::decimal::Decimal;
use spreadsheet_to_json::format::Format;
use spreadsheet_to_json::reader::{
    coerce_cell, coerce_csv_cell, csv_cell_to_json_value, csv_number_string, csv_row_to_values,
    first_decimal, first_number, process_date_value, process_excel_datetime_value,
    process_float_value, process_numeric_value, process_string_value, process_truthy_value,
    to_index_map, workbook_cell_to_value, workbook_row_to_map, workbook_row_to_values,
};
use spreadsheet_to_json::value::{
    bool_value, float_value, integer_value, string_value, CellValue,
};

fn text(s: &str) -> RawCell {
    RawCell::Text(s.to_string())
}

fn dec(s: &str) -> Decimal {
    Decimal::parse(s).unwrap()
}

fn number(value: &CellValue) -> f64 {
    match value {
        CellValue::Number(d) => d.to_text().parse::<f64>().unwrap(),
        CellValue::Integer(i) => *i as f64,
        other => panic!("not a number: {:?}", other),
    }
}

#[test]
fn test_column_override_1() {
    let rows = vec![text("CHAIR16"), text("112cm"), text("69cm"), text("Y")];

    let cols = vec![
        Column::new_format(Format::Text, Some(string_value(""))),
        Column::new_format(Format::Float, Some(float_value(dec("95.0")))),
        Column::new_format(Format::Float, Some(float_value(dec("65.0")))),
        Column::new_format(Format::Truthy, Some(bool_value(false))),
    ];

    let opts = &RowOptionSet::simple(&cols);
    let result = workbook_row_to_values(&rows, opts);
    // the second column be cast to 112.0
    assert_eq!(number(result.get(1).unwrap()), 112.0);
    // the third column be cast to 69.0
    assert_eq!(number(result.get(2).unwrap()), 69.0);
    // the fourth column be cast to boolean
    assert_eq!(result.get(3).unwrap(), &CellValue::Bool(true));
}

#[test]
fn test_column_override_2() {
    let rows = vec![text("Sophia"), text("2001-9-23"), text("62kg"), text("GOOD")];

    let cols = vec![
        Column::new_format(Format::Text, None),
        Column::new_format(Format::Date, None),
        Column::new_format(Format::Float, None),
        // the fourth column be cast to boolean
        Column::new_format(Format::truthy_custom("good", "bad"), Some(bool_value(false))),
    ];

    let opts = &RowOptionSet::simple(&cols);
    let result = workbook_row_to_values(&rows, opts);
    assert_eq!(result.get(1).unwrap(), &CellValue::Text("2001-09-23".to_string()));
    assert_eq!(number(result.get(2).unwrap()), 62.0);
    assert_eq!(result.get(3).unwrap(), &CellValue::Bool(true));
}

#[test]
fn native_numbers() {
    let none = None;
    assert_eq!(coerce_cell(&RawCell::Int(42), &Format::Auto, &none, false), integer_value(42));
    assert_eq!(coerce_cell(&RawCell::Int(42), &Format::Text, &none, false), integer_value(42));
    assert_eq!(process_float_value(&dec("12.75"), &Format::Integer, &none), integer_value(12));
    assert_eq!(process_float_value(&dec("-12.75"), &Format::Integer, &none), integer_value(-12));
    assert_eq!(
        process_float_value(&dec("12.756"), &Format::Decimal(2), &none),
        float_value(dec("12.76"))
    );
    assert_eq!(process_float_value(&dec("12.756"), &Format::Float, &none), float_value(dec("12.756")));
    assert_eq!(process_float_value(&dec("12.756"), &Format::Auto, &none), float_value(dec("12.756")));
    // a whole part beyond 64 bits cannot be truncated: the default stands in
    let huge = dec("123456789012345678901234567890.5");
    assert_eq!(process_float_value(&huge, &Format::Integer, &none), CellValue::Null);
    assert_eq!(
        process_float_value(&huge, &Format::Integer, &Some(integer_value(-1))),
        integer_value(-1)
    );
    assert_eq!(coerce_cell(&RawCell::Bool(true), &Format::Integer, &none, false), bool_value(true));
}

#[test]
fn native_dates() {
    let when = Some(DateTimeParts { year: 2024, month: 2, day: 9, hour: 7, minute: 5, second: 3 });
    let none = None;
    assert_eq!(
        process_excel_datetime_value(&when, &Format::Auto, &none, false),
        string_value("2024-02-09T07:05:03")
    );
    assert_eq!(
        process_excel_datetime_value(&when, &Format::DateTime, &none, false),
        string_value("2024-02-09T07:05:03")
    );
    assert_eq!(
        process_excel_datetime_value(&when, &Format::Date, &none, false),
        string_value("2024-02-09")
    );
    assert_eq!(
        process_excel_datetime_value(&when, &Format::Auto, &none, true),
        string_value("2024-02-09")
    );
    assert_eq!(
        process_excel_datetime_value(&when, &Format::DateTime, &none, true),
        string_value("2024-02-09")
    );
    assert_eq!(process_excel_datetime_value(&None, &Format::Date, &none, false), CellValue::Null);
    assert_eq!(
        process_excel_datetime_value(&None, &Format::Date, &Some(string_value("n/a")), false),
        string_value("n/a")
    );
    let early = DateTimeParts { year: 987, month: 12, day: 31, hour: 23, minute: 59, second: 59 };
    assert_eq!(early.to_date_string(), "0987-12-31");
    assert_eq!(early.to_datetime_string(), "0987-12-31T23:59:59");
    assert_eq!(RawCell::DateTime(when).display_text(), "2024-02-09T07:05:03");
}

#[test]
fn empty_and_other_cells() {
    assert_eq!(coerce_cell(&RawCell::Empty, &Format::Integer, &None, false), CellValue::Null);
    assert_eq!(
        coerce_cell(&RawCell::Empty, &Format::Integer, &Some(integer_value(7)), false),
        integer_value(7)
    );
    assert_eq!(
        coerce_cell(&RawCell::Other("#DIV/0!".to_string()), &Format::Integer, &None, false),
        string_value("#DIV/0!")
    );
    assert_eq!(RawCell::Empty.display_text(), "");
    assert_eq!(RawCell::Int(-3).display_text(), "-3");
    assert_eq!(RawCell::Float(dec("2.50")).display_text(), "2.50");
    assert_eq!(RawCell::Bool(false).display_text(), "false");
}

#[test]
fn string_cells_by_format() {
    let none = None;
    let fallback = Some(string_value("?"));
    assert_eq!(process_string_value("TRUE", &Format::Boolean, &none), bool_value(true));
    assert_eq!(process_string_value("yes", &Format::Boolean, &none), CellValue::Null);
    assert_eq!(process_string_value("yes", &Format::Boolean, &fallback), string_value("?"));
    assert_eq!(process_string_value("yes", &Format::Truthy, &none), bool_value(true));
    assert_eq!(process_string_value("nope", &Format::Truthy, &fallback), string_value("?"));
    let custom = Format::truthy_custom("si|vero", "no|falso");
    assert_eq!(process_string_value("Vero", &custom, &none), bool_value(true));
    assert_eq!(process_string_value("falso", &custom, &none), bool_value(false));
    // the strict rules are no fallback for rules of the caller's
    assert_eq!(process_string_value("true", &custom, &none), CellValue::Null);
    assert_eq!(process_string_value("1", &custom, &fallback), string_value("?"));

    assert_eq!(process_string_value("ca. 12.3456 kg", &Format::Decimal(2), &none), float_value(dec("12.35")));
    assert_eq!(process_string_value("ca. 12.3456 kg", &Format::Float, &none), float_value(dec("12.3456")));
    assert_eq!(process_string_value("none here", &Format::Float, &none), CellValue::Null);
    assert_eq!(process_string_value("none here", &Format::Decimal(1), &fallback), string_value("?"));

    assert_eq!(process_string_value("2023-9-10", &Format::Date, &none), string_value("2023-09-10"));
    assert_eq!(
        process_string_value("2023-9-10 8:30", &Format::DateTime, &none),
        string_value("2023-09-10T08:30:00.000Z")
    );
    assert_eq!(
        process_string_value("2023-9-10 8:30", &Format::DateTimeCustom("%Y".to_string()), &none),
        string_value("2023-09-10T08:30:00.000Z")
    );
    assert_eq!(process_string_value("10:10:10", &Format::DateTime, &none), CellValue::Null);
    assert_eq!(process_string_value("2023-13-10", &Format::Date, &fallback), string_value("?"));

    assert_eq!(process_string_value(" 12 ", &Format::Text, &fallback), string_value(" 12 "));
    assert_eq!(process_string_value(" 12 ", &Format::Auto, &fallback), string_value(" 12 "));
    assert_eq!(process_string_value("12", &Format::Integer, &fallback), string_value("12"));
}

#[test]
fn text_format_is_a_no_op_on_coerced_text() {
    let cols = vec![
        Column::new_format(Format::Date, None),
        Column::new_format(Format::DateTime, None),
        Column::new_format(Format::Auto, None),
    ];
    let rows = vec![text("2001-9-23"), text("2001-9-23 4:05"), text("  Mixed Case, 1.5 ")];
    let first = workbook_row_to_values(&rows, &RowOptionSet::simple(&cols));
    let as_text = vec![
        Column::new_format(Format::Text, Some(string_value("unused"))),
        Column::new_format(Format::Text, None),
        Column::new_format(Format::Text, None),
    ];
    let again: Vec<RawCell> = first
        .iter()
        .map(|v| match v {
            CellValue::Text(s) => RawCell::Text(s.clone()),
            other => panic!("not a text: {:?}", other),
        })
        .collect();
    let second = workbook_row_to_values(&again, &RowOptionSet::simple(&as_text));
    assert_eq!(first, second);
}

#[test]
fn helper_values() {
    assert_eq!(process_truthy_value(Some(false), &None), bool_value(false));
    assert_eq!(process_truthy_value(None, &Some(bool_value(true))), bool_value(true));
    assert_eq!(process_truthy_value(None, &None), CellValue::Null);
    assert_eq!(process_date_value(Some("2020-01-01".to_string()), &None), string_value("2020-01-01"));
    assert_eq!(process_date_value(None, &None), CellValue::Null);
    assert_eq!(process_numeric_value("x 3.14159 y", &None, Some(3)), float_value(dec("3.142")));
    assert_eq!(process_numeric_value("x 3.14159 y", &None, None), float_value(dec("3.14159")));
    assert_eq!(first_number("abc"), None);
    assert_eq!(first_number("weight: -62.5kg, height 170"), Some(dec("-62.5")));
    assert_eq!(first_number("1,256.67"), Some(dec("1256.67")));
    assert_eq!(
        first_decimal(&vec!["x".to_string(), "1.".to_string(), "2".to_string()]),
        Some(dec("1"))
    );
    assert_eq!(first_decimal(&vec!["x".to_string(), "".to_string()]), None);
    assert_eq!(integer_value(5).to_json_text(), "5");
    assert_eq!(string_value("a\"b").to_json_text(), "\"a\\\"b\"");
    assert_eq!(CellValue::Null.to_json_text(), "null");
    assert_eq!(bool_value(true).to_json_text(), "true");
    assert_eq!(float_value(dec("-0.50")).to_json_text(), "-0.50");
}

#[test]
fn cells_by_position() {
    let cols = vec![
        Column::new_format(Format::Integer, Some(integer_value(0))).set_date_only(true),
        Column::new_format(Format::DateTime, None),
    ];
    let when = RawCell::DateTime(Some(DateTimeParts {
        year: 2020,
        month: 1,
        day: 2,
        hour: 3,
        minute: 4,
        second: 5,
    }));
    let opts = RowOptionSet::new(&cols, false, false);
    assert_eq!(workbook_cell_to_value(&RawCell::Float(dec("8.9")), &opts, 0), integer_value(8));
    assert_eq!(workbook_cell_to_value(&RawCell::Empty, &opts, 0), integer_value(0));
    assert_eq!(workbook_cell_to_value(&when, &opts, 0), string_value("2020-01-02"));
    assert_eq!(workbook_cell_to_value(&when, &opts, 1), string_value("2020-01-02T03:04:05"));
    // beyond the declared columns: automatic, with the flags of the row options
    assert_eq!(workbook_cell_to_value(&RawCell::Float(dec("8.9")), &opts, 2), float_value(dec("8.9")));
    assert_eq!(workbook_cell_to_value(&RawCell::Empty, &opts, 2), CellValue::Null);
    assert_eq!(workbook_cell_to_value(&when, &opts, 2), string_value("2020-01-02T03:04:05"));
    let date_only = RowOptionSet::new(&cols, false, true);
    assert_eq!(workbook_cell_to_value(&when, &date_only, 1), string_value("2020-01-02"));
    assert_eq!(workbook_cell_to_value(&when, &date_only, 2), string_value("2020-01-02"));
}

#[test]
fn records_follow_the_keys() {
    let headers = vec!["a".to_string(), "b".to_string(), "c".to_string()];
    let row = vec![integer_value(1), string_value("x")];
    let record = to_index_map(&row, &headers);
    assert_eq!(record.len(), 2);
    let keys: Vec<&String> = record.keys().collect();
    assert_eq!(keys, vec!["a", "b"]);
    assert_eq!(record.get("a"), Some(&integer_value(1)));
    assert_eq!(record.get("b"), Some(&string_value("x")));

    // a key that occurs twice keeps its place and takes the later value
    let headers = vec!["a".to_string(), "b".to_string(), "a".to_string()];
    let row = vec![integer_value(1), integer_value(2), integer_value(3)];
    let record = to_index_map(&row, &headers);
    let entries: Vec<(&String, &CellValue)> = record.iter().collect();
    assert_eq!(entries.len(), 2);
    assert_eq!(entries[0], (&"a".to_string(), &integer_value(3)));
    assert_eq!(entries[1], (&"b".to_string(), &integer_value(2)));

    // more values than keys: the rest is left out
    let record = to_index_map(&row, &["only".to_string()]);
    assert_eq!(record.len(), 1);

    let cells = vec![text("Ann"), RawCell::Int(30)];
    let record = workbook_row_to_map(
        &cells,
        &RowOptionSet::default(),
        &["name".to_string(), "age".to_string()],
    );
    assert_eq!(record.get("name"), Some(&string_value("Ann")));
    assert_eq!(record.get("age"), Some(&integer_value(30)));
}

#[test]
fn delimited_cells_are_texts() {
    let none = None;
    let fallback = Some(string_value("?"));
    // under Text and Auto a delimited cell passes as it is
    for cell in ["Alice", "", "123", "-12.50", "1,256.5", "007", "true", "yes", "2023-9-10", " x "] {
        assert_eq!(coerce_csv_cell(cell, &Format::Text, &none, false), string_value(cell));
        assert_eq!(coerce_csv_cell(cell, &Format::Auto, &fallback, true), string_value(cell));
    }
    let as_text = RowOptionSet::simple(&[Column::new_format(Format::Text, None)]);
    assert_eq!(csv_cell_to_json_value("123", &as_text, 0), string_value("123"));
    // the other formats read the text by the rules for texts
    assert_eq!(coerce_csv_cell("TRUE", &Format::Boolean, &none, false), bool_value(true));
    assert_eq!(coerce_csv_cell("0", &Format::Boolean, &none, false), bool_value(false));
    assert_eq!(coerce_csv_cell("1.5", &Format::Boolean, &none, false), CellValue::Null);
    assert_eq!(coerce_csv_cell("yes", &Format::Boolean, &fallback, false), string_value("?"));
    assert_eq!(coerce_csv_cell("yes", &Format::Truthy, &none, false), bool_value(true));
    assert_eq!(coerce_csv_cell("perhaps", &Format::Truthy, &none, false), CellValue::Null);
    let custom = Format::truthy_custom("si", "no");
    assert_eq!(coerce_csv_cell("Si", &custom, &none, false), bool_value(true));
    assert_eq!(coerce_csv_cell("true", &custom, &none, false), CellValue::Null);
    assert_eq!(coerce_csv_cell("2023-9-10", &Format::Date, &none, false), string_value("2023-09-10"));
    assert_eq!(
        coerce_csv_cell("2023-9-10 7:05", &Format::DateTime, &none, false),
        string_value("2023-09-10T07:05:00.000Z")
    );
    assert_eq!(coerce_csv_cell("10:10:10", &Format::DateTime, &fallback, false), string_value("?"));
}

#[test]
fn delimited_numbers_heed_the_decimal_separator() {
    let none = None;
    let float = Format::Float;
    assert_eq!(coerce_csv_cell("12", &float, &none, false), float_value(dec("12")));
    assert_eq!(coerce_csv_cell("-12.50", &float, &none, false), float_value(dec("-12.50")));
    assert_eq!(coerce_csv_cell("12 kg", &float, &none, false), float_value(dec("12")));
    assert_eq!(coerce_csv_cell("no number", &float, &none, false), CellValue::Null);
    assert_eq!(coerce_csv_cell("no number", &float, &Some(integer_value(0)), false), integer_value(0));
    // a dot after the comma: the comma stands between thousands
    assert_eq!(coerce_csv_cell("1,256.5", &float, &none, false), float_value(dec("1256.5")));
    // a comma after the dot: the comma is the decimal separator
    assert_eq!(coerce_csv_cell("1.256,67", &float, &none, false), float_value(dec("1256.67")));
    // one comma, not three places from the end: a decimal comma
    assert_eq!(coerce_csv_cell("12,5", &float, &none, false), float_value(dec("12.5")));
    // one comma, three places from the end: thousands, unless the column says otherwise
    assert_eq!(coerce_csv_cell("1,256", &float, &none, false), float_value(dec("1256")));
    assert_eq!(coerce_csv_cell("1,256", &float, &none, true), float_value(dec("1.256")));
    assert_eq!(coerce_csv_cell("1.256", &float, &none, false), float_value(dec("1.256")));
    assert_eq!(coerce_csv_cell("1.256", &float, &none, true), float_value(dec("1256")));
    assert_eq!(coerce_csv_cell("1,256", &Format::Integer, &none, false), integer_value(1256));
    assert_eq!(coerce_csv_cell("12.9", &Format::Integer, &none, false), integer_value(12));
    assert_eq!(coerce_csv_cell("007", &Format::Integer, &none, false), integer_value(7));
    assert_eq!(coerce_csv_cell("abc", &Format::Integer, &none, false), CellValue::Null);
    assert_eq!(coerce_csv_cell("12.96", &Format::Decimal(1), &none, false), float_value(dec("13.0")));
    assert_eq!(coerce_csv_cell("12,964", &Format::Decimal(2), &none, true), float_value(dec("12.96")));
}

#[test]
fn text_format_is_a_no_op_on_coerced_delimited_text() {
    let cols = vec![
        Column::new_format(Format::Date, None),
        Column::new_format(Format::DateTime, None),
        Column::new_format(Format::Auto, None),
    ];
    let opts = RowOptionSet::simple(&cols);
    let record = vec!["2001-9-23".to_string(), "2001-9-23 4:05".to_string(), "1,5".to_string()];
    let first = csv_row_to_values(&record, &opts);
    let texts: Vec<String> = first
        .iter()
        .map(|v| match v {
            CellValue::Text(s) => s.clone(),
            other => panic!("not a text: {:?}", other),
        })
        .collect();
    let as_text = RowOptionSet::simple(&[
        Column::new_format(Format::Text, None),
        Column::new_format(Format::Text, Some(string_value("unused"))),
        Column::new_format(Format::Text, None).set_decimal_comma(true),
    ]);
    assert_eq!(csv_row_to_values(&texts, &as_text), first);
}

#[test]
fn delimited_rows() {
    let cols = vec![
        Column::new_format(Format::Text, None),
        Column::new_format(Format::Integer, None).set_decimal_comma(true),
    ];
    let opts = RowOptionSet::new(&cols, false, false);
    assert_eq!(csv_cell_to_json_value("1,256", &opts, 1), integer_value(1));
    // beyond the declared columns: automatic, the text as it is
    assert_eq!(csv_cell_to_json_value("1,256", &opts, 2), string_value("1,256"));
    let record = vec!["x".to_string(), "3,75".to_string(), "4".to_string()];
    assert_eq!(
        csv_row_to_values(&record, &opts),
        vec![string_value("x"), integer_value(3), string_value("4")]
    );
    assert_eq!(csv_number_string("1.256,67", false), "1256.67");
    assert_eq!(csv_number_string("1,256.67", false), "1256.67");
    assert_eq!(csv_number_string("1,256", true), "1.256");
}
