use spreadsheet_to_json::column::{Column, RowOptionSet};
use spreadsheet_to_json::decimal::Decimal;
use spreadsheet_to_json::format::{match_custom_dt, match_custom_truthy, Format};
use spreadsheet_to_json::modes::{FieldNameMode, ReadMode};
use spreadsheet_to_json::options::{OptionSet, DEFAULT_MAX_ROWS, DEFAULT_MAX_ROWS_PREVIEW};
use spreadsheet_to_json::path_data::{Extension, PathData};
use spreadsheet_to_json::value::CellValue;

#[test]
fn test_format_mode() {
    let custom_boolean = Format::truthy_custom("si", "no");
    assert_eq!(custom_boolean.to_string(), "truthy(si,no)");
}

#[test]
fn test_match_truthy_custom() {
    let (true_keys, false_keys) = match_custom_truthy("tr:si,no").unwrap();
    assert_eq!("si", true_keys);
    assert_eq!("no", false_keys);
}

#[test]
fn format_grammar_fixed_keys() {
    assert!(matches!(Format::from_key("i"), Format::Integer));
    assert!(matches!(Format::from_key("integer"), Format::Integer));
    assert!(matches!(Format::from_key("d1"), Format::Decimal(1)));
    assert!(matches!(Format::from_key("d3"), Format::Decimal(3)));
    assert!(matches!(Format::from_key("decimal_5"), Format::Decimal(5)));
    assert!(matches!(Format::from_key("d6"), Format::Decimal(6)));
    assert!(matches!(Format::from_key("d7"), Format::Decimal(6)));
    assert!(matches!(Format::from_key("d8"), Format::Decimal(6)));
    assert!(matches!(Format::from_key("b"), Format::Boolean));
    assert!(matches!(Format::from_key("da"), Format::Date));
    assert!(matches!(Format::from_key("dt"), Format::DateTime));
    assert!(matches!(Format::from_key("tr"), Format::Truthy));
    assert!(matches!(Format::from_key("fl"), Format::Float));
    assert!(matches!(Format::from_key("f"), Format::Float));
    assert!(matches!(Format::from_key("s"), Format::Text));
    assert!(matches!(Format::from_key("t"), Format::Text));
    // no key is ever refused
    assert!(matches!(Format::from_key("whatever"), Format::Auto));
    assert!(matches!(Format::from_key(""), Format::Auto));
    assert!(matches!(Format::from_key("D3"), Format::Auto));
    assert!(matches!("d2".parse::<Format>(), Ok(Format::Decimal(2))));
}

#[test]
fn format_grammar_open_forms() {
    match Format::from_key("dt:%d/%m/%Y") {
        Format::DateTimeCustom(pattern) => assert_eq!(pattern, "%d/%m/%Y"),
        other => panic!("unexpected format {:?}", other),
    }
    assert_eq!(match_custom_dt(" DT:%H ").unwrap(), "%H");
    assert_eq!(match_custom_dt("d:%H"), None);
    match Format::from_key("tr:si|vero,no|falso") {
        Format::TruthyCustom(rules) => {
            assert_eq!(rules.len(), 4);
            assert_eq!(rules[1].pattern, "vero");
            assert!(rules[1].is_true);
            assert_eq!(rules[2].pattern, "no");
            assert!(!rules[2].is_true);
        }
        other => panic!("unexpected format {:?}", other),
    }
    assert_eq!(match_custom_truthy("tr:si"), None);
    assert_eq!(match_custom_truthy("tr:,no"), None);
    assert_eq!(match_custom_truthy("x:si,no"), None);
    assert_eq!(
        match_custom_truthy("Truthy:a,b,c"),
        Some(("a".to_string(), "b,c".to_string()))
    );
}

#[test]
fn format_names() {
    assert_eq!(Format::Auto.to_string(), "auto");
    assert_eq!(Format::Decimal(3).to_string(), "decimal(3)");
    assert_eq!(Format::DateTimeCustom("%Y".to_string()).to_string(), "datetime(%Y)");
    assert_eq!(Format::truthy_custom("a|b", "c").to_string(), "truthy(a|b,c)");
    assert_eq!(Format::Truthy.clone().to_string(), "truthy");
}

#[test]
fn read_mode_keys() {
    assert_eq!(ReadMode::from_key("async"), ReadMode::Async);
    assert_eq!(ReadMode::from_key("A"), ReadMode::Async);
    assert_eq!(ReadMode::from_key("De-ferred"), ReadMode::Async);
    assert_eq!(ReadMode::from_key("preview"), ReadMode::PreviewMultiple);
    assert_eq!(ReadMode::from_key("preview_multiple"), ReadMode::PreviewMultiple);
    assert_eq!(ReadMode::from_key("m"), ReadMode::PreviewMultiple);
    assert_eq!(ReadMode::from_key("sync"), ReadMode::Sync);
    assert_eq!(ReadMode::from_key("anything"), ReadMode::Sync);
    assert!(ReadMode::Async.is_async());
    assert!(!ReadMode::Sync.is_async());
    assert!(ReadMode::PreviewMultiple.is_multimode());
    assert_eq!(ReadMode::Async.to_string(), "deferred");
    assert_eq!(ReadMode::PreviewMultiple.to_string(), "preview");
    assert_eq!(ReadMode::Sync.to_string(), "direct");
    assert_eq!(ReadMode::default(), ReadMode::Sync);
}

#[test]
fn field_name_mode_keys() {
    assert_eq!(FieldNameMode::from_key("a1", false), FieldNameMode::AutoA1);
    assert_eq!(FieldNameMode::from_key("A1", true), FieldNameMode::A1);
    assert_eq!(FieldNameMode::from_key("c01", false), FieldNameMode::AutoNumPadded);
    assert_eq!(FieldNameMode::from_key("Num", true), FieldNameMode::NumPadded);
    assert_eq!(FieldNameMode::from_key("other", true), FieldNameMode::AutoA1);
    assert!(FieldNameMode::A1.use_a1() && FieldNameMode::AutoA1.use_a1());
    assert!(FieldNameMode::NumPadded.use_c01() && FieldNameMode::AutoNumPadded.use_c01());
    assert!(FieldNameMode::A1.override_headers() && FieldNameMode::NumPadded.override_headers());
    assert!(FieldNameMode::AutoA1.keep_headers() && !FieldNameMode::A1.keep_headers());
    assert_eq!(FieldNameMode::AutoNumPadded.to_string(), "C01 auto");
    assert_eq!(FieldNameMode::A1.to_string(), "A1 override");
    assert_eq!(FieldNameMode::default(), FieldNameMode::AutoA1);
}

#[test]
fn extensions_and_paths() {
    assert_eq!(Extension::from_path("data/sample.XLSX"), Extension::Xlsx);
    assert_eq!(Extension::from_path("data/sample.ods"), Extension::Ods);
    assert_eq!(Extension::from_path("sample.tsv"), Extension::Tsv);
    assert_eq!(Extension::from_path("sample"), Extension::Unmatched);
    assert_eq!(Extension::from_path("sample.txt"), Extension::Unmatched);
    assert_eq!(Extension::from_extension("Csv"), Extension::Csv);
    assert!(Extension::Xlsb.use_calamine() && Extension::Xls.use_calamine());
    assert!(!Extension::Csv.use_calamine());
    assert!(Extension::Csv.use_csv() && Extension::Tsv.use_csv());
    assert!(!Extension::Unmatched.use_csv());
    assert_eq!(Extension::Xls.to_string(), "xls");
    assert_eq!(Extension::Unmatched.to_string(), "");

    let data = PathData::new("data/sample-data-1.csv");
    assert_eq!(data.mode(), Extension::Csv);
    assert_eq!(data.ext(), Extension::Csv);
    assert_eq!(data.extension(), "csv");
    assert_eq!(data.path(), "data/sample-data-1.csv");
    assert_eq!(data.filename(), "sample-data-1.csv");
    assert!(data.is_valid());
    assert!(!data.use_calamine());
    assert!(!PathData::new("notes.md").is_valid());
}

#[test]
fn option_set_builders() {
    let opts = OptionSet::new("data/sample.xlsx");
    assert_eq!(opts.path.as_deref(), Some("data/sample.xlsx"));
    assert_eq!(opts.indices, vec![0]);
    assert_eq!(opts.max_rows(), DEFAULT_MAX_ROWS);
    assert_eq!(opts.max_rows(), 10_000);
    assert_eq!(opts.file_name(), Some("sample.xlsx".to_string()));
    assert!(opts.capture_rows() && !opts.is_async() && !opts.multimode());
    assert_eq!(opts.read_mode(), ReadMode::Sync);

    let opts = opts
        .sheet_name("Sheet 2")
        .sheet_index(3)
        .max_row_count(25)
        .header_row(2)
        .omit_header()
        .json_lines()
        .read_mode_preview()
        .field_name_mode("c01", true);
    assert_eq!(opts.selected, Some(vec!["Sheet 2".to_string()]));
    assert_eq!(opts.indices, vec![3]);
    assert_eq!(opts.max_rows(), 25);
    assert_eq!(opts.header_row_index(), 2);
    assert!(opts.omit_header && opts.jsonl && opts.multimode());
    assert_eq!(opts.field_mode, FieldNameMode::NumPadded);
    assert_eq!(opts.row_mode(), "JSON lines");
    assert_eq!(opts.header_mode(), "ignore");

    let opts = OptionSet::new("x.ods").read_mode_preview();
    assert_eq!(opts.max_rows(), DEFAULT_MAX_ROWS_PREVIEW);
    assert_eq!(opts.max_rows(), 1000);
    let opts = opts.set_read_mode("async").set_json_lines(false).sheet_indices(&[1, 2]);
    assert!(opts.is_async() && !opts.capture_rows());
    assert_eq!(opts.index_list(), "1, 2");
    let opts = opts.sheet_names(&["a".to_string(), "b".to_string()]).read_mode_async();
    assert_eq!(opts.selected.as_ref().map(|s| s.len()), Some(2));
    let copy = opts.clone();
    assert_eq!(copy.selected, opts.selected);
    assert_eq!(OptionSet::default().path, None);
}

#[test]
fn option_set_override_headers() {
    let opts = OptionSet::new("x.csv").override_headers(&["First Name", "lastName", ""]);
    let cols = opts.columns();
    assert_eq!(cols.len(), 3);
    assert_eq!(cols[0].key_name(), "first_name");
    assert_eq!(cols[1].key_name(), "last_name");
    assert_eq!(cols[2].key_name(), "");
    assert!(matches!(cols[0].format, Format::Auto));
}

#[test]
fn option_set_lines() {
    let opts = OptionSet::new("data/sample.xlsx").max_row_count(10);
    assert_eq!(
        opts.to_lines(),
        vec![
            "sheet indices: 0",
            "file name: sample.xlsx",
            "max rows: 10",
            "mode: JSON",
            "headers: capture",
            "header row: 0",
            "decimal separator: .",
            "date mode: date/time",
            "column style: A1 auto",
        ]
    );
    let mut opts = OptionSet::new("data/sample.xlsx")
        .sheet_names(&["One".to_string(), "Two".to_string()])
        .max_row_count(0);
    opts.rows = RowOptionSet::new(
        &[
            Column::new(Some("sku")),
            Column::new_format(Format::Decimal(2), Some(CellValue::Integer(-4)))
                .set_date_only(true)
                .set_decimal_comma(true),
        ],
        true,
        true,
    );
    assert_eq!(
        opts.to_lines_with(None),
        vec![
            "sheet names: One,Two",
            "mode: JSON",
            "headers: capture",
            "header row: 0",
            "decimal separator: ,",
            "date mode: date only",
            "column style: A1 auto",
            "columns:",
            "\tkey sku, format auto",
            "\tkey , format decimal(2)default: -4, date only, decimal comma",
        ]
    );
}

#[test]
fn column_builders() {
    let col = Column::new(Some("price"))
        .set_format(Format::Decimal(2))
        .set_default(CellValue::Number(Decimal::parse("9.5").unwrap()));
    assert_eq!(col.key_name(), "price");
    assert_eq!(col.to_line(), "\tkey price, format decimal(2)default: 9.5");
    let col = Column::new_format(Format::Text, Some(CellValue::Text("n/a \"x\"".to_string())));
    assert_eq!(col.key, None);
    assert_eq!(col.to_line(), "\tkey , format textdefault: \"n/a \\\"x\\\"\"");
    let copy = col.clone();
    assert_eq!(copy.default, col.default);

    let rows = RowOptionSet::simple(&[col]);
    assert!(rows.column(0).is_some());
    assert!(rows.column(1).is_none());
    assert_eq!(rows.date_mode(), "date/time");
    assert_eq!(rows.decimal_separator(), ".");
    let rows = RowOptionSet::new(&[], true, true);
    assert_eq!(rows.date_mode(), "date only");
    assert_eq!(rows.decimal_separator(), ",");
    assert_eq!(RowOptionSet::default().columns.len(), 0);
}
