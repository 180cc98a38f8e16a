use indexmap::IndexMap;
use spreadsheet_to_json::args::{
    column_from_entry, columns_from_keys, entry_default, parse_integer, Args, FromArgs,
};
use spreadsheet_to_json::column::Column;
use spreadsheet_to_json::db::Database;
use spreadsheet_to_json::error::{GenericError, IoFault, WorkbookFault};
use spreadsheet_to_json::format::Format;
use spreadsheet_to_json::modes::{FieldNameMode, ReadMode};
use spreadsheet_to_json::options::OptionSet;
use spreadsheet_to_json::value::CellValue;

fn args() -> Args {
    Args {
        sheet: None,
        index: 0,
        path: None,
        euro_number_format: false,
        date_only: false,
        keys: None,
        max: None,
        header_row: 0,
        omit_header: false,
        exclude_cells: false,
        jsonl: false,
        debug: false,
    }
}

#[test]
fn options_from_arguments() {
    let opts = OptionSet::from_args(&args());
    assert_eq!(opts.selected, None);
    assert_eq!(opts.indices, vec![0]);
    assert_eq!(opts.path, None);
    assert_eq!(opts.rows.columns.len(), 0);
    assert_eq!(opts.read_mode, ReadMode::Sync);
    assert_eq!(opts.field_mode, FieldNameMode::AutoA1);

    let given = Args {
        sheet: Some("Sales".to_string()),
        index: 2,
        path: Some("book.xlsx".to_string()),
        euro_number_format: true,
        date_only: true,
        keys: Some("First Name,price:d2,qty:i:5".to_string()),
        max: Some(50),
        header_row: 1,
        omit_header: true,
        exclude_cells: false,
        jsonl: true,
        debug: false,
    };
    let opts = OptionSet::from_args(&given);
    assert_eq!(opts.selected, Some(vec!["Sales".to_string()]));
    assert_eq!(opts.indices, vec![2]);
    assert_eq!(opts.path.as_deref(), Some("book.xlsx"));
    assert!(opts.rows.decimal_comma && opts.rows.date_only && opts.omit_header && opts.jsonl);
    assert_eq!(opts.max_rows(), 50);
    assert_eq!(opts.header_row_index(), 1);
    assert_eq!(opts.rows.columns.len(), 3);
    assert_eq!(opts.rows.columns[0].key_name(), "first_name");
    assert_eq!(opts.rows.columns[2].default, Some(CellValue::Integer(5)));
}

#[test]
fn key_lists() {
    let cols = columns_from_keys("name,,price:d2:0,qty:i:5,active:b:yes,flag:b:1,note:s:n/a,:::");
    assert_eq!(cols.len(), 7);
    assert_eq!(cols[0].key_name(), "name");
    assert!(matches!(cols[0].format, Format::Auto));
    assert_eq!(cols[0].default, None);
    assert_eq!(cols[1].key_name(), "price");
    assert!(matches!(cols[1].format, Format::Decimal(2)));
    assert_eq!(cols[1].default, Some(CellValue::Text("0".to_string())));
    assert!(matches!(cols[2].format, Format::Integer));
    assert_eq!(cols[2].default, Some(CellValue::Integer(5)));
    assert!(matches!(cols[3].format, Format::Boolean));
    assert_eq!(cols[3].default, None);
    assert_eq!(cols[4].default, Some(CellValue::Bool(true)));
    assert!(matches!(cols[5].format, Format::Text));
    assert_eq!(cols[5].default, Some(CellValue::Text("n/a".to_string())));
    assert_eq!(cols[6].key_name(), "");
    assert_eq!(columns_from_keys("").len(), 0);

    let col = column_from_entry(&"Unit Price:fl".chars().collect());
    assert_eq!(col.key_name(), "unit_price");
    assert!(matches!(col.format, Format::Float));
    assert!(!col.date_only && !col.decimal_comma);

    assert_eq!(parse_integer("42"), Some(42));
    assert_eq!(parse_integer("-42"), Some(-42));
    assert_eq!(parse_integer("4.2"), None);
    assert_eq!(parse_integer("x"), None);
    assert_eq!(parse_integer("99999999999999999999"), None);
    assert_eq!(entry_default(&Format::Integer, "x"), None);
    assert_eq!(entry_default(&Format::Boolean, "0"), Some(CellValue::Bool(false)));
    assert_eq!(entry_default(&Format::Date, "x"), Some(CellValue::Text("x".to_string())));
}

#[test]
fn columns_from_configuration_objects() {
    let mut config: IndexMap<String, CellValue> = IndexMap::new();
    config.insert("key".to_string(), CellValue::Text("Price".to_string()));
    config.insert("format".to_string(), CellValue::Text("d3".to_string()));
    config.insert("default".to_string(), CellValue::Integer(0));
    config.insert("date_only".to_string(), CellValue::Bool(true));
    config.insert("euro_number_format".to_string(), CellValue::Bool(true));
    let col = Column::from_json(&config);
    assert_eq!(col.key_name(), "Price");
    assert!(matches!(col.format, Format::Decimal(3)));
    assert_eq!(col.default, Some(CellValue::Integer(0)));
    assert!(col.date_only && col.decimal_comma);

    // the first of the two keys for the decimal comma wins
    config.insert("decimal_comma".to_string(), CellValue::Bool(false));
    assert!(!Column::from_json(&config).decimal_comma);

    let mut loose: IndexMap<String, CellValue> = IndexMap::new();
    loose.insert("key".to_string(), CellValue::Integer(4));
    loose.insert("format".to_string(), CellValue::Bool(true));
    loose.insert("default".to_string(), CellValue::Null);
    loose.insert("date_only".to_string(), CellValue::Text("yes".to_string()));
    let col = Column::from_json(&loose);
    assert_eq!(col.key, Some(String::new()));
    assert!(matches!(col.format, Format::Auto));
    assert_eq!(col.default, None);
    assert!(!col.date_only && !col.decimal_comma);
    let col = Column::from_json(&IndexMap::new());
    assert_eq!(col.key, None);

    let opts = OptionSet::new("x.csv").override_columns(&[config, loose]);
    assert_eq!(opts.columns().len(), 2);
    assert_eq!(opts.columns()[0].key_name(), "Price");
}

#[test]
fn error_codes() {
    assert_eq!(GenericError::from_workbook_fault(WorkbookFault::Io).0, "io_error");
    assert_eq!(GenericError::from_workbook_fault(WorkbookFault::Xlsx).0, "xlsx_error");
    assert_eq!(GenericError::from_workbook_fault(WorkbookFault::Xls).0, "xlsx_error");
    assert_eq!(GenericError::from_workbook_fault(WorkbookFault::Ods).0, "ods_error");
    assert_eq!(GenericError::from_workbook_fault(WorkbookFault::Other).0, "unknown_calamine_error");
    assert_eq!(GenericError::from_io_fault(IoFault::NotFound).0, "file_not_found");
    assert_eq!(GenericError::from_io_fault(IoFault::PermissionDenied).0, "permission_denied");
    assert_eq!(GenericError::from_io_fault(IoFault::ConnectionRefused).0, "connection_refused");
    assert_eq!(GenericError::from_io_fault(IoFault::Other).0, "io_error");

    let missing = std::io::Error::new(std::io::ErrorKind::NotFound, "gone");
    assert_eq!(GenericError::from_io_error(&missing).0, "file_not_found");
    let denied = std::io::Error::new(std::io::ErrorKind::PermissionDenied, "no");
    assert_eq!(GenericError::from_io_error(&denied).0, "permission_denied");
    let other = std::io::Error::new(std::io::ErrorKind::InvalidData, "bad");
    assert_eq!(GenericError::from_io_error(&other).0, "io_error");
    assert_eq!(GenericError::from_workbook_error(&calamine::Error::Io(missing)).0, "io_error");
    assert_eq!(
        GenericError::from_workbook_error(&calamine::Error::Msg("odd")).0,
        "unknown_calamine_error"
    );
    assert_eq!(GenericError("x_y").message(), "x_y");
}

struct Lines(Vec<String>);

impl Database for Lines {
    fn save_row(&mut self, row: &str) -> Result<(), GenericError> {
        if row.is_empty() {
            return Err(GenericError("empty_row"));
        }
        self.0.push(row.to_string());
        Ok(())
    }
}

#[test]
fn stores_take_rows() {
    let mut store = Lines(Vec::new());
    assert!(store.save_row("test data").is_ok());
    assert_eq!(store.save_row("").unwrap_err().0, "empty_row");
    assert_eq!(store.0, vec!["test data"]);
}
