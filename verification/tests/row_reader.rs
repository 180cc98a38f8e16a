use spreadsheet_to_json::cell::RawCell;
use spreadsheet_to_json::column::RowOptionSet;
use spreadsheet_to_json::data_set::WorkbookInfo;
use spreadsheet_to_json::options::OptionSet;
use spreadsheet_to_json::path_data::PathData;
use spreadsheet_to_json::pipeline::{read_csv_core, read_single_worksheet};
use spreadsheet_to_json::row_reader::{
    DelimitedReader, LineOutcome, ReadPhase, RowOutcome, SheetReader,
};
use spreadsheet_to_json::value::CellValue;

fn text(s: &str) -> RawCell {
    RawCell::Text(s.to_string())
}

fn sample() -> Vec<Vec<RawCell>> {
    vec![
        vec![text("Report"), RawCell::Empty],
        vec![text("First Name"), text("Age")],
        vec![text("Ann"), RawCell::Int(30)],
        vec![text("Bob"), RawCell::Int(41)],
        vec![text("Cy"), RawCell::Int(52)],
    ]
}

#[test]
fn reader_goes_through_the_phases() {
    let opts = OptionSet::new("s.xlsx").header_row(1).max_row_count(2);
    let rows = sample();
    let reader = SheetReader::for_sheet(&opts);
    assert_eq!(reader.phase(), ReadPhase::HeaderPending);
    assert_eq!(reader.total(), 0);

    let (reader, outcome) = reader.push_row(&rows[0]);
    assert!(matches!(outcome, RowOutcome::Skipped));
    assert_eq!(reader.phase(), ReadPhase::HeaderPending);
    assert_eq!(reader.header_keys(), vec!["report", "b"]);

    let (reader, outcome) = reader.push_row(&rows[1]);
    assert!(matches!(outcome, RowOutcome::Header));
    assert_eq!(reader.phase(), ReadPhase::Capturing);
    assert_eq!(reader.header_keys(), vec!["first_name", "age"]);

    let (reader, outcome) = reader.push_row(&rows[2]);
    assert!(matches!(outcome, RowOutcome::Kept));
    let (reader, outcome) = reader.push_row(&rows[3]);
    assert!(matches!(outcome, RowOutcome::Kept));
    let (reader, outcome) = reader.push_row(&rows[4]);
    assert!(matches!(outcome, RowOutcome::OverLimit));
    assert_eq!(reader.total(), 5);
    assert_eq!(reader.kept_rows().len(), 2);

    let reader = reader.end();
    assert_eq!(reader.phase(), ReadPhase::Done);
    let (reader, outcome) = reader.push_row(&rows[4]);
    assert!(matches!(outcome, RowOutcome::Ignored));
    assert_eq!(reader.total(), 5);
    let (keys, kept, total) = reader.into_parts();
    assert_eq!(keys, vec!["first_name", "age"]);
    assert_eq!(kept.len(), 2);
    assert_eq!(kept[1].get("first_name"), Some(&CellValue::Text("Bob".to_string())));
    assert_eq!(total, 5);
}

#[test]
fn reader_hands_rows_on_in_async_mode() {
    let opts = OptionSet::new("s.xlsx").read_mode_async();
    let rows = vec![
        vec![text("Name"), text("Age")],
        vec![text("Ann"), RawCell::Int(30)],
        vec![text("Bob"), RawCell::Int(41)],
    ];
    let reader = SheetReader::for_sheet(&opts);
    let (reader, outcome) = reader.push_row(&rows[0]);
    // the first row is the header row
    assert!(matches!(outcome, RowOutcome::Header));
    assert_eq!(reader.phase(), ReadPhase::Counting);
    let (reader, outcome) = reader.push_row(&rows[1]);
    match outcome {
        RowOutcome::Streamed(record) => {
            assert_eq!(record.get("name"), Some(&CellValue::Text("Ann".to_string())));
            assert_eq!(record.get("age"), Some(&CellValue::Integer(30)));
        }
        other => panic!("unexpected outcome {:?}", other),
    }
    let (reader, outcome) = reader.push_row(&rows[2]);
    assert!(matches!(outcome, RowOutcome::Streamed(_)));
    // every row is counted, none is kept
    assert_eq!(reader.total(), 3);
    assert_eq!(reader.kept_rows().len(), 0);
}

#[test]
fn reader_agrees_with_a_read_at_once() {
    let info = WorkbookInfo::simple(&PathData::new("s.xlsx"));
    let rows = sample();
    let variants = vec![
        OptionSet::new("s.xlsx"),
        OptionSet::new("s.xlsx").header_row(1),
        OptionSet::new("s.xlsx").header_row(1).omit_header(),
        OptionSet::new("s.xlsx").header_row(9),
        OptionSet::new("s.xlsx").max_row_count(3),
        OptionSet::new("s.xlsx").max_row_count(0),
        OptionSet::new("s.xlsx").read_mode_async(),
        OptionSet::new("s.xlsx").field_name_mode("c01", true),
        OptionSet::new("s.xlsx").override_headers(&["x", "y"]),
    ];
    for opts in variants {
        let at_once = read_single_worksheet(&rows, &opts, &info, None);
        let (keys, kept, total) = SheetReader::for_sheet(&opts).push_rows(&rows).into_parts();
        assert_eq!(keys, at_once.keys);
        assert_eq!(kept, at_once.to_vec());
        assert_eq!(total, at_once.num_rows);
    }
    let reader = SheetReader::new(&OptionSet::new("s.xlsx"), &[], &RowOptionSet::default(), 1);
    let (keys, kept, total) = reader.push_rows(&rows).into_parts();
    assert_eq!(keys, vec!["report", "b"]);
    assert_eq!(kept.len(), 1);
    assert_eq!(total, 5);
}

#[test]
fn delimited_reader_keeps_lines_up_to_the_maximum() {
    let header = vec!["Name".to_string(), "Amount".to_string()];
    let lines = vec![
        vec!["a".to_string(), "1".to_string()],
        vec!["b".to_string(), "2".to_string()],
        vec!["c".to_string(), "3".to_string()],
    ];
    let opts = OptionSet::new("list.csv").max_row_count(2);
    let reader = DelimitedReader::new(&opts, &header);
    assert_eq!(reader.total(), 1);
    let (reader, outcome) = reader.push_record(&lines[0]);
    assert!(matches!(outcome, LineOutcome::Kept));
    let (reader, outcome) = reader.push_record(&lines[1]);
    assert!(matches!(outcome, LineOutcome::Kept));
    let (reader, outcome) = reader.push_record(&lines[2]);
    assert!(matches!(outcome, LineOutcome::OverLimit));
    assert_eq!(reader.total(), 4);
    let reader = reader.end();
    let (reader, outcome) = reader.push_record(&lines[2]);
    assert!(matches!(outcome, LineOutcome::Ignored));
    let (keys, kept, total) = reader.into_parts();

    let info = WorkbookInfo::simple(&PathData::new("list.csv"));
    let at_once = read_csv_core(&header, &lines, &opts, &info, None);
    assert_eq!(keys, at_once.keys);
    assert_eq!(kept, at_once.to_vec());
    assert_eq!(total, at_once.num_rows);
    assert_eq!(total, 4);
    assert_eq!(kept.len(), 2);

    let deferred = OptionSet::new("list.csv").read_mode_async();
    let reader = DelimitedReader::new(&deferred, &header);
    let (reader, outcome) = reader.push_record(&lines[0]);
    match outcome {
        LineOutcome::Streamed(record) => {
            assert_eq!(record.get("name"), Some(&CellValue::Text("a".to_string())));
        }
        other => panic!("unexpected outcome {:?}", other),
    }
    let (keys, kept, total) = reader.into_parts();
    assert_eq!(keys, vec!["name", "amount"]);
    assert_eq!(kept.len(), 0);
    assert_eq!(total, 2);
}
