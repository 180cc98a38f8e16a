use simple_string_patterns::ToStrings;
use spreadsheet_to_json::column::Column;
use spreadsheet_to_json::format::Format;
use spreadsheet_to_json::headers::{
    build_a1_headers, build_c01_headers, build_header_keys, to_a1_col_key, to_c01_col_key,
    to_head_key, to_head_key_default, to_letter, to_padded_col_suffix,
};
use spreadsheet_to_json::modes::FieldNameMode;

#[test]
fn test_letter() {
    assert_eq!(to_letter(5), 'f');

    assert_eq!(to_letter(25), 'z');
}

#[test]
fn test_cell_letters_1() {
    assert_eq!(to_a1_col_key(26), "aa");
}

#[test]
fn test_cell_letters_2() {
    assert_eq!(to_a1_col_key(701), "zz");
}

#[test]
fn test_cell_letters_3() {
    assert_eq!(to_a1_col_key(702), "aaa");
}

#[test]
fn test_cell_letters_4() {
    assert_eq!(to_c01_col_key(8, 60), "c09");
}

#[test]
fn test_cell_letters_5() {
    assert_eq!(to_c01_col_key(20, 750), "c021");
}

#[test]
fn test_cell_letters_6() {
    assert_eq!(to_c01_col_key(20, 2000), "c0021");
}

#[test]
fn test_first_row() {
    // header labels as captured from the top row
    let first_row = ["Viscosity", "Rating", "", ""].to_strings();
    let cols = vec![
        Column::from_key_ref_with_format(None, Format::Float, None, false, false),
        Column::from_key_ref_with_format(Some("points"), Format::Decimal(3), None, false, false),
        Column::from_key_ref_with_format(Some("adjusted"), Format::Float, None, false, false),
    ];
    let headers = build_header_keys(&first_row, &cols, &FieldNameMode::AutoA1);
    // should be lower-cased as `viscosity`
    assert_eq!(headers.get(0).unwrap(), "viscosity");
    // should be overridden as `points`
    assert_eq!(headers.get(1).unwrap(), "points");
    // should be labelled `adjusted`
    assert_eq!(headers.get(2).unwrap(), "adjusted");
    // fourth column  with empty heading should be assigned an A1-style key of `d`
    assert_eq!(headers.get(3).unwrap(), "d");
}

#[test]
fn test_headers_a1_override() {
    // header labels as captured from the top row
    let first_row = ["Viscosity", "Rating", "Weighted", "Class"].to_strings();

    let headers = build_a1_headers(&first_row);
    // should be lower-cased as `viscosity`
    assert_eq!(headers.get(0).unwrap(), "a");
    // the column should be d.
    assert_eq!(headers.get(3).unwrap(), "d");
}

#[test]
fn test_headers_c01_override() {
    // build header row with 200 sequential alphanumeric values
    let first_row: Vec<String> = (0..200)
        .map(|x| {
            [char::from_u32(65 + (x % 26)).unwrap_or('_').to_string(), (x * 3 * 1).to_string()]
                .concat()
        })
        .collect();

    let headers = build_c01_headers(&first_row);
    // should be lower-cased as `viscosity`
    assert_eq!(headers.get(0).unwrap(), "c001");
    // the column should be d.
    assert_eq!(headers.get(3).unwrap(), "c004");
}

#[test]
fn headers_without_overrides() {
    let first_row = ["Viscosity", "Rating", "", "..."].to_strings();
    let letters = build_header_keys(&first_row, &[], &FieldNameMode::AutoA1);
    assert_eq!(letters, vec!["viscosity", "rating", "c", "d"]);
    let numbers = build_header_keys(&first_row, &[], &FieldNameMode::AutoNumPadded);
    assert_eq!(numbers, vec!["viscosity", "rating", "c03", "c04"]);
}

#[test]
fn duplicate_headers_get_a_numeric_suffix() {
    let first_row = ["Name", "name", "Other Name", "other_name"].to_strings();
    let headers = build_header_keys(&first_row, &[], &FieldNameMode::AutoA1);
    assert_eq!(headers, vec!["name", "name02", "other_name", "other_name04"]);
    assert_eq!(headers.len(), first_row.len());

    let cols = vec![Column::new(Some("id")), Column::new(Some("id")), Column::new(Some(""))];
    let first_row = ["A", "B", "C Col"].to_strings();
    let headers = build_header_keys(&first_row, &cols, &FieldNameMode::AutoNumPadded);
    // an empty declared key counts as none
    assert_eq!(headers, vec!["id", "id02", "c_col"]);
}

#[test]
fn synthetic_keys() {
    assert_eq!(to_a1_col_key(0), "a");
    assert_eq!(to_a1_col_key(25), "z");
    assert_eq!(to_a1_col_key(27), "ab");
    assert_eq!(to_padded_col_suffix("col", 0, 5), "col01");
    assert_eq!(to_padded_col_suffix("col", 99, 100), "col100");
    assert_eq!(to_padded_col_suffix("x", 4, 10_000), "x00005");
    assert_eq!(to_padded_col_suffix("x", 122, 20), "x123");
    assert_eq!(to_head_key(3, &FieldNameMode::A1, 10), "d");
    assert_eq!(to_head_key(3, &FieldNameMode::AutoA1, 10), "d");
    assert_eq!(to_head_key(3, &FieldNameMode::NumPadded, 10), "c04");
    assert_eq!(to_head_key(3, &FieldNameMode::AutoNumPadded, 1000), "c0004");
    assert_eq!(to_head_key_default(3), "c0004");
    assert_eq!(to_letter(0), 'a');
    assert_eq!(to_letter(26), '{');
    assert_eq!(to_letter(u32::MAX), ' ');
}
