use spreadsheet_to_json::euro_number_format::is_euro_number_format;

#[test]
fn test_lnumber_format_1() {
    let sample = "1.256";
    assert_eq!(is_euro_number_format(sample, false), false);
}

#[test]
fn test_lnumber_format_2() {
    let sample = "1,256";
    assert_eq!(is_euro_number_format(sample, false), false);
}

#[test]
fn test_lnumber_format_3() {
    let sample = "12,56";
    assert_eq!(is_euro_number_format(sample, false), true);
}

#[test]
fn test_lnumber_format_4() {
    let sample = "1,256.67";
    assert_eq!(is_euro_number_format(sample, false), false);
}

#[test]
fn test_lnumber_format_5() {
    let sample = "1.256,67";
    assert_eq!(is_euro_number_format(sample, false), true);
}

#[test]
fn single_comma_follows_the_distance_rule() {
    // exactly three characters after the comma: thousand grouping
    assert_eq!(is_euro_number_format("12,345", false), false);
    assert_eq!(is_euro_number_format("12,345", true), true);
    // any other distance: decimal separator
    assert_eq!(is_euro_number_format("1,5", false), true);
    assert_eq!(is_euro_number_format("1,2345", false), true);
    assert_eq!(is_euro_number_format("7,", false), true);
}

#[test]
fn dots_only_and_plain_numbers() {
    assert_eq!(is_euro_number_format("1.256", true), true);
    assert_eq!(is_euro_number_format("1.256.789", false), true);
    assert_eq!(is_euro_number_format("1,256,789", false), false);
    assert_eq!(is_euro_number_format("1256", false), false);
    assert_eq!(is_euro_number_format("1256", true), false);
    assert_eq!(is_euro_number_format("", false), false);
}
