use spreadsheet_to_json::fuzzy_datetime::{
    datetime_result, fuzzy_to_date_string, fuzzy_to_date_string_with_time, fuzzy_to_datetime,
    fuzzy_to_datetime_string, fuzzy_to_datetime_string_opts, is_datetime_like, ParseFailure,
};

#[test]
fn test_fuzzy_dates() {
    let sample_1 = "2001-apple";
    assert!(fuzzy_to_datetime(sample_1).is_err());
    assert_eq!(fuzzy_to_datetime_string(sample_1), None);

    let sample_2 = "1876-08-29 17:15";
    assert!(fuzzy_to_datetime(sample_2).is_ok());

    // correct sample datetime
    let sample_3 = "2023-8-29 19:34:39";
    assert_eq!(
        fuzzy_to_datetime_string(sample_3),
        Some("2023-08-29T19:34:39.000Z".to_string())
    );

    // Correct date-only string
    let sample_4 = "2023-9-10";
    assert_eq!(fuzzy_to_date_string(sample_4), Some("2023-09-10".to_string()));
    // time-only strings should not be valid
    let sample_5 = "10:10:10";
    assert_eq!(fuzzy_to_datetime_string(sample_5), None);

    // datetime with extra milliseconds and timezone
    let sample_3 = "2023-08-29T19:34:39.678Z";
    assert_eq!(fuzzy_to_datetime_string(sample_3), Some(sample_3.to_string()));
}

#[test]
fn test_is_datetime_like() {
    assert!(is_datetime_like("2023-10-10T10:10:10"));
    assert!(is_datetime_like("2023-10-10 10:10:10"));
    assert!(is_datetime_like("2023-10-10"));
    assert!(!is_datetime_like("10:10:10"));
    assert!(!is_datetime_like("invalid-date"));
    assert!(!is_datetime_like("2023-10-10Tinvalid"));
}

#[test]
fn month_and_day_out_of_range_fail() {
    assert_eq!(fuzzy_to_date_string("2023-13-01"), None);
    assert_eq!(fuzzy_to_date_string("2023-00-01"), None);
    assert_eq!(fuzzy_to_date_string("2023-12-32"), None);
    assert_eq!(fuzzy_to_date_string("2023-12-00"), None);
    assert_eq!(fuzzy_to_date_string("2023-300-01"), None);
    assert_eq!(fuzzy_to_date_string("2023-12-31"), Some("2023-12-31".to_string()));
}

#[test]
fn missing_date_fields_are_filled_in() {
    assert_eq!(fuzzy_to_date_string("2023"), Some("2023-01-01".to_string()));
    assert_eq!(fuzzy_to_date_string("2023-7"), Some("2023-07-01".to_string()));
    assert_eq!(fuzzy_to_date_string(""), Some("0000-01-01".to_string()));
    assert_eq!(
        fuzzy_to_datetime_string("2023-7"),
        Some("2023-07-01T00:00:00.000Z".to_string())
    );
}

#[test]
fn time_bounds_are_checked() {
    assert_eq!(fuzzy_to_datetime_string("2023-01-01 24:00:00"), None);
    assert_eq!(fuzzy_to_datetime_string("2023-01-01 23:60:00"), None);
    assert_eq!(fuzzy_to_datetime_string("2023-01-01 23:59:60"), None);
    assert_eq!(
        fuzzy_to_datetime_string("2023-01-01 23:59:59"),
        Some("2023-01-01T23:59:59.000Z".to_string())
    );
    assert_eq!(
        fuzzy_to_datetime_string("2023-01-01 7:5"),
        Some("2023-01-01T07:05:00.000Z".to_string())
    );
}

#[test]
fn separator_and_zone_suffix_are_optional() {
    assert_eq!(
        fuzzy_to_datetime_string_opts("2023-8-29 19:34:39", ' ', false),
        Some("2023-08-29 19:34:39".to_string())
    );
    assert_eq!(
        fuzzy_to_datetime_string_opts("2023-8-29 19:34:39.5", 'T', true),
        Some("2023-08-29T19:34:39.005Z".to_string())
    );
    assert_eq!(
        fuzzy_to_datetime_string_opts("2023-8-29 19:34:39.1234", 'T', true),
        Some("2023-08-29T19:34:39.123Z".to_string())
    );
    assert_eq!(
        fuzzy_to_datetime_string_opts("2023-8-29 19:34:39.xyz", 'T', true),
        Some("2023-08-29T19:34:39.000Z".to_string())
    );
}

#[test]
fn date_with_time_parts_are_returned() {
    assert_eq!(
        fuzzy_to_date_string_with_time("2023-8-29T19:34:39.678Z"),
        Some(("2023-08-29".to_string(), "19:34:39".to_string(), "678Z".to_string()))
    );
    assert_eq!(
        fuzzy_to_date_string_with_time("2023-8-29"),
        Some(("2023-08-29".to_string(), "00:00:00".to_string(), "".to_string()))
    );
    assert_eq!(fuzzy_to_date_string_with_time("August 2023"), None);
}

#[test]
fn impossible_dates_are_refused_by_the_calendar() {
    let err = fuzzy_to_datetime("2023-02-30 10:00:00").unwrap_err();
    assert_eq!(err.0, "invalid_date_string");
    assert_eq!(err.message(), "invalid_date_string");
    let err = fuzzy_to_datetime("nonsense").unwrap_err();
    assert_eq!(err.0, "invalid_date_string");
    let parsed = fuzzy_to_datetime("2023-8-29 19:34:39").unwrap();
    assert_eq!(parsed.to_string(), "2023-08-29 19:34:39");
}

#[test]
fn calendar_failures_become_reason_codes() {
    assert_eq!(datetime_result(Err(ParseFailure::BadFormat)).unwrap_err().0, "bad_format");
    assert_eq!(datetime_result(Err(ParseFailure::Other)).unwrap_err().0, "invalid_date_string");
    let moment = fuzzy_to_datetime("2020-02-29 12:00:00").unwrap();
    assert_eq!(datetime_result(Ok(moment)).unwrap(), moment);
    assert!(fuzzy_to_datetime("2021-02-29 12:00:00").is_err());
}
