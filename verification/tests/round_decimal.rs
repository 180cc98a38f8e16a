use spreadsheet_to_json::decimal::{Decimal, RoundDecimal};

fn rounded(text: &str, places: u8) -> String {
    Decimal::parse(text).unwrap().round_decimal(places).to_text()
}

#[test]
fn test_round_decimal() {
    let sample_number = Decimal::parse("3.14159265359").unwrap();
    assert_eq!(sample_number.round_decimal(2).to_text().parse::<f64>().unwrap(), 3.14);

    assert_eq!(sample_number.round_decimal(3).to_text().parse::<f64>().unwrap(), 3.142);

    assert_eq!(sample_number.round_decimal(4).to_text().parse::<f64>().unwrap(), 3.1416);
}

#[test]
fn rounding_is_half_away_from_zero() {
    assert_eq!(rounded("2.5", 0), "3");
    assert_eq!(rounded("-2.5", 0), "-3");
    assert_eq!(rounded("2.4999", 0), "2");
    assert_eq!(rounded("0.125", 2), "0.13");
    assert_eq!(rounded("-0.125", 2), "-0.13");
    assert_eq!(rounded("0.124", 2), "0.12");
    assert_eq!(rounded("2.675", 2), "2.68");
    assert_eq!(rounded("1.005", 2), "1.01");
}

#[test]
fn rounding_carries_into_the_whole_part() {
    assert_eq!(rounded("9.995", 2), "10.00");
    assert_eq!(rounded("99.95", 1), "100.0");
    assert_eq!(rounded("0.96", 1), "1.0");
    assert_eq!(rounded("999.5", 0), "1000");
    assert_eq!(rounded("199.996", 2), "200.00");
}

#[test]
fn short_fractions_are_left_alone() {
    assert_eq!(rounded("3.1", 2), "3.1");
    assert_eq!(rounded("3", 2), "3");
    assert_eq!(rounded("3.14", 2), "3.14");
    assert_eq!(rounded("-7.0", 6), "-7.0");
}

#[test]
fn decimal_text_round_trip() {
    for text in ["0", "12", "-12", "3.14", "-0.5", "007.250"] {
        assert_eq!(Decimal::parse(text).unwrap().to_text(), text);
    }
    assert_eq!(Decimal::parse("5.").unwrap().to_text(), "5");
    for text in ["", "-", ".5", "1.2.3", "12a", "1,5", "+4", "1e5", " 1"] {
        assert_eq!(Decimal::parse(text), None);
    }
}

#[test]
fn decimal_truncation_and_sign() {
    assert_eq!(Decimal::parse("112.98").unwrap().truncate(), Some(112));
    assert_eq!(Decimal::parse("-112.98").unwrap().truncate(), Some(-112));
    assert_eq!(Decimal::parse("-0.98").unwrap().truncate(), Some(0));
    assert_eq!(Decimal::parse("9223372036854775807").unwrap().truncate(), Some(i64::MAX));
    assert_eq!(Decimal::parse("9223372036854775808").unwrap().truncate(), None);
    assert_eq!(Decimal::parse("-9223372036854775808").unwrap().truncate(), Some(i64::MIN));
    assert_eq!(Decimal::parse("-9223372036854775809").unwrap().truncate(), None);
    assert_eq!(Decimal::from_int(-45).to_text(), "-45");
    assert_eq!(Decimal::from_int(0).to_text(), "0");
    assert_eq!(Decimal::from_int(i64::MIN).truncate(), Some(i64::MIN));
    assert_eq!(Decimal::parse("1.50").unwrap().duplicate(), Decimal::parse("1.50").unwrap());
}
