use spreadsheet_to_json::is_truthy::{
    extract_truth_patterns, is_truthy_core, is_truthy_custom, is_truthy_standard,
    split_truthy_custom_option_str, to_truth_options, truthy_core_from, truthy_word, TruthyOption,
};

#[test]
fn test_truthy_1() {
    let sample = "1";
    assert_eq!(is_truthy_standard(sample, false), Some(true));

    let sample = "0";
    assert_eq!(is_truthy_standard(sample, false), Some(false));

    let sample = "false";
    assert_eq!(is_truthy_standard(sample, false), Some(false));
}

#[test]
fn test_truthy_2() {
    let sample = "n";
    assert_eq!(is_truthy_standard(sample, false), Some(false));

    let sample = "Ok";
    assert_eq!(is_truthy_standard(sample, false), Some(true));

    let sample = "false";
    assert_eq!(is_truthy_standard(sample, false), Some(false));
}

#[test]
fn test_truthy_custom() {
    let custom_setting_str = "truthy,si|vero,no|falso";
    let custom_flags = split_truthy_custom_option_str(custom_setting_str, false, false);

    // yes will be neither true nor false, because we're using custom true/false flags
    let sample = "yes";
    assert_eq!(is_truthy_custom(sample, &custom_flags, true, false), None);

    // will skip normal English "false" and only use "falso" or "no" for false
    let sample = "false";
    assert_eq!(is_truthy_custom(sample, &custom_flags, false, false), None);

    let sample = "si";
    assert_eq!(is_truthy_custom(sample, &custom_flags, true, true), Some(true));
}

#[test]
fn core_rules() {
    assert_eq!(is_truthy_core("1", false), Some(true));
    assert_eq!(is_truthy_core("0", false), Some(false));
    assert_eq!(is_truthy_core("-1", false), Some(false));
    assert_eq!(is_truthy_core("2", false), Some(true));
    assert_eq!(is_truthy_core("  TRUE ", false), Some(true));
    assert_eq!(is_truthy_core("False", false), Some(false));
    assert_eq!(is_truthy_core("7", false), Some(true));
    assert_eq!(is_truthy_core("00", false), Some(false));
    assert_eq!(is_truthy_core("300", false), None);
    assert_eq!(is_truthy_core("", false), None);
    assert_eq!(is_truthy_core("   ", true), Some(false));
    // the words of the standard rules are not in the core
    assert_eq!(is_truthy_core("n", false), None);
    assert_eq!(is_truthy_core("Ok", false), None);
    assert_eq!(is_truthy_core("yes", false), None);
}

#[test]
fn standard_words() {
    for word in ["no", "not", "none", "n", "f", "NO", " None "] {
        assert_eq!(is_truthy_standard(word, false), Some(false));
    }
    for word in ["ok", "okay", "y", "yes", "t", "YES", " Okay"] {
        assert_eq!(is_truthy_standard(word, false), Some(true));
    }
    assert_eq!(is_truthy_standard("maybe", false), None);
    assert_eq!(is_truthy_standard("", true), Some(false));
    assert_eq!(truthy_word("yes"), Some(true));
    assert_eq!(truthy_word("1"), None);
}

#[test]
fn core_from_normalized_text() {
    assert_eq!(truthy_core_from("12", Some(12), false), Some(true));
    assert_eq!(truthy_core_from("00", Some(0), false), Some(false));
    assert_eq!(truthy_core_from("999", None, false), None);
    assert_eq!(truthy_core_from("true", None, false), Some(true));
    assert_eq!(truthy_core_from("", Some(4), true), Some(false));
    // a number found in a text that is not all digits does not count
    assert_eq!(truthy_core_from("a1", Some(1), false), None);
}

#[test]
fn custom_rules_first_match_wins() {
    let rules = vec![
        TruthyOption::new(true, "si", false, false),
        TruthyOption::new(true, "vero", false, false),
        TruthyOption::new(false, "no", false, false),
        TruthyOption::new(false, "falso", false, false),
    ];
    assert_eq!(is_truthy_custom("yes", &rules, false, false), None);
    assert_eq!(is_truthy_custom("si", &rules, false, false), Some(true));
    assert_eq!(is_truthy_custom(" SI ", &rules, false, false), Some(true));
    assert_eq!(is_truthy_custom("Falso", &rules, false, false), Some(false));
    // with defaults the strict rules apply to what no rule matches
    assert_eq!(is_truthy_custom("1", &rules, true, false), Some(true));
    assert_eq!(is_truthy_custom("1", &rules, false, false), None);

    let ordered = vec![
        TruthyOption::new(false, "good", true, true),
        TruthyOption::new(true, "Good", true, true),
        TruthyOption::new(true, "fine", false, true),
    ];
    assert_eq!(is_truthy_custom("Goodness", &ordered, false, false), Some(true));
    assert_eq!(is_truthy_custom("goodness", &ordered, false, false), Some(false));
    assert_eq!(is_truthy_custom("F-I-N-E!", &ordered, false, false), Some(true));
    assert_eq!(is_truthy_custom("GOOD", &ordered, false, false), None);
}

#[test]
fn option_lists() {
    let rules = to_truth_options("si|vero", "no||falso", true, false);
    assert_eq!(rules.len(), 4);
    assert_eq!(rules[0].sample(), "si");
    assert!(rules[0].is_true && rules[0].case_sensitive && !rules[0].starts_with);
    assert_eq!(rules[3].sample(), "falso");
    assert!(!rules[3].is_true);
    assert_eq!(extract_truth_patterns(&rules, true), vec!["si", "vero"]);
    assert_eq!(extract_truth_patterns(&rules, false), vec!["no", "falso"]);

    assert_eq!(split_truthy_custom_option_str("truthy,ok", false, false).len(), 0);
    assert_eq!(split_truthy_custom_option_str("other,ok,bad", false, false).len(), 0);
    let short = split_truthy_custom_option_str("TRU,ok|good,failed|bad", false, true);
    assert_eq!(short.len(), 4);
    assert!(short[1].starts_with);
    assert_eq!(short[2].pattern, "failed");
}
