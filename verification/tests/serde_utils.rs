use sundries::serde_utils::parse_u64;

#[test]
fn plain_numbers_parse() {
    assert_eq!(parse_u64("0"), Some(0));
    assert_eq!(parse_u64("123"), Some(123));
    assert_eq!(parse_u64("007"), Some(7));
    assert_eq!(parse_u64("18446744073709551615"), Some(u64::MAX));
}

#[test]
fn a_leading_plus_is_accepted() {
    assert_eq!(parse_u64("+123"), Some(123));
    assert_eq!(parse_u64("+0"), Some(0));
}

#[test]
fn malformed_numbers_are_refused() {
    assert_eq!(parse_u64(""), None);
    assert_eq!(parse_u64("+"), None);
    assert_eq!(parse_u64("12a"), None);
    assert_eq!(parse_u64("-1"), None);
    assert_eq!(parse_u64(" 12"), None);
    assert_eq!(parse_u64("1 2"), None);
}

#[test]
fn numbers_that_do_not_fit_are_refused() {
    assert_eq!(parse_u64("18446744073709551616"), None);
    assert_eq!(parse_u64("99999999999999999999999"), None);
}

#[test]
fn agrees_with_the_standard_parser() {
    for s in ["0", "42", "+42", "18446744073709551615", "18446744073709551616", "x", ""] {
        assert_eq!(parse_u64(s), s.parse::<u64>().ok(), "on {:?}", s);
    }
}
