use rocket_equation::parse::parse_mass;

#[test]
fn parses_plain_and_signed_numbers() {
    assert_eq!(parse_mass("80891"), Some(80891));
    assert_eq!(parse_mass("0"), Some(0));
    assert_eq!(parse_mass("007"), Some(7));
    assert_eq!(parse_mass("+7"), Some(7));
    assert_eq!(parse_mass("-14"), Some(-14));
    assert_eq!(parse_mass("-0"), Some(0));
}

#[test]
fn parses_extreme_values_in_range() {
    assert_eq!(parse_mass("2147483647"), Some(i32::MAX));
    assert_eq!(parse_mass("-2147483648"), Some(i32::MIN));
}

#[test]
fn rejects_values_out_of_range() {
    assert_eq!(parse_mass("2147483648"), None);
    assert_eq!(parse_mass("-2147483649"), None);
    assert_eq!(parse_mass("99999999999999999999"), None);
}

#[test]
fn rejects_malformed_lines() {
    assert_eq!(parse_mass(""), None);
    assert_eq!(parse_mass("+"), None);
    assert_eq!(parse_mass("-"), None);
    assert_eq!(parse_mass("--1"), None);
    assert_eq!(parse_mass("1a"), None);
    assert_eq!(parse_mass("a1"), None);
    assert_eq!(parse_mass(" 1"), None);
    assert_eq!(parse_mass("1 "), None);
    assert_eq!(parse_mass("1.5"), None);
}

#[test]
fn agrees_with_the_standard_parser() {
    let samples = [
        "80891", "0", "007", "+7", "-14", "2147483647", "-2147483648", "2147483648", "", "+",
        "abc", "12 ",
    ];
    for s in samples {
        assert_eq!(parse_mass(s), s.parse::<i32>().ok(), "disagreement on {:?}", s);
    }
}
