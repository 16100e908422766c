use comic_notifier::metadata::parse_release_code;

#[test]
fn well_formed_code_parses() {
    assert_eq!(parse_release_code("2023-01-05"), Some((2023, 1, 5)));
    assert_eq!(parse_release_code("1999-12-31"), Some((1999, 12, 31)));
    assert_eq!(parse_release_code("0000-00-00"), Some((0, 0, 0)));
    assert_eq!(parse_release_code("9999-99-99"), Some((9999, 99, 99)));
}

#[test]
fn malformed_codes_are_refused() {
    assert_eq!(parse_release_code(""), None);
    assert_eq!(parse_release_code("2023-1-5"), None);
    assert_eq!(parse_release_code("2023-01-05x"), None);
    assert_eq!(parse_release_code("2023_01_05"), None);
    assert_eq!(parse_release_code("202a-01-05"), None);
    assert_eq!(parse_release_code("2023-01-0a"), None);
    assert_eq!(parse_release_code("not-a-date"), None);
}

#[test]
fn unicode_digits_are_refused() {
    // Ten characters, but not the ASCII digits the shape asks for.
    assert_eq!(parse_release_code("\u{0662}023-01-05"), None);
}
