use seed::text::{chars_of, decimal_string, invalid_variant, parse_u32, str_eq, string_of};

#[test]
fn decimal_string_writes_numbers() {
    assert_eq!(decimal_string(0), "0");
    assert_eq!(decimal_string(7), "7");
    assert_eq!(decimal_string(10), "10");
    assert_eq!(decimal_string(42), "42");
    assert_eq!(decimal_string(1234567890), "1234567890");
    assert_eq!(decimal_string(usize::MAX), usize::MAX.to_string());
}

#[test]
fn parse_u32_reads_numbers() {
    assert_eq!(parse_u32("0"), Some(0));
    assert_eq!(parse_u32("007"), Some(7));
    assert_eq!(parse_u32("500"), Some(500));
    assert_eq!(parse_u32("4294967295"), Some(u32::MAX));
}

#[test]
fn parse_u32_rejects_what_is_no_number() {
    assert_eq!(parse_u32(""), None);
    assert_eq!(parse_u32("4294967296"), None);
    assert_eq!(parse_u32("99999999999999999999999999"), None);
    assert_eq!(parse_u32("12a"), None);
    assert_eq!(parse_u32("+1"), None);
    assert_eq!(parse_u32("-1"), None);
    assert_eq!(parse_u32(" 1"), None);
    assert_eq!(parse_u32("\u{0663}"), None);
}

#[test]
fn parse_u32_reads_back_what_decimal_string_wrote() {
    for n in [0usize, 1, 9, 10, 99, 100, 65535, 4294967295] {
        assert_eq!(parse_u32(&decimal_string(n)), Some(n as u32));
    }
}

#[test]
fn str_eq_compares_characters() {
    assert!(str_eq("", ""));
    assert!(str_eq("keep", "keep"));
    assert!(!str_eq("keep", "Keep"));
    assert!(!str_eq("keep", "keeps"));
}

#[test]
fn chars_and_back() {
    let chars = chars_of("a\u{00e9}b/");
    assert_eq!(chars, vec!['a', '\u{00e9}', 'b', '/']);
    assert_eq!(string_of(&chars, 1, 3), "\u{00e9}b");
    assert_eq!(string_of(&chars, 0, 4), "a\u{00e9}b/");
    assert_eq!(string_of(&chars, 2, 2), "");
}

#[test]
fn invalid_variant_message() {
    assert_eq!(
        invalid_variant("Thing", "x", "[\"a\"]"),
        "Invalid variant of Thing x, expected one of [\"a\"]"
    );
}
