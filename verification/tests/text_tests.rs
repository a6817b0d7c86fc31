use pictionary::text::{
    chars_of, eq_ignore_ascii_case, parse_u32, parse_u32_trimmed, starts_with, string_from_chars, trim,
    u32_to_string,
};

#[test]
fn parse_u32_accepts_digits_and_plus() {
    assert_eq!(parse_u32("0"), Some(0));
    assert_eq!(parse_u32("42"), Some(42));
    assert_eq!(parse_u32("+7"), Some(7));
    assert_eq!(parse_u32("007"), Some(7));
    assert_eq!(parse_u32("4294967295"), Some(4294967295));
}

#[test]
fn parse_u32_rejects_the_rest() {
    assert_eq!(parse_u32(""), None);
    assert_eq!(parse_u32("+"), None);
    assert_eq!(parse_u32("-1"), None);
    assert_eq!(parse_u32("4294967296"), None);
    assert_eq!(parse_u32("12a"), None);
    assert_eq!(parse_u32(" 1"), None);
    assert_eq!(parse_u32("٣"), None);
}

#[test]
fn parse_u32_agrees_with_std() {
    for s in ["", "+", "-0", "1", "+1", "99999999999", "4294967295", "4294967296", "1 ", "abc", "0x10"] {
        assert_eq!(parse_u32(s), s.parse::<u32>().ok(), "{}", s);
    }
}

#[test]
fn trimmed_parse_strips_unicode_whitespace() {
    assert_eq!(parse_u32_trimmed("  12\t\n"), Some(12));
    assert_eq!(parse_u32_trimmed("\u{3000}5\u{a0}"), Some(5));
    assert_eq!(parse_u32_trimmed("   "), None);
}

#[test]
fn trim_agrees_with_std() {
    for s in ["", "   ", " a b ", "\u{2003}x\u{2029}", "\u{200b}y", "z"] {
        let t: String = trim(s).into_iter().collect();
        assert_eq!(t, s.trim(), "{:?}", s);
    }
}

#[test]
fn decimal_printing() {
    assert_eq!(u32_to_string(0), "0");
    assert_eq!(u32_to_string(9), "9");
    assert_eq!(u32_to_string(10), "10");
    assert_eq!(u32_to_string(4294967295), "4294967295");
}

#[test]
fn print_then_parse_gives_the_number() {
    for n in [0u32, 1, 9, 10, 12345, 4294967295] {
        assert_eq!(parse_u32(&u32_to_string(n)), Some(n));
    }
}

#[test]
fn prefixes() {
    assert!(starts_with("I: 3", "I: "));
    assert!(starts_with("N", "N"));
    assert!(!starts_with("N", "N: "));
    assert!(starts_with("anything", ""));
    assert!(!starts_with("Cat", "C: "));
}

#[test]
fn ascii_case_insensitive_equality() {
    assert!(eq_ignore_ascii_case("Apple", "aPPLE"));
    assert!(!eq_ignore_ascii_case("apple", "apples"));
    assert!(!eq_ignore_ascii_case("Äpfel", "äpfel"));
    assert!(eq_ignore_ascii_case("", ""));
    assert!(!eq_ignore_ascii_case("[", "{"));
}

#[test]
fn chars_and_back() {
    let v = chars_of("héllo");
    assert_eq!(v.len(), 5);
    assert_eq!(string_from_chars(&v, 1, 4), "éll");
}
