use snake_cli::text::{chars_of, is_whitespace, parse_u16, push_decimal, string_of, trim_chars};

#[test]
fn trims_unicode_whitespace() {
    let v = chars_of("\u{3000}\t a b \u{a0}\n");
    assert_eq!(string_of(&trim_chars(&v)), "a b");
    assert!(is_whitespace('\u{2028}'));
    assert!(!is_whitespace('x'));
    for c in ['\t', '\n', ' ', '\u{85}', '\u{a0}', '\u{1680}', '\u{2000}', '\u{200a}', '\u{205f}', 'a', '\u{200b}'] {
        assert_eq!(is_whitespace(c), c.is_whitespace());
    }
}

#[test]
fn parses_like_from_str() {
    for s in ["0", "65535", "65536", "+12", "+", "", "-1", "007", "1a", " 1", "99999999999999999999"] {
        let v = chars_of(s);
        assert_eq!(parse_u16(&v), s.parse::<u16>().ok(), "{s}");
    }
}

#[test]
fn decimal_digits() {
    let mut s = String::from("n=");
    push_decimal(&mut s, 0);
    push_decimal(&mut s, 1234567890);
    assert_eq!(s, "n=01234567890");
    let mut m = String::new();
    push_decimal(&mut m, u64::MAX);
    assert_eq!(m, u64::MAX.to_string());
}
