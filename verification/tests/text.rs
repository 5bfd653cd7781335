use clickhouse_relay::decimal::{decimal_text, parse_u64};
use clickhouse_relay::lexical::text_precedes;
use clickhouse_relay::text::{
    chars_of, contains, is_blank_text, starts_with, trim, trim_end_char,
};

#[test]
fn chars_of_lists_the_characters() {
    assert_eq!(chars_of("aé`"), vec!['a', 'é', '`']);
    assert_eq!(chars_of(""), Vec::<char>::new());
}

#[test]
fn blank_means_white_space_only() {
    assert!(is_blank_text(""));
    assert!(is_blank_text("   "));
    assert!(is_blank_text(" \t\r\n"));
    assert!(is_blank_text("\u{a0}\u{3000}"));
    assert!(!is_blank_text(" a "));
    assert!(!is_blank_text("_"));
}

#[test]
fn trim_drops_the_white_space_around() {
    assert_eq!(trim("  abc \n"), "abc");
    assert_eq!(trim("abc"), "abc");
    assert_eq!(trim("a b c"), "a b c");
    assert_eq!(trim(" \t "), "");
    assert_eq!(trim(""), "");
    assert_eq!(trim("\u{a0}é x\u{2003}"), "é x");
}

#[test]
fn trim_agrees_with_the_standard_library() {
    for text in ["", " ", "x", "  x", "x  ", " x y ", "\n\tselect 1;\n", "\u{85}a\u{1680}"] {
        assert_eq!(trim(text), text.trim());
        assert_eq!(is_blank_text(text), text.trim().is_empty());
    }
}

#[test]
fn trim_end_char_drops_every_trailing_occurrence() {
    assert_eq!(trim_end_char("select 1;;", ';'), "select 1");
    assert_eq!(trim_end_char("a;b;", ';'), "a;b");
    assert_eq!(trim_end_char("a; ", ';'), "a; ");
    assert_eq!(trim_end_char(";;;", ';'), "");
    assert_eq!(trim_end_char("", ';'), "");
}

#[test]
fn starts_with_tests_the_prefix() {
    assert!(starts_with("SELECT 1", "SELECT "));
    assert!(starts_with("SELECT ", "SELECT "));
    assert!(starts_with("anything", ""));
    assert!(!starts_with("SELECT", "SELECT "));
    assert!(!starts_with(" SELECT 1", "SELECT "));
    assert!(!starts_with("select 1", "SELECT "));
}

#[test]
fn contains_finds_the_pattern_anywhere() {
    assert!(contains("SELECT 1 LIMIT 10", " LIMIT "));
    assert!(contains(" LIMIT ", " LIMIT "));
    assert!(contains("x FORMAT ", "FORMAT "));
    assert!(contains("abc", ""));
    assert!(contains("", ""));
    assert!(!contains("SELECT 1 LIMIT", " LIMIT "));
    assert!(!contains("LIMIT 1", " LIMIT "));
    assert!(!contains("ab", "abc"));
    assert!(contains("aab", "ab"));
}

#[test]
fn decimal_text_writes_the_number() {
    assert_eq!(decimal_text(0), "0");
    assert_eq!(decimal_text(7), "7");
    assert_eq!(decimal_text(10), "10");
    assert_eq!(decimal_text(8123), "8123");
    assert_eq!(decimal_text(1000), "1000");
    assert_eq!(decimal_text(u64::MAX), "18446744073709551615");
}

#[test]
fn parse_u64_reads_digits_only() {
    assert_eq!(parse_u64("0"), Some(0));
    assert_eq!(parse_u64("42"), Some(42));
    assert_eq!(parse_u64("007"), Some(7));
    assert_eq!(parse_u64("18446744073709551615"), Some(u64::MAX));
    assert_eq!(parse_u64("18446744073709551616"), None);
    assert_eq!(parse_u64("99999999999999999999999"), None);
    assert_eq!(parse_u64(""), None);
    assert_eq!(parse_u64("-1"), None);
    assert_eq!(parse_u64("+1"), None);
    assert_eq!(parse_u64("1.0"), None);
    assert_eq!(parse_u64("1e3"), None);
    assert_eq!(parse_u64(" 1"), None);
    assert_eq!(parse_u64("١"), None);
}

#[test]
fn parse_u64_reads_back_what_decimal_text_writes() {
    for n in [0u64, 1, 9, 10, 99, 100, 12345, u64::MAX - 1, u64::MAX] {
        assert_eq!(parse_u64(&decimal_text(n)), Some(n));
    }
}

#[test]
fn texts_are_ordered_as_strings_are() {
    let samples = ["", "a", "A", "ab", "abc", "b", "analytics", "default", "é", "z", "système"];
    for a in samples {
        for b in samples {
            assert_eq!(text_precedes(a, b), a < b, "{a:?} before {b:?}");
        }
    }
}
