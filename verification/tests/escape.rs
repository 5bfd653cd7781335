use clickhouse_relay::escape::{escape_identifier, escape_literal};

fn backticks(text: &str) -> usize {
    text.chars().filter(|c| *c == '`').count()
}

#[test]
fn identifier_without_backtick_is_unchanged() {
    assert_eq!(escape_identifier("events"), "events");
    assert_eq!(escape_identifier(""), "");
}

#[test]
fn each_backtick_is_doubled() {
    assert_eq!(escape_identifier("a`b"), "a``b");
    assert_eq!(escape_identifier("`"), "``");
    assert_eq!(escape_identifier("``"), "````");
    assert_eq!(escape_identifier("`a`"), "``a``");
}

#[test]
fn escaped_identifier_has_twice_the_backticks() {
    for name in ["", "plain", "`", "a`b`c", "```", "ta`ble` name", "é`ü"] {
        let escaped = escape_identifier(name);
        assert_eq!(backticks(&escaped), 2 * backticks(name), "for {name:?}");
    }
}

#[test]
fn escaped_identifier_reads_back_between_backticks() {
    for name in ["plain", "`", "a`b`c", "```", "x`; DROP TABLE t; --"] {
        let quoted = format!("`{}`", escape_identifier(name));
        let chars: Vec<char> = quoted.chars().collect();
        let mut read = String::new();
        let mut i = 1;
        loop {
            assert!(i < chars.len(), "unterminated: {quoted:?}");
            if chars[i] == '`' {
                if i + 1 < chars.len() && chars[i + 1] == '`' {
                    read.push('`');
                    i += 2;
                    continue;
                }
                break;
            }
            read.push(chars[i]);
            i += 1;
        }
        assert_eq!(read, name);
        assert_eq!(i, chars.len() - 1, "the quote closes at the end of {quoted:?}");
    }
}

#[test]
fn only_backticks_are_touched_in_identifiers() {
    assert_eq!(escape_identifier("it's \"x\""), "it's \"x\"");
}

#[test]
fn each_single_quote_is_doubled_in_literals() {
    assert_eq!(escape_literal("o'brien"), "o''brien");
    assert_eq!(escape_literal("''"), "''''");
    assert_eq!(escape_literal("a`b"), "a`b");
}
