use dsh_desktop::server_log::{trimmed_output_line, ServerLog, MAX_LOG_LINES};
use dsh_desktop::text::{
    contains_char, i32_text, is_blank, is_unicode_whitespace, join_with, non_blank, parse_u64, replace_char,
    split_at_char, split_whitespace, trim_end, u64_text,
};

#[test]
fn split_whitespace_drops_every_kind_of_blank() {
    assert_eq!(
        split_whitespace("  pnpm\tdsh \n web\u{a0}--port  "),
        vec!["pnpm", "dsh", "web", "--port"]
    );
    assert!(split_whitespace(" \t ").is_empty());
    assert!(split_whitespace("").is_empty());
}

#[test]
fn split_at_char_keeps_empty_pieces() {
    assert_eq!(split_at_char("a::b:", ':'), vec!["a", "", "b", ""]);
    assert_eq!(split_at_char("", ':'), vec![""]);
}

#[test]
fn blank_and_trim() {
    assert!(is_blank(" \n\t"));
    assert!(is_blank(""));
    assert!(!is_blank(" x "));
    assert_eq!(non_blank(Some("  ".to_string())), None);
    assert_eq!(non_blank(Some(" a ".to_string())), Some(" a ".to_string()));
    assert_eq!(non_blank(None), None);
    assert_eq!(trim_end("  line \r\n"), "  line");
    assert_eq!(trim_end(" \t"), "");
}

#[test]
fn replace_join_and_contains() {
    assert_eq!(replace_char("~/a/~b", '~', "/home/me"), "/home/me/a//home/meb");
    assert_eq!(join_with(&vec!["a".to_string(), "b".to_string(), "c".to_string()], ":"), "a:b:c");
    assert_eq!(join_with(&Vec::new(), ":"), "");
    assert!(contains_char("/bin/ls", '/'));
    assert!(!contains_char("pnpm", '/'));
}

#[test]
fn decimal_text_and_parsing() {
    assert_eq!(u64_text(0), "0");
    assert_eq!(u64_text(3080), "3080");
    assert_eq!(u64_text(u64::MAX), u64::MAX.to_string());
    assert_eq!(i32_text(-1), "-1");
    assert_eq!(i32_text(i32::MIN), i32::MIN.to_string());
    assert_eq!(parse_u64("180"), Some(180));
    assert_eq!(parse_u64("+7"), Some(7));
    assert_eq!(parse_u64("+"), None);
    assert_eq!(parse_u64(""), None);
    assert_eq!(parse_u64(" 5"), None);
    assert_eq!(parse_u64("-5"), None);
    assert_eq!(parse_u64("18446744073709551615"), Some(u64::MAX));
    assert_eq!(parse_u64("18446744073709551616"), None);
    for s in ["0", "42", "+9", "x", "", "99999999999999999999"] {
        assert_eq!(parse_u64(s), s.parse::<u64>().ok());
    }
}

#[test]
fn server_log_keeps_the_latest_lines_in_order() {
    let mut log = ServerLog::new();
    assert!(log.tail().is_empty());
    for i in 0..(MAX_LOG_LINES + 5) {
        log.push(format!("line {i}"));
    }
    let tail = log.tail();
    assert_eq!(tail.len(), MAX_LOG_LINES);
    assert_eq!(log.len(), MAX_LOG_LINES);
    assert_eq!(tail[0], "line 5");
    assert_eq!(tail[MAX_LOG_LINES - 1], format!("line {}", MAX_LOG_LINES + 4));
}

#[test]
fn server_log_keeps_a_short_history_whole() {
    let mut log = ServerLog::new();
    log.push("a".to_string());
    log.push("b".to_string());
    assert_eq!(log.tail(), vec!["a", "b"]);
}

#[test]
fn output_lines_are_trimmed_and_blank_ones_dropped() {
    assert_eq!(trimmed_output_line("ready on 3080  \r"), Some("ready on 3080".to_string()));
    assert_eq!(trimmed_output_line("   "), None);
    assert_eq!(trimmed_output_line(""), None);
    assert_eq!(trimmed_output_line("  indented"), Some("  indented".to_string()));
}

#[test]
fn whitespace_class_agrees_with_char_is_whitespace_everywhere() {
    let mut seen: u32 = 0;
    for n in 0u32..=0x10FFFF {
        if let Some(c) = char::from_u32(n) {
            assert_eq!(is_unicode_whitespace(c), c.is_whitespace(), "U+{:04X}", n);
            if c.is_whitespace() {
                seen += 1;
            }
        }
    }
    assert_eq!(seen, 25);
}
