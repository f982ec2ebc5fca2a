use std::io::{BufRead, Cursor};
use vibe_lox::stdlib::{finish_line, lox_number_text, trim_text};

/// One `read_line` call, then the library's decision on what it read.
fn read_line_from<R: BufRead>(reader: &mut R) -> Option<String> {
    let mut buf = String::new();
    match reader.read_line(&mut buf) {
        Ok(n) => finish_line(n, buf),
        Err(_) => None,
    }
}

#[test]
fn read_line_returns_string_without_newline() {
    let mut r = Cursor::new(b"hello\nworld\n");
    assert_eq!(read_line_from(&mut r), Some("hello".into()));
    assert_eq!(read_line_from(&mut r), Some("world".into()));
    assert_eq!(read_line_from(&mut r), None);
}

#[test]
fn read_line_strips_crlf() {
    let mut r = Cursor::new(b"hello\r\nworld\r\n");
    assert_eq!(read_line_from(&mut r), Some("hello".into()));
    assert_eq!(read_line_from(&mut r), Some("world".into()));
}

#[test]
fn read_line_empty_line_returns_empty_string() {
    let mut r = Cursor::new(b"\nhello\n");
    assert_eq!(read_line_from(&mut r), Some("".into()));
    assert_eq!(read_line_from(&mut r), Some("hello".into()));
}

#[test]
fn read_line_no_trailing_newline() {
    let mut r = Cursor::new(b"last");
    assert_eq!(read_line_from(&mut r), Some("last".into()));
    assert_eq!(read_line_from(&mut r), None);
}

#[test]
fn read_line_empty_input_returns_none() {
    let mut r = Cursor::new(b"");
    assert_eq!(read_line_from(&mut r), None);
}

#[test]
fn finish_line_cases() {
    assert_eq!(finish_line(0, String::new()), None);
    assert_eq!(finish_line(3, "ab\n".to_string()), Some("ab".to_string()));
    assert_eq!(finish_line(4, "ab\r\n".to_string()), Some("ab".to_string()));
    assert_eq!(finish_line(3, "ab\r".to_string()), Some("ab\r".to_string()));
    assert_eq!(finish_line(1, "\n".to_string()), Some(String::new()));
}

#[test]
fn lox_number_text_valid() {
    for (input, text) in [("42", "42"), ("3.14", "3.14"), ("0", "0"), ("007", "007"), ("0.5", "0.5"), ("  7  ", "7")] {
        assert_eq!(lox_number_text(input), Some(text.to_string()), "{input}");
    }
}

#[test]
fn lox_number_text_invalid() {
    for input in ["", "   ", "-1", "1e5", "3.14.15", "3.", ".5", "inf", "nan", "abc", "1 2"] {
        assert_eq!(lox_number_text(input), None, "{input}");
    }
}

#[test]
fn trim_text_drops_surrounding_white_space() {
    assert_eq!(trim_text("  a b \t\n"), "a b");
    assert_eq!(trim_text(" \u{3000}x\u{a0}"), "x");
    assert_eq!(trim_text("   "), "");
}
