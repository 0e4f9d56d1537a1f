use downtown::text::{i32_to_decimal, push_char, push_decimal, u64_to_decimal};
use downtown::tui::highlight::{escaped_line, highlight, strip_ending, HighlightError};

#[test]
fn decimals() {
    assert_eq!(u64_to_decimal(0), "0");
    assert_eq!(u64_to_decimal(7), "7");
    assert_eq!(u64_to_decimal(10), "10");
    assert_eq!(u64_to_decimal(u64::MAX), "18446744073709551615");
    assert_eq!(i32_to_decimal(-1), "-1");
    assert_eq!(i32_to_decimal(i32::MAX), "2147483647");
    assert_eq!(i32_to_decimal(i32::MIN), "-2147483648");
}

#[test]
fn pushing_appends() {
    let mut s = "ab".to_string();
    push_char(&mut s, 'é');
    push_decimal(&mut s, 905);
    assert_eq!(s, "abé905");
}

#[test]
fn line_endings_are_stripped() {
    assert_eq!(strip_ending("a\r\n"), "a");
    assert_eq!(strip_ending("a\n"), "a");
    assert_eq!(strip_ending("a\r"), "a\r");
    assert_eq!(strip_ending("a"), "a");
    assert_eq!(strip_ending("\n"), "");
    assert_eq!(strip_ending(""), "");
    assert_eq!(strip_ending("é\r\n"), "é");
}

#[test]
fn highlight_gives_one_escaped_line_per_line() {
    let out = highlight("x = 1\ndef f():\n    return x\n").unwrap();
    assert_eq!(out.len(), 3);
    for line in &out {
        assert!(line.contains("\x1b[38;2;"));
        assert!(!line.contains('\n'));
    }
    assert!(out[1].contains("def"));
    assert!(out[2].contains("return"));
}

#[test]
fn highlight_keeps_a_last_line_without_newline() {
    let out = highlight("a = 1\nb").unwrap();
    assert_eq!(out.len(), 2);
    assert!(out[1].ends_with('b'));
    assert!(highlight("").unwrap().is_empty());
}

#[test]
fn highlight_writes_each_piece_after_its_color() {
    let out = highlight("x = 1\n").unwrap();
    assert_eq!(out.len(), 1);
    assert!(out[0].starts_with("\x1b[38;2;"));
    let stripped: String = {
        let mut t = String::new();
        let mut in_escape = false;
        for c in out[0].chars() {
            if c == '\x1b' {
                in_escape = true;
            } else if in_escape {
                if c == 'm' {
                    in_escape = false;
                }
            } else {
                t.push(c);
            }
        }
        t
    };
    assert_eq!(stripped, "x = 1");
}

#[test]
fn a_line_that_failed_stays_failed() {
    assert_eq!(escaped_line(None), Err(HighlightError::LineFailed));
    let line = escaped_line(Some(vec![])).unwrap();
    assert_eq!(line, "");
}
