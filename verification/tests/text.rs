use todo_app::menu::{read_choice, read_id};
use todo_app::number::{parse_decimal, push_decimal};
use todo_app::text::{is_whitespace_char, trim_str};
use todo_app::MenuChoice;

#[test]
fn white_space_is_what_the_standard_library_says() {
    for code in 0..=0x10FFFFu32 {
        if let Some(c) = char::from_u32(code) {
            assert_eq!(is_whitespace_char(c), c.is_whitespace(), "U+{:04X}", code);
        }
    }
}

#[test]
fn white_space_examples() {
    for c in [' ', '\t', '\n', '\r', '\u{b}', '\u{c}', '\u{85}', '\u{a0}', '\u{2028}', '\u{3000}'] {
        assert!(is_whitespace_char(c));
    }
    for c in ['a', '0', '_', '\u{8}', '\u{e}', '\u{200b}', '\u{feff}', '\u{1f}'] {
        assert!(!is_whitespace_char(c));
    }
}

#[test]
fn trim_examples() {
    assert_eq!(trim_str(""), "");
    assert_eq!(trim_str("   "), "");
    assert_eq!(trim_str("a"), "a");
    assert_eq!(trim_str(" a"), "a");
    assert_eq!(trim_str("a "), "a");
    assert_eq!(trim_str("  Buy milk  "), "Buy milk");
    assert_eq!(trim_str("\t a  b \n"), "a  b");
    assert_eq!(trim_str("\u{3000}\u{e9}t\u{e9}\u{2003}"), "\u{e9}t\u{e9}");
    assert_eq!(trim_str("\u{200b}x\u{200b}"), "\u{200b}x\u{200b}");
}

#[test]
fn trim_agrees_with_the_standard_library() {
    let pieces = ["", " ", "\t", "\n", "\u{a0}", "\u{2009}", "a", "b c", "\u{e9}", "\u{1F980}", "+"];
    for start in pieces {
        for middle in pieces {
            for end in pieces {
                let text = format!("{}{}{}", start, middle, end);
                assert_eq!(trim_str(&text), text.trim(), "{:?}", text);
            }
        }
    }
}

#[test]
fn decimal_notation() {
    for (n, text) in [
        (0u64, "0"),
        (7, "7"),
        (9, "9"),
        (10, "10"),
        (99, "99"),
        (100, "100"),
        (999, "999"),
        (1234567890, "1234567890"),
        (u64::MAX, "18446744073709551615"),
    ] {
        let mut out = String::from("id ");
        push_decimal(&mut out, n);
        assert_eq!(out, format!("id {}", text));
    }
}

#[test]
fn decimal_notation_agrees_with_the_standard_library() {
    let mut n: u64 = 1;
    for _ in 0..64 {
        for value in [n - 1, n, n + 1, n.wrapping_mul(3)] {
            let mut out = String::new();
            push_decimal(&mut out, value);
            assert_eq!(out, value.to_string());
            assert_eq!(parse_decimal(&out, u64::MAX), Some(value));
        }
        n = n.wrapping_mul(2);
    }
}

#[test]
fn parse_examples() {
    assert_eq!(parse_decimal("0", u64::MAX), Some(0));
    assert_eq!(parse_decimal("42", u64::MAX), Some(42));
    assert_eq!(parse_decimal("+42", u64::MAX), Some(42));
    assert_eq!(parse_decimal("0042", u64::MAX), Some(42));
    assert_eq!(parse_decimal("18446744073709551615", u64::MAX), Some(u64::MAX));
    assert_eq!(parse_decimal("000018446744073709551615", u64::MAX), Some(u64::MAX));
    assert_eq!(parse_decimal("18446744073709551616", u64::MAX), None);
    assert_eq!(parse_decimal("99999999999999999999999", u64::MAX), None);
    assert_eq!(parse_decimal("", u64::MAX), None);
    assert_eq!(parse_decimal("+", u64::MAX), None);
    assert_eq!(parse_decimal("-1", u64::MAX), None);
    assert_eq!(parse_decimal("++1", u64::MAX), None);
    assert_eq!(parse_decimal("1+", u64::MAX), None);
    assert_eq!(parse_decimal(" 1", u64::MAX), None);
    assert_eq!(parse_decimal("1 ", u64::MAX), None);
    assert_eq!(parse_decimal("1_000", u64::MAX), None);
    assert_eq!(parse_decimal("12a", u64::MAX), None);
    assert_eq!(parse_decimal("\u{661}", u64::MAX), None);
    assert_eq!(parse_decimal("4294967295", 4294967295), Some(4294967295));
    assert_eq!(parse_decimal("4294967296", 4294967295), None);
    assert_eq!(parse_decimal("5", 4), None);
    assert_eq!(parse_decimal("4", 4), Some(4));
    assert_eq!(parse_decimal("0", 0), Some(0));
    assert_eq!(parse_decimal("10", 0), None);
}

#[test]
fn parse_agrees_with_the_standard_library() {
    let pieces = ["", "+", "-", "0", "1", "9", "18446744073709551615", "4294967296", " ", "a", "00"];
    for first in pieces {
        for second in pieces {
            let text = format!("{}{}", first, second);
            assert_eq!(parse_decimal(&text, u64::MAX), text.parse::<u64>().ok(), "{:?}", text);
            assert_eq!(
                parse_decimal(&text, 4294967295),
                text.parse::<u32>().ok().map(u64::from),
                "{:?}",
                text
            );
        }
    }
}

#[test]
fn menu_choices() {
    assert_eq!(read_choice("1\n"), Some(MenuChoice::ListTodos));
    assert_eq!(read_choice("2\n"), Some(MenuChoice::AddTodo));
    assert_eq!(read_choice(" 3 \r\n"), Some(MenuChoice::EditTodo));
    assert_eq!(read_choice("4"), Some(MenuChoice::Exit));
    assert_eq!(read_choice("+4"), Some(MenuChoice::Exit));
    assert_eq!(read_choice("0\n"), Some(MenuChoice::Invalid));
    assert_eq!(read_choice("5\n"), Some(MenuChoice::Invalid));
    assert_eq!(read_choice("4294967295\n"), Some(MenuChoice::Invalid));
    assert_eq!(read_choice("4294967296\n"), None);
    assert_eq!(read_choice("\n"), None);
    assert_eq!(read_choice("one\n"), None);
    assert_eq!(read_choice("-1\n"), None);
    assert_eq!(read_choice("1 2\n"), None);
}

#[test]
fn item_numbers_from_input() {
    assert_eq!(read_id("1\n"), Some(1));
    assert_eq!(read_id("  999  \n"), Some(999));
    assert_eq!(read_id("18446744073709551615\n"), Some(u64::MAX));
    assert_eq!(read_id("18446744073709551616\n"), None);
    assert_eq!(read_id("\n"), None);
    assert_eq!(read_id("abc\n"), None);
    assert_eq!(read_id("1.5\n"), None);
}
