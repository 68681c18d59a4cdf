use tui_logger::text::decimal_text;
use tui_logger::text::from_chars;
use tui_logger::text::signed_decimal_text;
use tui_logger::text::split_lines;
use tui_logger::text::text_precedes;
use tui_logger::text::to_chars;

#[test]
fn decimal_numbers() {
    assert_eq!(decimal_text(0), "0");
    assert_eq!(decimal_text(7), "7");
    assert_eq!(decimal_text(10), "10");
    assert_eq!(decimal_text(9876543210), "9876543210");
    assert_eq!(decimal_text(u64::MAX), "18446744073709551615");
}

#[test]
fn signed_numbers() {
    assert_eq!(signed_decimal_text(0), "0");
    assert_eq!(signed_decimal_text(-1), "-1");
    assert_eq!(signed_decimal_text(42), "42");
    assert_eq!(signed_decimal_text(i64::MAX), "9223372036854775807");
    assert_eq!(signed_decimal_text(i64::MIN), "-9223372036854775808");
}

#[test]
fn lines_are_split_like_those_of_std() {
    let texts = [
        "", "a", "\n", "a\n", "a\nb", "a\r\nb\r\n", "a\r", "\r\n", "\n\n", "a\n\nb", "ä\r\r\nö",
        "one\rtwo\nthree",
    ];
    for text in texts {
        let expected: Vec<String> = text.lines().map(|l| l.to_string()).collect();
        assert_eq!(split_lines(text), expected, "{:?}", text);
    }
}

#[test]
fn only_the_empty_text_has_no_lines() {
    assert_eq!(split_lines("").len(), 0);
    assert_eq!(split_lines("\n").len(), 1);
    assert_eq!(split_lines("one line"), vec!["one line".to_string()]);
}

#[test]
fn order_is_that_of_strings() {
    let names = ["", "a", "aa", "ab", "b", "B", "target::a", "target", "ä", "z", "\u{10000}"];
    for a in names {
        for b in names {
            assert_eq!(text_precedes(a, b), a < b, "{:?} {:?}", a, b);
        }
    }
}

#[test]
fn characters_and_back() {
    let chars = to_chars("häß");
    assert_eq!(chars, vec!['h', 'ä', 'ß']);
    assert_eq!(from_chars(&chars, 1, 3), "äß");
    assert_eq!(from_chars(&chars, 2, 2), "");
}
