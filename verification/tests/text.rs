use kiek_kafka::style::{Highlighting, Style};
use kiek_kafka::text::{append_decimal, chars_of, decimal_string, digit_to_char};

#[test]
fn decimal_numerals() {
    assert_eq!(decimal_string(0), "0");
    assert_eq!(decimal_string(7), "7");
    assert_eq!(decimal_string(10), "10");
    assert_eq!(decimal_string(109), "109");
    assert_eq!(decimal_string(1234567890), "1234567890");
    assert_eq!(decimal_string(usize::MAX), usize::MAX.to_string());
}

#[test]
fn decimal_is_appended() {
    let mut text = String::from("n=");
    append_decimal(&mut text, 42);
    append_decimal(&mut text, 0);
    assert_eq!(text, "n=420");
}

#[test]
fn digits() {
    let digits: String = (0..10).map(digit_to_char).collect();
    assert_eq!(digits, "0123456789");
}

#[test]
fn characters_in_order() {
    assert_eq!(chars_of("a\u{e9}z"), vec!['a', '\u{e9}', 'z']);
    assert_eq!(chars_of(""), Vec::new());
}

#[test]
fn style_wraps_text() {
    let style = Style::new("\u{1b}[1m", "\u{1b}[0m");
    let mut out = String::from(">");
    style.append_painted(&mut out, "bold");
    assert_eq!(out, ">\u{1b}[1mbold\u{1b}[0m");
}

#[test]
fn blank_style_changes_nothing() {
    let mut out = String::new();
    Style::none().append_painted(&mut out, "text");
    assert_eq!(out, "text");
    assert_eq!(Style::none(), Style::new("", ""));
}

#[test]
fn plain_highlighting_has_only_blank_styles() {
    let plain = Highlighting::plain();
    for style in [plain.plain, plain.bold, plain.dimmed, plain.success, plain.error] {
        assert_eq!(style, Style::none());
    }
}
