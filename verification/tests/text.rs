use modify::text::{
    center, decimal_string, join, padded2_string, signed_decimal_string,
    trim_quotes_string, SEPARATOR,
};

#[test]
fn decimal_numerals() {
    assert_eq!(decimal_string(0), "0");
    assert_eq!(decimal_string(7), "7");
    assert_eq!(decimal_string(1234567890), "1234567890");
    assert_eq!(decimal_string(10), "10");
    assert_eq!(decimal_string(2024), "2024");
    assert_eq!(decimal_string(u64::MAX), "18446744073709551615");
}

#[test]
fn two_digit_padding() {
    assert_eq!(padded2_string(0), "00");
    assert_eq!(padded2_string(5), "05");
    assert_eq!(padded2_string(9), "09");
    assert_eq!(padded2_string(10), "10");
    assert_eq!(padded2_string(59), "59");
    assert_eq!(padded2_string(123), "123");
}

#[test]
fn signed_numerals() {
    assert_eq!(signed_decimal_string(0), "0");
    assert_eq!(signed_decimal_string(2024), "2024");
    assert_eq!(signed_decimal_string(-5), "-5");
    assert_eq!(signed_decimal_string(i32::MAX), "2147483647");
    assert_eq!(signed_decimal_string(i32::MIN), "-2147483648");
}

#[test]
fn joining_puts_the_separator_between_neighbours() {
    let none: Vec<String> = Vec::new();
    assert_eq!(join(&none, ", "), "");
    assert_eq!(join(&vec!["1.20".to_string()], ", "), "1.20");
    let three = vec!["1.19".to_string(), "1.20".to_string(), "1.21".to_string()];
    assert_eq!(join(&three, ", "), "1.19, 1.20, 1.21");
    assert_eq!(join(&vec![String::new(), String::new()], "-"), "-");
}

#[test]
fn centring_fills_the_line_with_the_rule() {
    assert_eq!(center("==========", "ab"), "=== ab ===");
    assert_eq!(center("==========", "abc"), "== abc ===");
    assert_eq!(center("==========", "abcdefgh"), " abcdefgh ");
    assert_eq!(center("abcdefghij", "X"), "abc X ghij");
}

#[test]
fn centring_leaves_a_long_title_alone() {
    assert_eq!(center("==========", "abcdefghi"), "abcdefghi");
    assert_eq!(center("", "title"), "title");
    assert_eq!(center("=", ""), "");
    assert_eq!(center("==", ""), "  ");
}

#[test]
fn centred_banner_is_as_wide_as_the_rule() {
    assert_eq!(SEPARATOR.len(), 46);
    let line = center(SEPARATOR, "Modify 1.0.0");
    assert_eq!(line, "================ Modify 1.0.0 ================");
    assert_eq!(line.chars().count(), 46);
}

#[test]
fn centring_counts_characters_not_bytes() {
    assert_eq!(center("\u{2022}\u{2022}\u{2022}\u{2022}\u{2022}\u{2022}", "\u{e9}\u{e9}"), "\u{2022} \u{e9}\u{e9} \u{2022}");
}

#[test]
fn quotes_are_trimmed_at_both_ends_only() {
    assert_eq!(trim_quotes_string("\"sodium\""), "sodium");
    assert_eq!(trim_quotes_string("sodium"), "sodium");
    assert_eq!(trim_quotes_string("\"\"so\"dium\"\"\""), "so\"dium");
    assert_eq!(trim_quotes_string("\"\"\""), "");
    assert_eq!(trim_quotes_string(""), "");
    assert_eq!(trim_quotes_string("\"a"), "a");
}
