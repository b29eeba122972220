use resp2chat::text::{
    chars_of, join, parse_decimal, same_text, same_text_ignoring_case, text_order, trimmed,
    TextOrder,
};

#[test]
fn trimming_agrees_with_unicode_white_space() {
    for code in 0..=0x10ffff_u32 {
        if let Some(c) = char::from_u32(code) {
            let text = format!("{}x{}", c, c);
            assert_eq!(trimmed(&text), text.trim());
        }
    }
}

#[test]
fn trimming_keeps_the_middle() {
    assert_eq!(trimmed(""), "");
    assert_eq!(trimmed(" \t\n "), "");
    assert_eq!(trimmed("  a b\u{a0}"), "a b");
    assert_eq!(trimmed(&trimmed("\u{2003}é \n")), "é");
}

#[test]
fn numbers_are_read_as_std_reads_them() {
    for text in [
        "", "+", "-", "0", "+0", "-0", "007", "12", "+12", " 12", "12 ", "1_000", "1e3", "٣",
        "18446744073709551615", "18446744073709551616", "000018446744073709551615", "++1",
        "99999999999999999999999999",
    ] {
        assert_eq!(parse_decimal(text, u64::MAX), text.parse::<u64>().ok());
    }
    assert_eq!(parse_decimal("255", 255), Some(255));
    assert_eq!(parse_decimal("256", 255), None);
    assert_eq!(parse_decimal("5", 4), None);
}

#[test]
fn texts_are_ordered_as_std_orders_them() {
    let texts = ["", " ", " a", "A", "a", "a ", "ab", "b", "é", "\u{10ffff}", "\u{ffff}", "a\u{0}"];
    for a in texts {
        for b in texts {
            let expected = if a < b {
                TextOrder::Before
            } else if a == b {
                TextOrder::Same
            } else {
                TextOrder::After
            };
            assert_eq!(text_order(a, b), expected);
            assert_eq!(same_text(a, b), a == b);
            assert_eq!(same_text_ignoring_case(a, b), a.eq_ignore_ascii_case(b));
        }
    }
}

#[test]
fn case_is_ignored_for_ascii_letters_only() {
    assert!(same_text_ignoring_case("Kimi-K2.6", "kimi-k2.6"));
    assert!(!same_text_ignoring_case("É", "é"));
    assert!(!same_text_ignoring_case("[", "{"));
    assert!(!same_text_ignoring_case("@", "`"));
}

#[test]
fn joining_puts_the_separator_between() {
    let parts = |texts: &[&str]| texts.iter().map(|text| text.to_string()).collect::<Vec<String>>();
    assert_eq!(join(&parts(&[]), ", "), "");
    assert_eq!(join(&parts(&["a"]), ", "), "a");
    assert_eq!(join(&parts(&["a", "", "c"]), ", "), "a, , c");
}

#[test]
fn characters_come_in_order() {
    assert_eq!(chars_of("aé𝄞"), vec!['a', 'é', '𝄞']);
}
