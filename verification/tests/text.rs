use smtu_reminder::text::{
    chars_of, contains_chars, int_to_string, remove_char_str, split_str, str_equals,
    str_parse_i32, str_parse_i64, str_parse_u32, strip_trailing_str, trim_str,
};

#[test]
fn integers_parse_like_std() {
    for s in ["0", "42", "-42", "+42", "-0", "2147483647", "-2147483648", "2147483648", "", "-", "+", "4 2", " 42", "00017", "1e3", "٣"] {
        assert_eq!(str_parse_i32(s), s.parse::<i32>().ok(), "{s}");
        assert_eq!(str_parse_u32(s), s.parse::<u32>().ok(), "{s}");
        assert_eq!(str_parse_i64(s), s.parse::<i64>().ok(), "{s}");
    }
    assert_eq!(str_parse_u32("4294967295"), Some(u32::MAX));
    assert_eq!(str_parse_u32("4294967296"), None);
    assert_eq!(str_parse_i64("-9223372036854775808"), Some(i64::MIN));
    assert_eq!(str_parse_i64("9223372036854775808"), None);
}

#[test]
fn integers_display_like_std() {
    for i in [0i64, 7, -7, 10, 1234567890, i64::MAX, i64::MIN] {
        assert_eq!(int_to_string(i), i.to_string());
    }
}

#[test]
fn trimming_splitting_searching() {
    assert_eq!(trim_str("  \t мат\u{a0}ан \n"), "мат\u{a0}ан");
    assert_eq!(trim_str("\u{3000}\u{2029}"), "");
    assert_eq!(split_str("a||b|", '|'), vec!["a", "", "b", ""]);
    assert_eq!(split_str("", '|'), vec![""]);
    assert!(contains_chars(&chars_of("иванов иван"), &chars_of("ван")));
    assert!(contains_chars(&chars_of("abc"), &chars_of("")));
    assert!(!contains_chars(&chars_of("ab"), &chars_of("abc")));
    assert!(str_equals("Среда", "Среда"));
    assert!(!str_equals("Среда", "среда"));
    assert_eq!(remove_char_str("\n21\n20\n", '\n'), "2120");
    assert_eq!(strip_trailing_str("доцент))", ')'), "доцент");
}

