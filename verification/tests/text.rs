use mds::text::{
    byte_substring, concat2, first_line_of, i64_to_string, parse_u64, rsplit_once_char, str_contains, str_eq,
    str_replace, u64_to_string, usize_to_string,
};

#[test]
fn numbers_are_written_in_decimal() {
    assert_eq!(u64_to_string(0), "0");
    assert_eq!(u64_to_string(1234567890), "1234567890");
    assert_eq!(u64_to_string(u64::MAX), "18446744073709551615");
    assert_eq!(usize_to_string(42), "42");
    assert_eq!(i64_to_string(-17), "-17");
    assert_eq!(i64_to_string(i64::MIN), "-9223372036854775808");
    assert_eq!(i64_to_string(i64::MAX), "9223372036854775807");
}

#[test]
fn decimal_numbers_are_read_as_rust_reads_them() {
    assert_eq!(parse_u64("42"), Some(42));
    assert_eq!(parse_u64("+42"), Some(42));
    assert_eq!(parse_u64("007"), Some(7));
    assert_eq!(parse_u64("18446744073709551615"), Some(u64::MAX));
    assert_eq!(parse_u64("18446744073709551616"), None);
    assert_eq!(parse_u64(""), None);
    assert_eq!(parse_u64("+"), None);
    assert_eq!(parse_u64("-1"), None);
    assert_eq!(parse_u64("1a"), None);
    for s in ["0", "99", "+5", "x", " 1"] {
        assert_eq!(parse_u64(s), s.parse::<u64>().ok());
    }
}

#[test]
fn split_at_the_last_separator() {
    assert_eq!(rsplit_once_char("a:b:c", ':'), Some(("a:b".to_string(), "c".to_string())));
    assert_eq!(rsplit_once_char("abc", ':'), None);
    assert_eq!(rsplit_once_char(":", ':'), Some((String::new(), String::new())));
}

#[test]
fn replacing_and_searching_agree_with_std() {
    for (s, p, v) in [("aXbXc", "X", "--"), ("aaaa", "aa", "b"), ("abc", "", "-"), ("", "", "x"), ("héé", "é", "e")] {
        assert_eq!(str_replace(s, p, v), s.replace(p, v));
        assert_eq!(str_contains(s, p), s.contains(p));
    }
    assert!(str_eq("ab", "ab"));
    assert!(!str_eq("ab", "abc"));
    assert_eq!(concat2("ab", "cd"), "abcd");
}

#[test]
fn first_lines_are_those_std_yields() {
    for s in ["one\ntwo", "one\r\ntwo", "", "\n", "solo", "a\r"] {
        assert_eq!(first_line_of(s), s.lines().next().map(|l| l.to_string()));
    }
}

#[test]
fn byte_ranges_cut_at_character_boundaries() {
    assert_eq!(byte_substring("héllo", 1, 3), "é");
    assert_eq!(byte_substring("abc", 0, 3), "abc");
    assert_eq!(byte_substring("abc", 2, 2), "");
}

#[test]
fn prefixes_count_characters() {
    assert_eq!(mds::text::char_prefix("héllo", 2), "hé");
    assert_eq!(mds::text::char_prefix("ab", 40), "ab");
    assert_eq!(mds::text::char_prefix("", 3), "");
}
