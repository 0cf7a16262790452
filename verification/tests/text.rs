use lla::text::{
    bytes_lt, clone_texts, compare_text, concat2, concat3, digit_of, has_text, is_ascii_digit,
    join_texts, parse_bool, parse_count, text_lt,
};

#[test]
fn bytes_compare_lexicographically() {
    assert!(bytes_lt(b"", b"a"));
    assert!(!bytes_lt(b"", b""));
    assert!(!bytes_lt(b"a", b""));
    assert!(bytes_lt(b"ab", b"abc"));
    assert!(bytes_lt(b"abc", b"abd"));
    assert!(!bytes_lt(b"abd", b"abc"));
    assert!(!bytes_lt(b"abc", b"abc"));
    assert!(bytes_lt(b"Z", b"a"));
    assert!(bytes_lt(&[1, 255], &[2, 0]));
}

#[test]
fn texts_compare_by_code_point() {
    assert!(text_lt("apple", "banana"));
    assert!(text_lt("z", "é"));
    assert!(text_lt("é", "日"));
    assert!(!text_lt("same", "same"));
    assert_eq!(compare_text("a", "b"), -1);
    assert_eq!(compare_text("b", "a"), 1);
    assert_eq!(compare_text("b", "b"), 0);
}

#[test]
fn counts_are_decimal_digits_with_an_optional_plus() {
    assert_eq!(parse_count("0"), Some(0));
    assert_eq!(parse_count("42"), Some(42));
    assert_eq!(parse_count("+42"), Some(42));
    assert_eq!(parse_count("007"), Some(7));
    assert_eq!(parse_count(""), None);
    assert_eq!(parse_count("+"), None);
    assert_eq!(parse_count("-1"), None);
    assert_eq!(parse_count("++1"), None);
    assert_eq!(parse_count("1 "), None);
    assert_eq!(parse_count(" 1"), None);
    assert_eq!(parse_count("12a"), None);
    assert_eq!(parse_count("١٢"), None);
    assert_eq!(parse_count(&usize::MAX.to_string()), Some(usize::MAX));
    assert_eq!(parse_count("18446744073709551616"), None);
    assert_eq!(parse_count("99999999999999999999999999"), None);
    for s in ["5", "+5", "x", "", "18446744073709551615", "18446744073709551616", "0x10"] {
        assert_eq!(parse_count(s), s.parse::<usize>().ok());
    }
}

#[test]
fn truth_values_are_spelled_out() {
    assert_eq!(parse_bool("true"), Some(true));
    assert_eq!(parse_bool("false"), Some(false));
    assert_eq!(parse_bool("TRUE"), None);
    assert_eq!(parse_bool("1"), None);
    assert_eq!(parse_bool(""), None);
}

#[test]
fn texts_are_joined_and_searched() {
    let v: Vec<String> = vec!["a".to_string(), "bc".to_string(), String::new()];
    assert_eq!(join_texts(&v, ", "), "a, bc, ");
    assert_eq!(join_texts(&v[..1].to_vec(), ", "), "a");
    assert_eq!(join_texts(&Vec::new(), ", "), "");
    assert!(has_text(&v, "bc"));
    assert!(has_text(&v, ""));
    assert!(!has_text(&v, "b"));
    assert_eq!(clone_texts(&v), v);
    assert_eq!(concat2("ab", "cd"), "abcd");
    assert_eq!(concat3("a", "", "b"), "ab");
}

#[test]
fn digits_are_zero_to_nine() {
    assert!(is_ascii_digit('0') && is_ascii_digit('9'));
    assert!(!is_ascii_digit('a') && !is_ascii_digit('/') && !is_ascii_digit(':'));
    assert!(!is_ascii_digit('٣'));
    assert_eq!(digit_of('7'), 7);
    assert_eq!(digit_of('0'), 0);
}
