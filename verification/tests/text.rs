use nas_rom_manager::text::{
    chars_equal, chars_of, concat_chars, decimal_text, find_text, matches_at, parse_u64,
    replace_all, replace_char, slice_chars, split_chars, starts_with, string_of,
};

fn c(s: &str) -> Vec<char> {
    s.chars().collect()
}

#[test]
fn chars_and_string_agree() {
    assert_eq!(chars_of("héllo/ω"), c("héllo/ω"));
    assert_eq!(string_of(&c("héllo/ω")), "héllo/ω");
    assert_eq!(chars_of(""), Vec::<char>::new());
    assert_eq!(string_of(&Vec::new()), "");
}

#[test]
fn replace_changes_every_occurrence() {
    assert_eq!(replace_char(&c("a\\b\\c"), '\\', '/'), c("a/b/c"));
    assert_eq!(replace_char(&c("abc"), 'x', 'y'), c("abc"));
    assert_eq!(replace_char(&c("aaa"), 'a', 'b'), c("bbb"));
}

#[test]
fn equality_of_texts() {
    assert!(chars_equal(&c("abc"), &c("abc")));
    assert!(!chars_equal(&c("abc"), &c("abd")));
    assert!(!chars_equal(&c("abc"), &c("ab")));
    assert!(chars_equal(&c(""), &c("")));
}

#[test]
fn prefix_of_text() {
    assert!(starts_with(&c("bytes=0-1"), &c("bytes=")));
    assert!(!starts_with(&c("byte"), &c("bytes=")));
    assert!(!starts_with(&c("Bytes=0-1"), &c("bytes=")));
    assert!(starts_with(&c("abc"), &c("")));
}

#[test]
fn slice_and_concat() {
    assert_eq!(slice_chars(&c("abcdef"), 2, 4), c("cd"));
    assert_eq!(slice_chars(&c("abcdef"), 3, 3), c(""));
    assert_eq!(concat_chars(&c("ab"), &c("cd")), c("abcd"));
    assert_eq!(concat_chars(&c(""), &c("")), c(""));
}

#[test]
fn split_keeps_empty_pieces() {
    assert_eq!(split_chars(&c("a/b//c"), '/'), vec![c("a"), c("b"), c(""), c("c")]);
    assert_eq!(split_chars(&c(""), '/'), vec![c("")]);
    assert_eq!(split_chars(&c("/"), '/'), vec![c(""), c("")]);
    assert_eq!(split_chars(&c("abc"), '/'), vec![c("abc")]);
    assert_eq!(split_chars(&c("a/"), '/'), vec![c("a"), c("")]);
}

#[test]
fn split_agrees_with_std() {
    for text in ["", "a", "a b c", " a  b ", "255 0 128", "   "] {
        let expected: Vec<Vec<char>> = text.split(' ').map(c).collect();
        assert_eq!(split_chars(&c(text), ' '), expected);
    }
}

#[test]
fn decimal_numbers_are_read() {
    assert_eq!(parse_u64(&c("0")), Some(0));
    assert_eq!(parse_u64(&c("42")), Some(42));
    assert_eq!(parse_u64(&c("007")), Some(7));
    assert_eq!(parse_u64(&c("+5")), Some(5));
    assert_eq!(parse_u64(&c("18446744073709551615")), Some(u64::MAX));
}

#[test]
fn what_is_no_decimal_number_has_no_value() {
    assert_eq!(parse_u64(&c("")), None);
    assert_eq!(parse_u64(&c("+")), None);
    assert_eq!(parse_u64(&c("-1")), None);
    assert_eq!(parse_u64(&c("1a")), None);
    assert_eq!(parse_u64(&c(" 1")), None);
    assert_eq!(parse_u64(&c("1 ")), None);
    assert_eq!(parse_u64(&c("++1")), None);
    assert_eq!(parse_u64(&c("1.5")), None);
    assert_eq!(parse_u64(&c("18446744073709551616")), None);
    assert_eq!(parse_u64(&c("99999999999999999999999")), None);
}

#[test]
fn decimal_agrees_with_std() {
    for text in ["", "+", "0", "+0", "12", "0012", "-3", "1_000", "٣", "18446744073709551615",
        "18446744073709551616", "184467440737095516150", "+18446744073709551615", "a", "1e3"] {
        assert_eq!(parse_u64(&c(text)), text.parse::<u64>().ok(), "{:?}", text);
    }
}

#[test]
fn pattern_is_found_at_a_position() {
    assert!(matches_at(&c("abcabc"), &c("bc"), 1));
    assert!(matches_at(&c("abcabc"), &c("bc"), 4));
    assert!(!matches_at(&c("abcabc"), &c("bc"), 0));
    assert!(!matches_at(&c("abcabc"), &c("bc"), 5));
    assert!(!matches_at(&c("abc"), &c("bc"), 9));
    assert!(matches_at(&c("abc"), &c(""), 3));
    assert!(!matches_at(&c("abc"), &c(""), 4));
}

#[test]
fn pattern_is_found_somewhere() {
    assert!(find_text(&c("thumb.webm"), &c(".webm")));
    assert!(find_text(&c(".webm"), &c(".webm")));
    assert!(!find_text(&c("thumb.web"), &c(".webm")));
    assert!(find_text(&c(""), &c("")));
    assert!(find_text(&c("a"), &c("")));
    assert!(!find_text(&c(""), &c("a")));
}

#[test]
fn finding_agrees_with_std() {
    for (text, pattern) in [("abcabc", "cab"), ("aaa", "aa"), ("abc", "abcd"), ("x", ""), ("", ""), ("ab", "b")] {
        assert_eq!(find_text(&c(text), &c(pattern)), text.contains(pattern), "{:?} {:?}", text, pattern);
    }
}

#[test]
fn every_occurrence_is_replaced() {
    assert_eq!(replace_all(&c("t_thumb/x/t_thumb"), &c("t_thumb"), &c("t_1080p")), c("t_1080p/x/t_1080p"));
    assert_eq!(replace_all(&c("aaa"), &c("aa"), &c("b")), c("ba"));
    assert_eq!(replace_all(&c("abc"), &c("x"), &c("y")), c("abc"));
    assert_eq!(replace_all(&c("abc"), &c("b"), &c("")), c("ac"));
    assert_eq!(replace_all(&c("abc"), &c(""), &c("y")), c("abc"));
    assert_eq!(replace_all(&c(""), &c("a"), &c("y")), c(""));
}

#[test]
fn replacing_agrees_with_std() {
    for (text, pattern, with) in [("abcabc", "bc", "X"), ("aaaa", "aa", "a"), ("abab", "ab", "abab"), ("xyz", "xyz", ""), ("aXbXc", "X", "--")] {
        assert_eq!(replace_all(&c(text), &c(pattern), &c(with)), c(&text.replace(pattern, with)));
    }
}

#[test]
fn numbers_are_written_in_decimal() {
    assert_eq!(decimal_text(0), c("0"));
    assert_eq!(decimal_text(7), c("7"));
    assert_eq!(decimal_text(10), c("10"));
    assert_eq!(decimal_text(65535), c("65535"));
    assert_eq!(decimal_text(u64::MAX), c("18446744073709551615"));
}

#[test]
fn written_numbers_are_read_back() {
    for n in [0u64, 1, 9, 10, 99, 100, 12345, u64::MAX - 1, u64::MAX] {
        assert_eq!(parse_u64(&decimal_text(n)), Some(n));
        assert_eq!(decimal_text(n), c(&n.to_string()));
    }
}
