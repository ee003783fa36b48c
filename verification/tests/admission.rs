use nas_rom_manager::admission::{
    is_admitted, read_number, BYTES_PER_CHAR, COUNT_LIMIT, LENGTH_LIMIT, MAX_NESTING,
    MAX_REPETITION_NESTING, SIZE_LIMIT,
};
use nas_rom_manager::pattern::{glob_matches, is_valid_glob, PatternError};

fn c(s: &str) -> Vec<char> {
    s.chars().collect()
}

fn wrapped(depth: usize, innermost: &str, before: &str, after: &str) -> String {
    let mut glob = String::from(innermost);
    for _ in 0..depth {
        glob = format!("{}{}{}", before, glob, after);
    }
    glob
}

#[test]
fn limits_are_what_the_compilers_set() {
    assert_eq!(SIZE_LIMIT, 0x10000);
    assert_eq!(COUNT_LIMIT, u32::MAX as u64 + 1);
    assert_eq!(LENGTH_LIMIT as u64 * BYTES_PER_CHAR, SIZE_LIMIT);
    assert_eq!(MAX_NESTING, 60);
    assert_eq!(MAX_REPETITION_NESTING, 4);
}

#[test]
fn number_is_read_up_to_the_first_other_character() {
    assert_eq!(read_number(&c("a:120,7>"), 2), (120, 5));
    assert_eq!(read_number(&c("a:120,7>"), 6), (7, 7));
    assert_eq!(read_number(&c("a:120,7>"), 5), (0, 5));
    assert_eq!(read_number(&c("007"), 0), (7, 3));
    assert_eq!(read_number(&c("7"), 1), (0, 1));
    assert_eq!(read_number(&c(""), 0), (0, 0));
}

#[test]
fn number_beyond_the_count_limit_is_read_as_the_limit() {
    assert_eq!(read_number(&c("4294967295>"), 0), (4294967295, 10));
    assert_eq!(read_number(&c("4294967296>"), 0), (COUNT_LIMIT, 10));
    assert_eq!(read_number(&c("99999999999999999999999999999999"), 0), (COUNT_LIMIT, 32));
}

#[test]
fn plain_expressions_are_admitted() {
    for expression in ["", "(?i)*.sfc", "**(?i)/*.{iso,bin}", "(?i)disc?.[a-c]ue", "(?i)a:b", "(?i)2024-01-01"] {
        assert!(is_admitted(expression), "{}", expression);
    }
}

#[test]
fn repetitions_with_small_bounds_are_admitted() {
    for expression in ["(?i)<a:1,>", "(?i)<a>", "(?i)<a:3>", "(?i)<[0-9]:1,3>.bin", "(?i)<<a:10>b:10>", "(?i)<a:0,4294967295>"] {
        assert!(is_admitted(expression), "{}", expression);
    }
}

#[test]
fn lower_bounds_weigh_with_the_length() {
    assert!(is_admitted("(?i)<a:1365>"));
    assert!(!is_admitted("(?i)<a:1366>"));
    assert!(is_admitted("(?i)<<a:30>:30>"));
    assert!(!is_admitted("(?i)<<a:40>:40>"));
    assert!(!is_admitted("(?i)<a:70000>"));
    assert!(!is_admitted("(?i)<a:9999999999>"));
    assert!(!is_admitted("(?i)<11:9223372036854775808>"));
    assert!(!is_admitted("(?i)<a:99999999999999999999999999999999999999>"));
}

#[test]
fn lower_bound_of_zero_weighs_as_one() {
    assert!(is_admitted("(?i)<a:0,5>"));
    assert!(is_admitted("(?i)<a:0>"));
    assert!(is_admitted("(?i)<a:0000000000000000000000000000002>"));
}

#[test]
fn upper_bound_has_to_be_a_count() {
    assert!(is_admitted("(?i)<a:1,4294967295>"));
    assert!(!is_admitted("(?i)<a:1,4294967296>"));
    assert!(!is_admitted("(?i)<a:1,99999999999999999999>"));
    assert!(is_admitted("(?i){a,99999999999999999999}"));
}

#[test]
fn length_weighs_four_bytes_a_character() {
    assert!(is_admitted(&"a".repeat(LENGTH_LIMIT - 1)));
    assert!(!is_admitted(&"a".repeat(LENGTH_LIMIT)));
    assert!(is_admitted(&"\u{1F600}".repeat(LENGTH_LIMIT - 1)));
    assert!(!is_admitted(&"?".repeat(70000)));
}

#[test]
fn nesting_is_bounded() {
    assert!(is_admitted(&wrapped(MAX_NESTING, "a", "{", ",b}")));
    assert!(!is_admitted(&wrapped(MAX_NESTING + 1, "a", "{", ",b}")));
    assert!(!is_admitted(&wrapped(400, "a", "{", ",b}")));
    assert!(is_admitted(&"{a,b}".repeat(500)));
}

#[test]
fn nesting_of_repetitions_is_bounded() {
    assert!(is_admitted(&wrapped(MAX_REPETITION_NESTING, "a", "<", ":1,2>")));
    assert!(!is_admitted(&wrapped(MAX_REPETITION_NESTING + 1, "a", "<", ":1,2>")));
    assert!(is_admitted(&"<a:1,2>".repeat(100)));
    assert!(is_admitted(&wrapped(MAX_REPETITION_NESTING - 1, "<a>{b,<c>}", "{<", ">,d}")));
    assert!(!is_admitted(&wrapped(MAX_REPETITION_NESTING, "<a>{b,<c>}", "{<", ">,d}")));
}

#[test]
fn nesting_is_counted_from_above() {
    assert!(is_admitted(&"\\{".repeat(MAX_NESTING)));
    assert!(!is_admitted(&"\\{".repeat(MAX_NESTING + 1)));
    assert!(!is_admitted(&"{a\\}".repeat(MAX_NESTING + 1)));
    assert!(!is_admitted(&"{[}]".repeat(MAX_NESTING + 1)));
    assert!(is_admitted(&"{[}]}".repeat(MAX_NESTING + 1)));
    assert!(is_admitted(&"{[\\]]}".repeat(MAX_NESTING + 1)));
    assert!(!is_admitted(&"{[\\]}".repeat(MAX_NESTING + 1)));
}

#[test]
fn deepest_admitted_nesting_is_compiled() {
    let deepest = wrapped(MAX_NESTING, "a/**/[a-c]?", "{", "x,b}");
    assert!(is_valid_glob(&deepest));
    assert_eq!(glob_matches(&deepest, "b"), Ok(true));
    assert_eq!(glob_matches(&deepest, "c"), Ok(false));
    let deeper = wrapped(MAX_NESTING + 1, "a/**/[a-c]?", "{", "x,b}");
    assert!(!is_valid_glob(&deeper));
    assert_eq!(glob_matches(&deeper, "b"), Err(PatternError::InvalidGlob));
}

#[test]
fn deepest_admitted_repetitions_are_compiled() {
    let deepest = wrapped(MAX_REPETITION_NESTING, "a", "<y", "x:1,2>");
    assert!(is_valid_glob(&deepest));
    assert_eq!(glob_matches(&deepest, "yyyyaxxxx"), Ok(true));
    assert_eq!(glob_matches(&deepest, "yyyyxxxx"), Ok(false));
    let deeper = wrapped(MAX_REPETITION_NESTING + 1, "a", "<y", "x:1,2>");
    assert!(!is_valid_glob(&deeper));
}

#[test]
fn admitted_expression_that_is_too_large_is_an_invalid_glob() {
    assert!(!is_valid_glob("<a:1,4294967295>"));
    assert_eq!(glob_matches("<a:1,4294967295>", "a"), Err(PatternError::InvalidGlob));
    assert!(!is_valid_glob(&"?".repeat(LENGTH_LIMIT - 5)));
}

#[test]
fn longest_admitted_expression_is_compiled() {
    let longest = "a".repeat(LENGTH_LIMIT - 5);
    assert!(is_valid_glob(&longest));
    assert_eq!(glob_matches(&longest, &"A".repeat(LENGTH_LIMIT - 5)), Ok(true));
    assert!(!is_valid_glob(&"a".repeat(LENGTH_LIMIT - 4)));
}
