use reqs::text::{contains_str, join_from, parse_u64, replace_all, split_char, split_ws, u64_to_dec};

#[test]
fn test_u64_to_dec_exact() {
    assert_eq!(u64_to_dec(0), "0");
    assert_eq!(u64_to_dec(7), "7");
    assert_eq!(u64_to_dec(1234), "1234");
    assert_eq!(u64_to_dec(u64::MAX), "18446744073709551615");
}

#[test]
fn test_parse_u64_cases() {
    assert_eq!(parse_u64("42"), Some(42));
    assert_eq!(parse_u64("+7"), Some(7));
    assert_eq!(parse_u64("0"), Some(0));
    assert_eq!(parse_u64("18446744073709551615"), Some(u64::MAX));
    assert_eq!(parse_u64(""), None);
    assert_eq!(parse_u64("+"), None);
    assert_eq!(parse_u64("4x2"), None);
    assert_eq!(parse_u64("-1"), None);
    assert_eq!(parse_u64("18446744073709551616"), None);
    assert_eq!(parse_u64("99999999999999999999999"), None);
}

#[test]
fn test_split_ws_tokens() {
    assert_eq!(split_ws("  a  bb\tc "), vec!["a", "bb", "c"]);
    assert_eq!(split_ws(""), Vec::<String>::new());
    assert_eq!(split_ws("   "), Vec::<String>::new());
}

#[test]
fn test_split_char_keeps_empties() {
    assert_eq!(split_char("a:b:c", ':'), vec!["a", "b", "c"]);
    assert_eq!(split_char(":", ':'), vec!["", ""]);
    assert_eq!(split_char("abc", ':'), vec!["abc"]);
}

#[test]
fn test_join_from_offset() {
    let parts = vec!["a".to_string(), "b".to_string(), "c".to_string()];
    assert_eq!(join_from(&parts, " ", 0), "a b c");
    assert_eq!(join_from(&parts, " ", 2), "c");
    assert_eq!(join_from(&parts, " ", 3), "");
    assert_eq!(join_from(&parts, "\n", 0), "a\nb\nc");
}

#[test]
fn test_contains_str() {
    assert!(contains_str("hello world", "o wo"));
    assert!(contains_str("hello", ""));
    assert!(!contains_str("hello", "world"));
}

#[test]
fn test_replace_all_non_overlapping() {
    assert_eq!(replace_all("aaa", "aa", "b"), "ba");
    assert_eq!(replace_all("x%t%ty", "%t", "Z"), "xZZy");
    assert_eq!(replace_all("none", "%t", "Z"), "none");
}
