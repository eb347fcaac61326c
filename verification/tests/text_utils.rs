use hubble::text::{
    contains_str, i32_to_string, is_digits, nth_segment, parse_i32, split_words, str_eq,
    tokenize, u32_to_string,
};

#[test]
fn parses_plain_and_signed_integers() {
    assert_eq!(parse_i32("1500"), Some(1500));
    assert_eq!(parse_i32("-245"), Some(-245));
    assert_eq!(parse_i32("+17"), Some(17));
    assert_eq!(parse_i32("0"), Some(0));
}

#[test]
fn rejects_malformed_integers() {
    assert_eq!(parse_i32(""), None);
    assert_eq!(parse_i32("-"), None);
    assert_eq!(parse_i32("12a"), None);
    assert_eq!(parse_i32("one"), None);
}

#[test]
fn respects_integer_bounds() {
    assert_eq!(parse_i32("2147483647"), Some(i32::MAX));
    assert_eq!(parse_i32("2147483648"), None);
    assert_eq!(parse_i32("-2147483648"), Some(i32::MIN));
    assert_eq!(parse_i32("-2147483649"), None);
    assert_eq!(parse_i32("99999999999999999999"), None);
}

#[test]
fn formats_integers() {
    assert_eq!(u32_to_string(0), "0");
    assert_eq!(u32_to_string(1000000), "1000000");
    assert_eq!(i32_to_string(-245), "-245");
    assert_eq!(i32_to_string(i32::MIN), "-2147483648");
}

#[test]
fn digit_strings() {
    assert!(is_digits("10"));
    assert!(!is_digits(""));
    assert!(!is_digits("e4"));
}

#[test]
fn tokenizes_move_text() {
    let tokens = tokenize("1. e4 e5 2. Nf3  Nc6");
    assert_eq!(tokens, vec!["1", "e4", "e5", "2", "Nf3", "Nc6"]);
    let words = split_words("  score cp 13 ");
    assert_eq!(words, vec!["score", "cp", "13"]);
}

#[test]
fn segments_and_search() {
    assert_eq!(
        nth_segment("https://lichess.org/abcd1234/white", '/', 3).as_deref(),
        Some("abcd1234")
    );
    assert_eq!(nth_segment("a/b", '/', 5), None);
    assert!(contains_str("info depth 20 score cp 1", "depth 20"));
    assert!(!contains_str("info depth 7", "depth 20"));
    assert!(str_eq("readyok", "readyok"));
    assert!(!str_eq("readyok", "uciok"));
}
