use popmax::text::{
    chars_of, contains_str, hex16, hex_lower_string, parse_i32_str, replace_all_str, str_equal,
    trim_str,
};

#[test]
fn trim_removes_unicode_whitespace() {
    assert_eq!(trim_str("  \t a b \u{3000}\n"), "a b");
    assert_eq!(trim_str("   "), "");
    assert_eq!(trim_str("x"), "x");
}

#[test]
fn replace_all_is_left_to_right_and_non_overlapping() {
    assert_eq!(replace_all_str("a{}b{}", "{}", "X"), "aXbX");
    assert_eq!(replace_all_str("{{}}", "{}", "-"), "{-}");
    assert_eq!(replace_all_str("aaa", "aa", "b"), "ba");
}

#[test]
fn contains_finds_substrings() {
    let s = chars_of("firefox");
    assert!(contains_str(&s, &chars_of("fox")));
    assert!(contains_str(&s, &chars_of("")));
    assert!(!contains_str(&s, &chars_of("foxes")));
}

#[test]
fn hex_formatting() {
    assert_eq!(hex16(0), "0000000000000000");
    assert_eq!(hex16(0xdead_beef), "00000000deadbeef");
    assert_eq!(hex16(u64::MAX), "ffffffffffffffff");
    assert_eq!(hex_lower_string(0), "0");
    assert_eq!(hex_lower_string(255), "ff");
}

#[test]
fn parse_i32_like_std() {
    for s in ["0", "-12", "+7", "2147483647", "-2147483648", "2147483648", "", "-", "+", "1a", " 1", "007"] {
        assert_eq!(parse_i32_str(s), s.parse::<i32>().ok(), "input {:?}", s);
    }
}

#[test]
fn equality_and_lowercase() {
    assert!(str_equal("abc", "abc"));
    assert!(!str_equal("abc", "abd"));
}
