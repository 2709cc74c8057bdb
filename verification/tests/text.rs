use terax_agents::text::{
    str_eq, str_ge, trim_str, truncate_chars, u64_to_decimal,
};

#[test]
fn decimal_text_of_integers() {
    assert_eq!(u64_to_decimal(0), "0");
    assert_eq!(u64_to_decimal(7), "7");
    assert_eq!(u64_to_decimal(1000), "1000");
    assert_eq!(u64_to_decimal(u64::MAX), u64::MAX.to_string());
}

#[test]
fn trimming_unicode_white_space() {
    assert_eq!(trim_str("  a b \t\n"), "a b");
    assert_eq!(trim_str("\u{3000}x\u{a0}"), "x");
    assert_eq!(trim_str("   "), "");
    assert_eq!(trim_str(""), "");
}

#[test]
fn character_truncation() {
    assert_eq!(truncate_chars("h\u{e9}llo", 2), "h\u{e9}");
    assert_eq!(truncate_chars("hi", 5), "hi");
}

#[test]
fn string_comparisons() {
    assert!(str_eq("abc", "abc"));
    assert!(!str_eq("abc", "abd"));
    assert!(str_ge("b", "abc"));
    assert!(str_ge("abc", "abc"));
    assert!(!str_ge("ab", "abc"));
}
