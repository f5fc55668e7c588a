use happy_remote::order::text_less;
use happy_remote::text::{contains_text, decimal, padded, trim};

#[test]
fn decimal_notation() {
    assert_eq!(decimal(0), "0");
    assert_eq!(decimal(7), "7");
    assert_eq!(decimal(1234567890), "1234567890");
    assert_eq!(decimal(u64::MAX), u64::MAX.to_string());
    assert_eq!(padded(5, 3), "005");
    assert_eq!(padded(123, 2), "123");
}

#[test]
fn trimming_white_space() {
    assert_eq!(trim("  hi there \t\n"), "hi there");
    assert_eq!(trim("   "), "");
    assert_eq!(trim("\u{3000}x\u{a0}"), "x");
    assert_eq!(trim("x"), "x");
}

#[test]
fn substring_search() {
    assert!(contains_text("session-alpha", "alpha"));
    assert!(contains_text("abc", ""));
    assert!(!contains_text("abc", "abcd"));
    assert!(!contains_text("abc", "bd"));
}

#[test]
fn lexicographic_order() {
    assert!(text_less("apple", "banana"));
    assert!(!text_less("banana", "apple"));
    assert!(text_less("app", "apple"));
    assert!(!text_less("same", "same"));
    assert!(text_less("Zeta", "alpha"));
    assert!(text_less("", "a"));
}
