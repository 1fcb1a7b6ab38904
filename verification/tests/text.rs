use excel_agent::text::{concat2, contains, decimal};

#[test]
fn contains_finds_a_word_anywhere() {
    assert!(contains("hello world", "hello"));
    assert!(contains("hello world", "o w"));
    assert!(contains("hello world", "world"));
    assert!(contains("hello world", "hello world"));
}

#[test]
fn contains_rejects_what_is_not_there() {
    assert!(!contains("hello world", "worlds"));
    assert!(!contains("hello", "hello world"));
    assert!(!contains("", "a"));
    assert!(!contains("abcabd", "abe"));
}

#[test]
fn contains_finds_the_empty_word() {
    assert!(contains("abc", ""));
    assert!(contains("", ""));
}

#[test]
fn contains_handles_repeated_prefixes() {
    assert!(contains("aaab", "aab"));
    assert!(contains("ababac", "abac"));
}

#[test]
fn contains_works_on_multibyte_text() {
    assert!(contains("结果 \u{274c} 失败", "\u{274c}"));
    assert!(contains("结果 \u{274c} 失败", "失败"));
    assert!(!contains("结果", "\u{274c}"));
}

#[test]
fn decimal_renders_numbers() {
    assert_eq!(decimal(0), "0");
    assert_eq!(decimal(7), "7");
    assert_eq!(decimal(10), "10");
    assert_eq!(decimal(909), "909");
    assert_eq!(decimal(1700000000123), "1700000000123");
    assert_eq!(decimal(u128::MAX), "340282366920938463463374607431768211455");
}

#[test]
fn concat2_joins_two_texts() {
    assert_eq!(concat2("ab", "cd"), "abcd");
    assert_eq!(concat2("", "cd"), "cd");
    assert_eq!(concat2("ab", ""), "ab");
}
