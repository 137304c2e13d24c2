//! Tests of the verified text utilities: substring containment,
//! lexicographic comparison, and decimal formatting.

use filehosting::text::{str_contains, str_lex_between, str_lex_le, u64_to_dec_string};

#[test]
fn contains_finds_inner_substring() {
    assert!(str_contains("example.txt", "ample"));
    assert!(str_contains("example.txt", "example.txt"));
    assert!(str_contains("example.txt", ""));
    assert!(str_contains("", ""));
}

#[test]
fn contains_rejects_missing_substring() {
    assert!(!str_contains("example.txt", "Ample"));
    assert!(!str_contains("example.txt", "xamplee"));
    assert!(!str_contains("short", "much longer needle"));
    assert!(!str_contains("", "a"));
}

#[test]
fn lex_le_orders_by_code_point() {
    assert!(str_lex_le("", "anything"));
    assert!(str_lex_le("abc", "abd"));
    assert!(!str_lex_le("abd", "abc"));
    assert!(str_lex_le("abc", "abc"));
    assert!(str_lex_le("abc", "abcd"));
    assert!(!str_lex_le("abcd", "abc"));
}

#[test]
fn lex_le_on_numerals_is_not_numeric() {
    // a longer numeral sorts by its first differing character
    assert!(str_lex_le("10000000000", "2"));
    assert!(!str_lex_le("2", "10000000000"));
    assert!(str_lex_le("999999999", "9999999999"));
    assert!(!str_lex_le("9999999999", "999999999"));
}

#[test]
fn lex_between_is_inclusive() {
    assert!(str_lex_between("1500000000", "1000000000", "2000000000"));
    assert!(str_lex_between("1000000000", "1000000000", "2000000000"));
    assert!(str_lex_between("2000000000", "1000000000", "2000000000"));
    assert!(!str_lex_between("2000000001", "1000000000", "2000000000"));
    assert!(str_lex_between("999999999", "0", "9999999999"));
    assert!(!str_lex_between("10000000000", "2", "9999999999"));
}

#[test]
fn decimal_formatting_is_exact() {
    assert_eq!(u64_to_dec_string(0), "0");
    assert_eq!(u64_to_dec_string(7), "7");
    assert_eq!(u64_to_dec_string(10), "10");
    assert_eq!(u64_to_dec_string(1234567890), "1234567890");
    assert_eq!(u64_to_dec_string(u64::MAX), "18446744073709551615");
}
