//! Tests of the shared text utilities.

use error_gen::common::{assert_tokens_are_equal, remove_whitespace, str_eq};

#[test]
fn remove_whitespace_strips_every_kind() {
    assert_eq!(remove_whitespace(" a\tb\nc\rd "), "abcd");
    assert_eq!(remove_whitespace(""), "");
    assert_eq!(remove_whitespace("nochange"), "nochange");
}

#[test]
fn token_comparison_ignores_whitespace_only() {
    assert!(assert_tokens_are_equal("struct  S ;", "struct S;"));
    assert!(!assert_tokens_are_equal("struct S;", "struct T;"));
}

#[test]
fn str_eq_compares_characters() {
    assert!(str_eq("abc", "abc"));
    assert!(!str_eq("abc", "abd"));
    assert!(!str_eq("abc", "abcd"));
}
