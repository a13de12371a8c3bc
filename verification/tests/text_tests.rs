use dns_test::text::{dec_u64, join_with_spaces, trim_trailing_newlines, trim_whitespace};

#[test]
fn trim_removes_all_trailing_newline_noise() {
    assert_eq!(trim_trailing_newlines("hello\n"), "hello");
    assert_eq!(trim_trailing_newlines("hello\r\n"), "hello");
    assert_eq!(trim_trailing_newlines("hello\n\r\n\n"), "hello");
    assert_eq!(trim_trailing_newlines("hello"), "hello");
    assert_eq!(trim_trailing_newlines(""), "");
    assert_eq!(trim_trailing_newlines("\n\n"), "");
}

#[test]
fn trim_keeps_interior_newlines() {
    assert_eq!(trim_trailing_newlines("a\nb\n"), "a\nb");
}

#[test]
fn trim_whitespace_trims_both_ends() {
    assert_eq!(trim_whitespace("  172.17.0.2\n"), "172.17.0.2");
    assert_eq!(trim_whitespace("\t x \r\n"), "x");
    assert_eq!(trim_whitespace("x"), "x");
    assert_eq!(trim_whitespace("   "), "");
    assert_eq!(trim_whitespace(""), "");
}

#[test]
fn decimal_rendering_is_canonical() {
    assert_eq!(dec_u64(0), "0");
    assert_eq!(dec_u64(7), "7");
    assert_eq!(dec_u64(10), "10");
    assert_eq!(dec_u64(255), "255");
    assert_eq!(dec_u64(12345), "12345");
    assert_eq!(dec_u64(u64::MAX), "18446744073709551615");
}

#[test]
fn join_with_spaces_works() {
    let parts: Vec<String> = vec!["docker".to_string(), "rm".to_string(), "-f".to_string()];
    assert_eq!(join_with_spaces(&parts), "docker rm -f");
    let one: Vec<String> = vec!["true".to_string()];
    assert_eq!(join_with_spaces(&one), "true");
    let none: Vec<String> = vec![];
    assert_eq!(join_with_spaces(&none), "");
}
