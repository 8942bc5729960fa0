use modular_scanner::strutil::{
    contains_char, contains_substr, make_endpoint, split_char, str_eq, trim_str, u16_to_string,
    vec_contains_string,
};

#[test]
fn substring_search() {
    assert!(contains_substr("a.example.test", "example.test"));
    assert!(contains_substr("example.test", "example.test"));
    assert!(contains_substr("anything", ""));
    assert!(!contains_substr("example.org", "example.test"));
    // Substring containment, not suffix: an embedded match passes too.
    assert!(contains_substr("notexample.test.evil.com", "example.test"));
}

#[test]
fn string_equality() {
    assert!(str_eq("example.test", "example.test"));
    assert!(!str_eq("example.test", "example.tes"));
    assert!(!str_eq("", "a"));
    assert!(str_eq("", ""));
}

#[test]
fn character_search() {
    assert!(contains_char("*.example.test", '*'));
    assert!(!contains_char("a.example.test", '*'));
}

#[test]
fn trimming() {
    assert_eq!(trim_str("  a.example.test \t"), "a.example.test");
    assert_eq!(trim_str("\r\na b\r\n"), "a b");
    assert_eq!(trim_str("   "), "");
    assert_eq!(trim_str("x"), "x");
}

#[test]
fn splitting_on_newlines() {
    assert_eq!(split_char("a\nb", '\n'), vec!["a".to_string(), "b".to_string()]);
    assert_eq!(
        split_char("a\n\nb\n", '\n'),
        vec!["a".to_string(), "".to_string(), "b".to_string(), "".to_string()]
    );
    assert_eq!(split_char("", '\n'), vec!["".to_string()]);
}

#[test]
fn decimal_rendering() {
    assert_eq!(u16_to_string(0), "0");
    assert_eq!(u16_to_string(7), "7");
    assert_eq!(u16_to_string(80), "80");
    assert_eq!(u16_to_string(8443), "8443");
    assert_eq!(u16_to_string(u16::MAX), "65535");
}

#[test]
fn endpoint_formatting() {
    assert_eq!(make_endpoint("example.test", 8080), "http://example.test:8080");
    assert_eq!(make_endpoint("a.example.test", 80), "http://a.example.test:80");
}

#[test]
fn vector_membership() {
    let v = vec!["a".to_string(), "b".to_string()];
    assert!(vec_contains_string(&v, "a"));
    assert!(!vec_contains_string(&v, "c"));
}
