use http_server::text::{decimal_text, parse_unsigned, same_text, starts_with, trim_end_slashes};

#[test]
fn prefixes() {
    assert!(starts_with("/api/users", "/api"));
    assert!(starts_with("/api", "/api"));
    assert!(starts_with("/api", ""));
    assert!(!starts_with("/ap", "/api"));
    assert!(!starts_with("/aqi", "/api"));
    assert!(starts_with("\u{e4}\u{f6}x", "\u{e4}\u{f6}"));
    assert!(!starts_with("\u{e4}\u{f6}", "\u{e4}o"));
}

#[test]
fn equality() {
    assert!(same_text("", ""));
    assert!(same_text("te", "te"));
    assert!(!same_text("te", "te "));
    assert!(!same_text("te", "t"));
    assert!(!same_text("te", "tE"));
}

#[test]
fn slashes_at_the_end() {
    assert_eq!(trim_end_slashes("http://a/b//"), "http://a/b");
    assert_eq!(trim_end_slashes("http://a"), "http://a");
    assert_eq!(trim_end_slashes("//"), "");
    assert_eq!(trim_end_slashes(""), "");
    assert_eq!(trim_end_slashes("/\u{fc}/"), "/\u{fc}");
}

#[test]
fn decimals_read_back() {
    for n in [0, 1, 9, 10, 99, 100, 443, 65535, 31536000, 4294967295] {
        assert_eq!(decimal_text(n), format!("{}", n));
        assert_eq!(parse_unsigned(&decimal_text(n), 4294967295), Some(n));
    }
}

#[test]
fn numbers_have_a_limit() {
    assert_eq!(parse_unsigned("10", 10), Some(10));
    assert_eq!(parse_unsigned("11", 10), None);
    assert_eq!(parse_unsigned("11x", 10), None);
    assert_eq!(parse_unsigned("000000000000000000000000000007", 10), Some(7));
    assert_eq!(parse_unsigned("\u{663}", 10), None);
}
