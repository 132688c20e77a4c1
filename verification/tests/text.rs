use ai_agent::text::{decimal_string, starts_with, str_eq};

#[test]
fn decimal_notation() {
    assert_eq!(decimal_string(0), "0");
    assert_eq!(decimal_string(7), "7");
    assert_eq!(decimal_string(10), "10");
    assert_eq!(decimal_string(1234567890), "1234567890");
    assert_eq!(decimal_string(u64::MAX), u64::MAX.to_string());
}

#[test]
fn prefixes_and_equality() {
    assert!(starts_with("2026-08-03", "2026-08"));
    assert!(starts_with("2026-08-03", ""));
    assert!(!starts_with("2026-08", "2026-08-03"));
    assert!(!starts_with("2026-09-03", "2026-08"));
    assert!(starts_with("héllo", "hé"));
    assert!(str_eq("abc", "abc"));
    assert!(!str_eq("abc", "abd"));
    assert!(!str_eq("abc", "ab"));
}
