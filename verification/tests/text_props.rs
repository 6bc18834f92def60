use envir::num::{parse_i64, parse_u64, parse_u8, render_i64, render_u64};
use envir::text::{find_char, join, split, str_eq, to_uppercase};

#[test]
fn uppercase_ascii_only() {
    assert_eq!(to_uppercase("foo_bar9"), "FOO_BAR9");
    assert_eq!(to_uppercase("FOO"), "FOO");
    assert_eq!(to_uppercase(""), "");
}

#[test]
fn str_eq_is_exact() {
    assert!(str_eq("abc", "abc"));
    assert!(!str_eq("abc", "abd"));
    assert!(!str_eq("abc", "ab"));
    assert!(str_eq("", ""));
}

#[test]
fn find_char_first_occurrence() {
    assert_eq!(find_char("a,b,c", ',', 0), Some(1));
    assert_eq!(find_char("a,b,c", ',', 2), Some(3));
    assert_eq!(find_char("abc", ',', 0), None);
}

#[test]
fn split_then_join() {
    let parts = split("a,b,,c", ',');
    assert_eq!(parts, vec!["a", "b", "", "c"]);
    assert_eq!(join(&parts, ','), "a,b,,c");
    assert_eq!(split("plain", ','), vec!["plain"]);
    assert_eq!(split("", ','), vec![""]);
}

#[test]
fn decimal_render_and_parse() {
    assert_eq!(render_u64(0), "0");
    assert_eq!(render_u64(8080), "8080");
    assert_eq!(render_u64(u64::MAX), "18446744073709551615");
    assert_eq!(render_i64(-42), "-42");
    assert_eq!(render_i64(i64::MIN), "-9223372036854775808");
    assert_eq!(parse_u64("007"), Some(7));
    assert_eq!(parse_u64(""), None);
    assert_eq!(parse_u64("1 2"), None);
    assert_eq!(parse_u8("255"), Some(255));
    assert_eq!(parse_u8("256"), None);
    assert_eq!(parse_i64("-9223372036854775808"), Some(i64::MIN));
    assert_eq!(parse_i64("-9223372036854775809"), None);
    assert_eq!(parse_i64("9223372036854775807"), Some(i64::MAX));
    assert_eq!(parse_i64("-"), None);
}
