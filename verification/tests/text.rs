use rust_api::text::chars_of;
use rust_api::text::contains;
use rust_api::text::decimal_string;
use rust_api::text::eq_ignore_ascii_case;
use rust_api::text::join2;
use rust_api::text::join3;
use rust_api::text::parse_usize;
use rust_api::text::starts_with;
use rust_api::text::str_eq;

#[test]
fn decimal_of_numbers() {
    assert_eq!(decimal_string(0), "0");
    assert_eq!(decimal_string(7), "7");
    assert_eq!(decimal_string(10), "10");
    assert_eq!(decimal_string(404), "404");
    assert_eq!(decimal_string(65535), "65535");
    assert_eq!(decimal_string(u64::MAX), u64::MAX.to_string());
}

#[test]
fn parse_agrees_with_std() {
    let cases = [
        "0", "7", "42", "007", "+5", "+", "", "-1", "1a", " 1", "1 ", "18446744073709551615",
        "18446744073709551616", "99999999999999999999999", "++1", "1+",
    ];
    for case in cases {
        assert_eq!(parse_usize(case), case.parse::<usize>().ok(), "case {:?}", case);
    }
}

#[test]
fn prefix_and_substring() {
    assert!(starts_with("application/json; charset=utf-8", "application/json"));
    assert!(starts_with("abc", ""));
    assert!(starts_with("", ""));
    assert!(!starts_with("ab", "abc"));
    assert!(!starts_with("text/plain", "application/json"));
    assert!(contains("keep-alive, upgrade", "upgrade"));
    assert!(contains("abc", ""));
    assert!(contains("", ""));
    assert!(!contains("", "a"));
    assert!(!contains("upgrad", "upgrade"));
    assert!(contains("xxapplication/jsonxx", "application/json"));
}

#[test]
fn equality_with_and_without_case() {
    assert!(str_eq("abc", "abc"));
    assert!(!str_eq("abc", "abd"));
    assert!(eq_ignore_ascii_case("WebSocket", "websocket"));
    assert!(eq_ignore_ascii_case("", ""));
    assert!(!eq_ignore_ascii_case("websocket", "websockets"));
    assert!(!eq_ignore_ascii_case("a[", "a{"));
    assert!(!eq_ignore_ascii_case("é", "É"));
}

#[test]
fn joining() {
    assert_eq!(join2("a", "b"), "ab");
    assert_eq!(join3("a", "", "c"), "ac");
}

#[test]
fn characters_of_a_text() {
    assert_eq!(chars_of(""), Vec::<char>::new());
    assert_eq!(chars_of("a\u{e9}/"), vec!['a', '\u{e9}', '/']);
}

#[test]
fn long_texts_are_searched_quickly() {
    let hay = format!("{}application/json", "x".repeat(200000));
    assert!(contains(&hay, "application/json"));
    assert!(!contains(&hay, "application/jsonx"));
    assert!(!starts_with(&hay, "application/json"));
    assert_eq!(parse_usize(&"0".repeat(100000)), Some(0));
}
