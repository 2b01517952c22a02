use rust_api::pattern::all_plain;
use rust_api::pattern::confirms;
use rust_api::pattern::is_literal;
use rust_api::pattern::split;

fn pairs(list: &[(&str, &str)]) -> Vec<(String, String)> {
    list.iter().map(|(k, v)| (k.to_string(), v.to_string())).collect()
}

fn chars(list: &[&str]) -> Vec<Vec<char>> {
    list.iter().map(|s| s.chars().collect()).collect()
}

#[test]
fn split_at_slashes() {
    assert_eq!(split(""), chars(&[""]));
    assert_eq!(split("/"), chars(&["", ""]));
    assert_eq!(split("a"), chars(&["a"]));
    assert_eq!(split("/a/b"), chars(&["", "a", "b"]));
    assert_eq!(split("/a//b/"), chars(&["", "a", "", "b", ""]));
    assert_eq!(split("/caf\u{e9}/{id}"), chars(&["", "caf\u{e9}", "{id}"]));
    for text in ["", "/", "//", "/a/b", "a/b/", "x"] {
        let expected: Vec<&str> = text.split('/').collect();
        assert_eq!(split(text), chars(&expected), "{:?}", text);
    }
}

#[test]
fn plain_and_other_segments() {
    assert!(is_literal("users"));
    assert!(is_literal(""));
    assert!(is_literal("/a*b/c"));
    assert!(!is_literal("/{id}"));
    assert!(!is_literal("a}"));
    assert!(all_plain(&split("/users/{id}/posts")));
    assert!(all_plain(&split("/{a b}")));
    assert!(all_plain(&split("")));
    assert!(!all_plain(&split("/{}")));
    assert!(!all_plain(&split("/files/{*rest}")));
    assert!(!all_plain(&split("/{a}{b}")));
    assert!(!all_plain(&split("/img{id}.png")));
    assert!(!all_plain(&split("/a/{{b}}")));
    assert!(!all_plain(&split("/a/{b")));
}

#[test]
fn literal_pattern_matches_itself_only() {
    assert!(confirms("/users/list", "/users/list", &pairs(&[])));
    assert!(!confirms("/users/list", "/users/list/", &pairs(&[])));
    assert!(!confirms("/users/list", "/users/lisT", &pairs(&[])));
    assert!(!confirms("/users/list", "/users", &pairs(&[])));
    assert!(!confirms("/users/list", "/users/list", &pairs(&[("a", "b")])));
    assert!(confirms("", "", &pairs(&[])));
    assert!(confirms("/", "/", &pairs(&[])));
    assert!(!confirms("/", "", &pairs(&[])));
}

#[test]
fn capture_takes_a_whole_segment() {
    assert!(confirms("/users/{id}", "/users/42", &pairs(&[("id", "42")])));
    assert!(!confirms("/users/{id}", "/users/42", &pairs(&[("id", "4")])));
    assert!(!confirms("/users/{id}", "/users/42", &pairs(&[("idx", "42")])));
    assert!(!confirms("/users/{id}", "/users/42", &pairs(&[])));
    assert!(!confirms("/users/{id}", "/users/42", &pairs(&[("id", "42"), ("id", "42")])));
    assert!(!confirms("/users/{id}", "/users/", &pairs(&[("id", "")])));
    assert!(!confirms("/users/{id}", "/users/4/2", &pairs(&[("id", "4/2")])));
    assert!(!confirms("/users/{id}", "/user/42", &pairs(&[("id", "42")])));
    assert!(confirms(
        "/{a}/x/{b}",
        "/1/x/2",
        &pairs(&[("a", "1"), ("b", "2")])
    ));
    assert!(confirms("/{a b}", "/caf\u{e9}", &pairs(&[("a b", "caf\u{e9}")])));
    assert!(confirms("/{a}/{a}", "/1/2", &pairs(&[("a", "1"), ("a", "2")])));
    assert!(!confirms(
        "/{a}/x/{b}",
        "/1/x/2",
        &pairs(&[("b", "2"), ("a", "1")])
    ));
    assert!(!confirms("/{a}/x/{b}", "/1/y/2", &pairs(&[("a", "1"), ("b", "2")])));
}

#[test]
fn other_patterns_are_not_judged() {
    assert!(confirms("/files/{*rest}", "/anything", &pairs(&[("x", "y")])));
    assert!(confirms("/img{id}.png", "/img1.png", &pairs(&[("id", "1")])));
    assert!(confirms("/{{x}}", "/{x}", &pairs(&[])));
}

#[test]
fn long_paths_are_confirmed_quickly() {
    let path = "/x".repeat(20000);
    let pattern = "/{p}".repeat(20000);
    let params: Vec<(String, String)> =
        (0..20000).map(|_| ("p".to_string(), "x".to_string())).collect();
    assert!(confirms(&pattern, &path, &params));
    assert!(!confirms(&pattern, &path, &params[1..].to_vec()));
    let slashes = "/".repeat(50000);
    assert!(confirms(&slashes, &slashes, &pairs(&[])));
}
