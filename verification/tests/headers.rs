use rust_api::headers::HeaderList;

#[test]
fn names_are_canonical() {
    let mut h = HeaderList::new();
    assert!(h.insert("Content-Type", "text/plain"));
    assert_eq!(h.len(), 1);
    assert_eq!(h.entry(0).unwrap().0, "content-type");
    assert_eq!(h.entry(0).unwrap().1, "text/plain");
    assert_eq!(h.entry(1), None);
    assert_eq!(h.get("content-type"), Some("text/plain"));
    assert_eq!(h.get("CONTENT-TYPE"), Some("text/plain"));
    assert_eq!(h.get_canonical("content-type"), Some("text/plain"));
    assert_eq!(h.get_canonical("Content-Type"), None);
    assert!(h.contains_key("Content-type"));
    assert!(!h.contains_key("accept"));
}

#[test]
fn insert_replaces_every_entry_of_the_name() {
    let mut h = HeaderList::new();
    assert!(h.append("x-a", "1"));
    assert!(h.append("x-b", "2"));
    assert!(h.append("X-A", "3"));
    assert_eq!(h.len(), 3);
    assert_eq!(h.get("x-a"), Some("1"));
    assert!(h.insert("x-a", "9"));
    assert_eq!(h.len(), 2);
    assert_eq!(h.entry(0).unwrap().0, "x-b");
    assert_eq!(h.entry(1).unwrap().0, "x-a");
    assert_eq!(h.get("x-a"), Some("9"));
    assert_eq!(h.get("x-b"), Some("2"));
}

#[test]
fn bad_names_and_values_change_nothing() {
    let mut h = HeaderList::new();
    assert!(!h.insert("bad name", "v"));
    assert!(!h.insert("", "v"));
    assert!(!h.insert("x-a", "line\nbreak"));
    assert!(!h.insert("x-a", "del\u{7f}"));
    assert!(!h.append("x a", "v"));
    assert_eq!(h.len(), 0);
    assert_eq!(h.get("bad name"), None);
    assert!(h.insert("x-a", "tab\there"));
    assert!(h.insert("x-b", "caf\u{e9}"));
    assert_eq!(h.len(), 2);
}

#[test]
fn put_takes_the_name_as_written() {
    let mut h = HeaderList::new();
    h.put("content-type", "a");
    h.put("content-type", "b");
    assert_eq!(h.len(), 1);
    assert_eq!(h.get_canonical("content-type"), Some("b"));
}

#[test]
fn copy_is_equal() {
    let mut h = HeaderList::new();
    h.insert("a", "1");
    h.insert("b", "2");
    let c = h.copy();
    assert_eq!(c.len(), 2);
    assert_eq!(c.get("a"), Some("1"));
    assert_eq!(c.get("b"), Some("2"));
}

#[test]
fn which_characters_a_name_may_hold() {
    let signs = "!#$%&'*+-.^_`|~";
    for code in 0u32..=0x2ff {
        let c = match char::from_u32(code) {
            Some(c) => c,
            None => continue,
        };
        let name = c.to_string();
        let expected = c.is_ascii_alphanumeric() || signs.contains(c);
        let mut h = HeaderList::new();
        assert_eq!(h.insert(&name, "v"), expected, "character {:?}", c);
        if expected {
            assert_eq!(h.entry(0).unwrap().0, name.to_ascii_lowercase());
        }
    }
}

#[test]
fn how_long_a_name_may_be() {
    let mut h = HeaderList::new();
    assert!(!h.insert("", "v"));
    assert!(h.insert(&"A".repeat(65535), "v"));
    assert_eq!(h.entry(0).unwrap().0, "a".repeat(65535));
    assert!(!h.insert(&"a".repeat(65536), "v"));
    assert!(h.insert(&"X-Mixed_Case.9".repeat(100), "v"));
    assert_eq!(h.entry(1).unwrap().0, "x-mixed_case.9".repeat(100));
}

#[test]
fn which_bytes_a_value_may_hold() {
    for code in 0u32..=0x2ff {
        let c = match char::from_u32(code) {
            Some(c) => c,
            None => continue,
        };
        let expected = (code >= 32 && code != 127) || code == 9;
        let mut h = HeaderList::new();
        assert_eq!(h.insert("x", &format!("a{}b", c)), expected, "character {:?}", c);
    }
    let mut h = HeaderList::new();
    assert!(h.insert("x", ""));
}
