use std::any::TypeId;

use rust_api::extensions::Extensions;

#[test]
fn test_insert_and_get() {
    let mut ext = Extensions::new();
    ext.insert(42u32);
    ext.insert("hello".to_string());

    assert_eq!(ext.get::<u32>(), Some(&42));
    assert_eq!(ext.get::<String>().map(|s| s.as_str()), Some("hello"));
}

#[test]
fn test_capacity() {
    let ext = Extensions::with_capacity(10);
    assert!(ext.capacity() >= 10);
}

#[test]
fn test_remove() {
    let mut ext = Extensions::new();
    ext.insert(100u64);

    assert_eq!(ext.remove::<u64>(), Some(100));
    assert_eq!(ext.get::<u64>(), None);
}

#[test]
fn test_contains() {
    let mut ext = Extensions::new();
    ext.insert(true);

    assert!(ext.contains::<bool>());
    assert!(!ext.contains::<u32>());
}

#[test]
fn insert_replaces_and_returns_previous() {
    let mut ext = Extensions::new();
    assert_eq!(ext.insert(1u32), None);
    assert_eq!(ext.insert(2u32), Some(1));
    assert_eq!(ext.get::<u32>(), Some(&2));
    assert_eq!(ext.len(), 1);
}

#[test]
fn one_value_per_type() {
    let mut ext = Extensions::new();
    ext.insert(1u8);
    ext.insert(2u16);
    ext.insert(3u8);
    assert_eq!(ext.len(), 2);
    assert_eq!(ext.get::<u8>(), Some(&3));
    assert_eq!(ext.get::<u16>(), Some(&2));
}

#[test]
fn get_mut_changes_in_place() {
    let mut ext = Extensions::new();
    ext.insert(String::from("a"));
    ext.insert(7i64);
    if let Some(s) = ext.get_mut::<String>() {
        s.push('b');
    }
    assert_eq!(ext.get::<String>().map(|s| s.as_str()), Some("ab"));
    assert_eq!(ext.get::<i64>(), Some(&7));
    assert!(ext.get_mut::<u8>().is_none());
}

#[test]
fn remove_keeps_the_others() {
    let mut ext = Extensions::new();
    ext.insert(1u8);
    ext.insert(2u16);
    ext.insert(3u32);
    assert_eq!(ext.remove::<u16>(), Some(2));
    assert_eq!(ext.remove::<u16>(), None);
    assert_eq!(ext.len(), 2);
    assert_eq!(ext.get::<u8>(), Some(&1));
    assert_eq!(ext.get::<u32>(), Some(&3));
}

#[test]
fn clear_and_emptiness() {
    let mut ext = Extensions::new();
    assert!(ext.is_empty());
    assert_eq!(ext.len(), 0);
    ext.insert(1u8);
    assert!(!ext.is_empty());
    ext.clear();
    assert!(ext.is_empty());
    assert!(!ext.contains::<u8>());
}

#[derive(Debug, PartialEq)]
struct Identity(String);

#[test]
fn caller_defined_types_are_stored() {
    let mut ext = Extensions::new();
    ext.insert(Identity("alice".to_string()));
    assert_eq!(ext.get::<Identity>(), Some(&Identity("alice".to_string())));
    assert!(ext.contains::<Identity>());
}

#[test]
fn default_store_is_empty() {
    let ext = Extensions::default();
    assert!(ext.is_empty());
    assert!(!ext.contains::<u8>());
}

#[test]
fn slots_are_found_by_the_identity_of_the_type() {
    let mut ext = Extensions::new();
    assert_eq!(ext.find(&TypeId::of::<u8>()), None);
    ext.insert(1u8);
    ext.insert(2u16);
    ext.insert(3u32);
    assert_eq!(ext.find(&TypeId::of::<u8>()), Some(0));
    assert_eq!(ext.find(&TypeId::of::<u16>()), Some(1));
    assert_eq!(ext.find(&TypeId::of::<u32>()), Some(2));
    assert_eq!(ext.find(&TypeId::of::<u64>()), None);
    ext.insert(9u16);
    assert_eq!(ext.find(&TypeId::of::<u16>()), Some(1));
    ext.remove::<u8>();
    assert_eq!(ext.find(&TypeId::of::<u8>()), None);
    assert_eq!(ext.find(&TypeId::of::<u16>()), Some(0));
    assert_eq!(ext.find(&TypeId::of::<u32>()), Some(1));
}

#[test]
fn there_is_room_for_what_is_held() {
    let mut ext = Extensions::with_capacity(0);
    assert!(ext.capacity() >= ext.len());
    ext.insert(1u8);
    ext.insert(2u16);
    ext.insert(3u32);
    ext.insert(4u64);
    ext.insert(5i8);
    assert_eq!(ext.len(), 5);
    assert!(ext.capacity() >= 5);
    ext.remove::<u16>();
    assert!(ext.capacity() >= ext.len());
    assert!(Extensions::new().capacity() >= 4);
}

#[test]
fn changing_one_value_leaves_the_others() {
    let mut ext = Extensions::new();
    ext.insert(1u8);
    ext.insert(String::from("a"));
    ext.insert(3u32);
    *ext.get_mut::<u32>().unwrap() = 30;
    assert_eq!(ext.get::<u8>(), Some(&1));
    assert_eq!(ext.get::<String>().map(|s| s.as_str()), Some("a"));
    assert_eq!(ext.get::<u32>(), Some(&30));
    assert_eq!(ext.len(), 3);
}
