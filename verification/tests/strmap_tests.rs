use waigaya_core::strmap::StringMap;

#[test]
fn insert_with_equal_key_replaces_the_value() {
    let mut m: StringMap<String> = StringMap::new();
    m.insert("k".to_string(), "first".to_string());
    m.insert("k".to_string(), "second".to_string());
    assert_eq!(m.len(), 1);
    assert_eq!(m.get("k"), Some(&"second".to_string()));
}

#[test]
fn remove_reports_presence() {
    let mut m: StringMap<String> = StringMap::new();
    m.insert("a".to_string(), "1".to_string());
    assert!(m.remove("a"));
    assert!(!m.remove("a"));
    assert_eq!(m.len(), 0);
    assert!(m.get("a").is_none());
}

#[test]
fn keys_come_in_insertion_order() {
    let mut m: StringMap<String> = StringMap::new();
    m.insert("b".to_string(), "1".to_string());
    m.insert("a".to_string(), "2".to_string());
    m.insert("c".to_string(), "3".to_string());
    assert_eq!(m.keys(), vec!["b".to_string(), "a".to_string(), "c".to_string()]);
}

#[test]
fn clear_empties_the_map() {
    let mut m: StringMap<String> = StringMap::new();
    m.insert("a".to_string(), "1".to_string());
    m.clear();
    assert_eq!(m.len(), 0);
    assert!(!m.contains_key("a"));
}

#[test]
fn duplicate_and_entries_agree_with_the_source_map() {
    let mut m: StringMap<String> = StringMap::new();
    m.insert("a".to_string(), "1".to_string());
    m.insert("b".to_string(), "2".to_string());
    let copy = m.duplicate();
    assert_eq!(copy.len(), 2);
    assert_eq!(copy.get("a"), Some(&"1".to_string()));
    assert_eq!(copy.get("b"), Some(&"2".to_string()));
    let entries = m.entries();
    assert_eq!(
        entries,
        vec![("a".to_string(), "1".to_string()), ("b".to_string(), "2".to_string())]
    );
}
