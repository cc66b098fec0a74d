use why::name_map::NameMap;

#[test]
fn a_new_map_is_empty() {
    let m: NameMap<u32> = NameMap::new();
    assert_eq!(m.len(), 0);
    assert_eq!(m.get("a"), None);
    assert!(!m.contains_key("a"));
}

#[test]
fn insert_appends_new_names_and_replaces_old_values() {
    let mut m: NameMap<u32> = NameMap::new();
    m.insert("b".to_string(), 1);
    m.insert("a".to_string(), 2);
    m.insert("b".to_string(), 3);
    assert_eq!(m.len(), 2);
    assert_eq!(m.key_at(0), "b");
    assert_eq!(m.key_at(1), "a");
    assert_eq!(m.value_at(0), &3);
    assert_eq!(m.get("a"), Some(&2));
    assert_eq!(m.get("b"), Some(&3));
    assert_eq!(m.position("a"), Some(1));
    assert_eq!(m.position("c"), None);
    assert!(m.contains_key("a"));
}

#[test]
fn push_to_extends_the_list_of_a_name() {
    let mut m: NameMap<Vec<u8>> = NameMap::new();
    m.insert("x".to_string(), Vec::new());
    m.insert("y".to_string(), vec![9]);
    assert!(m.push_to("x", 1));
    assert!(m.push_to("x", 2));
    assert!(!m.push_to("z", 3));
    assert_eq!(m.get("x"), Some(&vec![1, 2]));
    assert_eq!(m.get("y"), Some(&vec![9]));
    assert_eq!(m.len(), 2);
}
