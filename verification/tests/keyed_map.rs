use lynara::keyed::KeyedList;

#[test]
fn insert_then_get_gives_value() {
    let mut m: KeyedList<u64> = KeyedList::new();
    m.insert("natives-linux".to_string(), 1);
    m.insert("natives-windows".to_string(), 2);
    assert_eq!(m.get("natives-linux"), Some(&1));
    assert_eq!(m.get("natives-windows"), Some(&2));
    assert_eq!(m.get("natives-macos"), None);
    assert_eq!(m.len(), 2);
}

#[test]
fn insert_replaces_existing_key() {
    let mut m: KeyedList<u64> = KeyedList::new();
    m.insert("k".to_string(), 1);
    m.insert("k".to_string(), 5);
    assert_eq!(m.get("k"), Some(&5));
    assert_eq!(m.len(), 1);
    let (key, value) = m.entry(0);
    assert_eq!(key, "k");
    assert_eq!(*value, 5);
}
