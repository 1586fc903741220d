use analysis_backend::store::KeyedStore;

#[test]
fn store_insert_get_remove() {
    let mut store: KeyedStore<u32> = KeyedStore::new();
    assert_eq!(store.len(), 0);
    assert_eq!(store.insert("a", 1), None);
    assert_eq!(store.insert("b", 2), None);
    assert_eq!(store.insert("c", 3), None);
    assert_eq!(store.insert("b", 20), Some(2));
    assert_eq!(store.len(), 3);
    assert_eq!(store.get("b"), Some(&20));
    assert_eq!(store.position("a"), Some(0));
    assert_eq!(store.position("c"), Some(2));
    assert!(store.contains_key("a"));
    assert!(!store.contains_key("d"));
    // removing the first slot moves the last into its place
    assert_eq!(store.remove("a"), Some(1));
    assert_eq!(store.position("c"), Some(0));
    assert_eq!(store.key_at(0), "c");
    assert_eq!(store.value_at(0), &3);
    assert_eq!(store.position("a"), None);
    assert_eq!(store.get("a"), None);
    assert_eq!(store.remove("a"), None);
    assert_eq!(store.len(), 2);
    *store.value_at_mut(1) = 21;
    assert_eq!(store.get("b"), Some(&21));
    let (key, value) = store.remove_at(1);
    assert_eq!((key.as_str(), value), ("b", 21));
    store.clear();
    assert_eq!(store.len(), 0);
    assert!(!store.contains_key("c"));
}
