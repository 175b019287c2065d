use krustlet::table::{Key, Table};

#[test]
fn insert_get_remove() {
    let mut t: Table<String, u32> = Table::new();
    assert_eq!(t.len(), 0);
    assert_eq!(t.insert("a".to_owned(), 1), None);
    assert_eq!(t.insert("b".to_owned(), 2), None);
    assert_eq!(t.insert("a".to_owned(), 3), Some(1));
    assert_eq!(t.len(), 2);
    assert_eq!(t.get(&"a".to_owned()), Some(&3));
    assert_eq!(t.get(&"c".to_owned()), None);
    assert!(t.contains_key(&"b".to_owned()));
    assert_eq!(t.find(&"b".to_owned()), Some(1));
    assert_eq!(t.keys(), vec!["a".to_owned(), "b".to_owned()]);
    assert_eq!(t.remove(&"a".to_owned()), Some(3));
    assert_eq!(t.remove(&"a".to_owned()), None);
    assert_eq!(t.keys(), vec!["b".to_owned()]);
    assert!(t.contains_key(&"b".to_owned()));
}

#[test]
fn entries_round_trip() {
    let mut t: Table<String, u32> = Table::new();
    t.insert("x".to_owned(), 1);
    t.insert("y".to_owned(), 2);
    let entries = t.into_entries();
    assert_eq!(entries, vec![("x".to_owned(), 1), ("y".to_owned(), 2)]);
    let back = Table::from_entries(entries);
    assert_eq!(back.get(&"y".to_owned()), Some(&2));
}

#[test]
fn strings_are_keys_by_their_characters() {
    let a = "key".to_owned();
    assert!(a.same(&"key".to_owned()));
    assert!(!a.same(&"Key".to_owned()));
    assert_eq!(a.duplicate(), "key");
}
