use traffic_replay::keyed::TextMap;

#[test]
fn new_map_is_empty() {
    let map: TextMap<u32> = TextMap::new();
    assert_eq!(map.len(), 0);
    assert!(map.get("a").is_none());
    assert!(!map.contains_key(""));
    assert!(map.into_entries().is_empty());
}

#[test]
fn insert_stores_and_replaces() {
    let mut map: TextMap<u32> = TextMap::new();
    map.insert("a".to_owned(), 1);
    map.insert("b".to_owned(), 2);
    map.insert("".to_owned(), 0);
    assert_eq!(map.len(), 3);
    assert_eq!(map.get("a"), Some(&1));
    assert_eq!(map.get("b"), Some(&2));
    assert_eq!(map.get(""), Some(&0));
    assert_eq!(map.get("c"), None);
    map.insert("a".to_owned(), 10);
    assert_eq!(map.len(), 3);
    assert_eq!(map.get("a"), Some(&10));
    assert_eq!(map.get("b"), Some(&2));
    assert!(map.contains_key("a"));
    assert!(!map.contains_key("A"));
}

#[test]
fn entries_hold_each_key_once() {
    let mut map: TextMap<&str> = TextMap::new();
    map.insert("k".to_owned(), "first");
    map.insert("j".to_owned(), "other");
    map.insert("k".to_owned(), "second");
    assert_eq!(map.entries(), &vec![("k".to_owned(), "second"), ("j".to_owned(), "other")]);
    assert_eq!(map.into_entries(), vec![("k".to_owned(), "second"), ("j".to_owned(), "other")]);
}

#[test]
fn lookup_all_finds_every_key_or_the_first_missing() {
    let mut map: TextMap<u32> = TextMap::new();
    map.insert("a".to_owned(), 1);
    map.insert("b".to_owned(), 2);
    let keys = |list: &[&str]| list.iter().map(|k| (*k).to_owned()).collect::<Vec<String>>();
    assert_eq!(map.lookup_all(&keys(&["b", "a", "b"])), Ok(vec![&2, &1, &2]));
    assert_eq!(map.lookup_all(&keys(&[])), Ok(vec![]));
    assert_eq!(map.lookup_all(&keys(&["a", "x", "b", "y"])), Err(1));
    assert_eq!(map.lookup_all(&keys(&["z"])), Err(0));
}
