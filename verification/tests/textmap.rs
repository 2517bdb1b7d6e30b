use evmqtt_rs::textmap::TextMap;

fn listed(map: &TextMap<u8>) -> Vec<(String, u8)> {
    (0..map.len())
        .map(|i| {
            let (k, v) = map.entry(i);
            (k.clone(), *v)
        })
        .collect()
}

#[test]
fn entries_are_ordered_and_unique() {
    let mut map = TextMap::new();
    for (k, v) in [("b", 1), ("a", 2), ("c", 3), ("b", 4)] {
        map.insert(k, v);
    }
    let expected = [("a", 2), ("b", 4), ("c", 3)];
    let expected: Vec<(String, u8)> = expected.iter().map(|(k, v)| (k.to_string(), *v)).collect();
    assert_eq!(listed(&map), expected);
    assert_eq!(map.get("b"), Some(&4));
    assert_eq!(map.get("x"), None);
    assert!(map.contains_key("a"));
}

#[test]
fn removal_says_whether_there_was_an_entry() {
    let mut map = TextMap::new();
    map.insert("a", 1);
    map.insert("b", 2);
    assert!(map.remove("a"));
    assert!(!map.remove("a"));
    assert_eq!(listed(&map), vec![("b".to_string(), 2)]);
}
