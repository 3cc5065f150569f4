use phi_save_codec::name_map::{less, same, NameMap};

#[test]
fn names_are_ordered_by_their_bytes() {
    assert!(less("a", "b"));
    assert!(!less("b", "a"));
    assert!(!less("a", "a"));
    assert!(less("", "a"));
    assert!(!less("", ""));
    assert!(less("a", "ab"));
    assert!(less("Z", "a"));
    assert!(less("ab", "b"));
    assert!(less("z", "é"));
    assert!(less("é", "音"));
    for (a, b) in [("x", "y"), ("AT", "EZ"), ("IN", "Legacy"), ("abc", "abd"), ("ab", "abc")] {
        assert_eq!(less(a, b), a < b);
        assert_eq!(less(b, a), b < a);
    }
    assert!(same("abc", "abc"));
    assert!(!same("abc", "abd"));
    assert!(!same("abc", "ab"));
    assert!(same("", ""));
}

#[test]
fn map_keeps_its_names_in_order_and_once() {
    let mut map: NameMap<u32> = NameMap::new();
    assert_eq!(map.len(), 0);
    assert_eq!(map.get("a"), None);
    map.insert("m".to_string(), 1);
    map.insert("a".to_string(), 2);
    map.insert("z".to_string(), 3);
    map.insert("mm".to_string(), 4);
    map.insert("a".to_string(), 5);
    assert_eq!(map.len(), 4);
    let entries: Vec<(&str, u32)> = (0..map.len()).map(|i| (map.name(i), *map.value(i))).collect();
    assert_eq!(entries, vec![("a", 5), ("m", 1), ("mm", 4), ("z", 3)]);
    assert_eq!(map.get("a"), Some(&5));
    assert_eq!(map.get("mm"), Some(&4));
    assert_eq!(map.get("z"), Some(&3));
    assert_eq!(map.get("b"), None);
}

#[test]
fn map_walks_as_a_sorted_map_of_the_standard_library_does() {
    let names = ["delta", "alpha", "charlie", "bravo", "alpha", "echo", "Bravo", ""];
    let mut ours: NameMap<usize> = NameMap::new();
    let mut theirs = std::collections::BTreeMap::new();
    for (i, name) in names.iter().enumerate() {
        ours.insert(name.to_string(), i);
        theirs.insert(name.to_string(), i);
    }
    let walked: Vec<(String, usize)> =
        (0..ours.len()).map(|i| (ours.name(i).to_string(), *ours.value(i))).collect();
    let expected: Vec<(String, usize)> = theirs.into_iter().collect();
    assert_eq!(walked, expected);
}
