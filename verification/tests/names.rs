use walrus_runtime::name_map::{NameMap, NameSet};

#[test]
fn a_map_finds_what_was_put_under_a_name() {
    let mut map: NameMap<u32> = NameMap::new();
    map.insert("a".to_string(), 1);
    map.insert("b".to_string(), 2);
    map.insert("c".to_string(), 3);
    assert_eq!(map.len(), 3);
    assert_eq!(map.get("b"), Some(&2));
    assert_eq!(map.get("d"), None);
    map.insert("b".to_string(), 20);
    assert_eq!(map.len(), 3);
    assert_eq!(map.get("b"), Some(&20));
    assert!(map.contains("a"));
    assert!(!map.contains("z"));
}

#[test]
fn removing_from_a_map_leaves_the_others() {
    let mut map: NameMap<u32> = NameMap::new();
    map.insert("a".to_string(), 1);
    map.insert("b".to_string(), 2);
    map.insert("c".to_string(), 3);
    assert_eq!(map.remove("a"), Some(1));
    assert_eq!(map.remove("a"), None);
    assert_eq!(map.get("a"), None);
    assert_eq!(map.get("b"), Some(&2));
    assert_eq!(map.get("c"), Some(&3));
    assert_eq!(map.remove("c"), Some(3));
    assert_eq!(map.remove("b"), Some(2));
    assert_eq!(map.len(), 0);
}

#[test]
fn a_map_value_is_changed_in_place() {
    let mut map: NameMap<u32> = NameMap::new();
    map.insert("a".to_string(), 1);
    map.insert("b".to_string(), 2);
    let at = map.find("b").unwrap();
    *map.value_mut(at) = 7;
    assert_eq!(map.get("b"), Some(&7));
    assert_eq!(map.get("a"), Some(&1));
    assert_eq!(*map.value(at), 7);
}

#[test]
fn a_set_keeps_each_name_once_and_in_order() {
    let mut set = NameSet::new();
    set.insert_all(vec!["b".to_string(), "a".to_string(), "b".to_string()]);
    set.insert("a".to_string());
    set.insert("c".to_string());
    assert_eq!(set.len(), 3);
    assert_eq!(set.name(0), "b");
    assert_eq!(set.name(1), "a");
    assert_eq!(set.name(2), "c");
}
