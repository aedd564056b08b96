use file_watcher::collections::{PathRelation, PathSet, StringMap};

#[test]
fn path_set_holds_each_path_once() {
    let mut set = PathSet::new();
    assert!(set.is_empty());
    assert!(set.insert("a".to_string()));
    assert!(set.insert("b".to_string()));
    assert!(!set.insert("a".to_string()));
    assert_eq!(set.len(), 2);
    assert!(set.contains("a"));
    assert!(set.contains("b"));
    assert!(!set.contains("c"));
    assert!(!set.contains(""));
    assert_eq!(set.items(), &vec!["a".to_string(), "b".to_string()]);
    assert!(!set.is_empty());
}

#[test]
fn path_set_extend_is_union() {
    let mut left = PathSet::new();
    left.insert("a".to_string());
    left.insert("b".to_string());
    let mut right = PathSet::new();
    right.insert("b".to_string());
    right.insert("c".to_string());
    left.extend(&right);
    assert_eq!(left.items(), &vec!["a".to_string(), "b".to_string(), "c".to_string()]);
    assert_eq!(right.len(), 2);
    left.extend(&PathSet::new());
    assert_eq!(left.len(), 3);
}

#[test]
fn string_map_insert_replaces() {
    let mut map: StringMap<u32> = StringMap::new();
    assert_eq!(map.len(), 0);
    assert_eq!(map.get("a"), None);
    map.insert("a".to_string(), 1);
    map.insert("b".to_string(), 2);
    map.insert("a".to_string(), 3);
    assert_eq!(map.len(), 2);
    assert_eq!(map.get("a"), Some(&3));
    assert_eq!(map.get("b"), Some(&2));
    assert_eq!(map.get("c"), None);
    assert!(map.contains_key("a"));
    assert!(!map.contains_key("c"));
    assert_eq!(map.key_at(0), "a");
    assert_eq!(map.key_at(1), "b");
    assert_eq!(map.value_at(0), &3);
    assert_eq!(map.value_at(1), &2);
}

#[test]
fn relation_gathers_members_under_keys() {
    let mut relation = PathRelation::new();
    assert!(relation.get("k").is_none());
    relation.add("k".to_string(), "x".to_string());
    relation.add("k".to_string(), "y".to_string());
    relation.add("k".to_string(), "x".to_string());
    relation.add("j".to_string(), "x".to_string());
    assert_eq!(relation.get("k").unwrap().items(), &vec!["x".to_string(), "y".to_string()]);
    assert_eq!(relation.get("j").unwrap().items(), &vec!["x".to_string()]);
    assert!(relation.get("x").is_none());
}
