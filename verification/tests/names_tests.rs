use greed_of_exile::names::{NameMap, NameSet};

#[test]
fn name_map_read_after_write() {
    let mut m: NameMap<u64> = NameMap::new();
    assert_eq!(m.len(), 0);
    m.insert(String::from("Chaos Orb"), 1);
    m.insert(String::from("Divine Orb"), 150);
    assert_eq!(m.get("Chaos Orb"), Some(&1));
    assert_eq!(m.get("Divine Orb"), Some(&150));
    assert_eq!(m.get("Exalted Orb"), None);
    assert_eq!(m.len(), 2);
}

#[test]
fn name_map_later_write_wins() {
    let mut m: NameMap<u64> = NameMap::new();
    m.insert(String::from("a"), 1);
    m.insert(String::from("b"), 2);
    m.insert(String::from("a"), 3);
    assert_eq!(m.get("a"), Some(&3));
    assert_eq!(m.get("b"), Some(&2));
    assert_eq!(m.len(), 2);
    let names: Vec<&str> = m.entries().iter().map(|(k, _)| k.as_str()).collect();
    assert_eq!(names, vec!["a", "b"]);
}

#[test]
fn name_map_insert_if_absent_keeps_first() {
    let mut m: NameMap<u64> = NameMap::new();
    m.insert_if_absent(String::from("Divine Orb"), 180);
    m.insert_if_absent(String::from("Divine Orb"), 100);
    assert_eq!(m.get("Divine Orb"), Some(&180));
}

#[test]
fn name_map_remove() {
    let mut m: NameMap<String> = NameMap::new();
    m.insert(String::from("x"), String::from("1"));
    m.insert(String::from("y"), String::from("2"));
    assert!(m.remove("x"));
    assert!(!m.remove("x"));
    assert!(!m.contains_key("x"));
    assert!(m.contains_key("y"));
    assert_eq!(m.len(), 1);
}

#[test]
fn name_set_insert_says_whether_new() {
    let mut s = NameSet::new();
    assert!(s.insert(String::from("icon")));
    assert!(!s.insert(String::from("icon")));
    assert!(s.contains("icon"));
    assert_eq!(s.len(), 1);
    assert!(s.remove("icon"));
    assert!(!s.remove("icon"));
    assert_eq!(s.len(), 0);
}

#[test]
fn name_set_lists_names_in_order() {
    let mut s = NameSet::new();
    s.insert(String::from("b"));
    s.insert(String::from("a"));
    s.insert(String::from("b"));
    assert_eq!(s.names(), vec![String::from("b"), String::from("a")]);
}
