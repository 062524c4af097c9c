use pgun::manager::ConnState;
use pgun::table::{NameSet, Table};

#[test]
fn table_holds_one_value_for_each_name() {
    let mut t: Table<ConnState> = Table::new();
    assert!(!t.contains_key("a"));
    assert!(t.get("a").is_none());
    t.insert("a".to_string(), ConnState::Connecting);
    t.insert("b".to_string(), ConnState::Disconnected);
    t.insert("a".to_string(), ConnState::Connected { local_port: 7 });
    assert_eq!(t.get("a"), Some(&ConnState::Connected { local_port: 7 }));
    assert_eq!(t.get("b"), Some(&ConnState::Disconnected));
    let mut names = t.names();
    names.sort();
    assert_eq!(names, vec!["a".to_string(), "b".to_string()]);
    assert_eq!(t.remove("a"), Some(ConnState::Connected { local_port: 7 }));
    assert_eq!(t.remove("a"), None);
    assert!(!t.contains_key("a"));
    assert!(t.contains_key("b"));
}

#[test]
fn name_set_holds_each_name_once() {
    let mut s = NameSet::new();
    s.insert("a".to_string());
    s.insert("a".to_string());
    s.insert("b".to_string());
    assert!(s.contains("a"));
    assert!(s.remove("a"));
    assert!(!s.remove("a"));
    assert!(!s.contains("a"));
    assert!(s.contains("b"));
}
