use sessionizer::registry::Registry;

#[test]
fn fresh_registry_lists_nothing() {
    let r = Registry::new();
    let names = r.list();
    assert!(names.is_empty());
}

#[test]
fn create_then_list() {
    let mut r = Registry::new();
    let created = r.create(&"work".to_string());
    assert!(created);
    assert_eq!(r.list(), vec!["work".to_string()]);
}

#[test]
fn create_twice_leaves_one_marker() {
    let mut r = Registry::new();
    let first = r.create(&"work".to_string());
    let second = r.create(&"work".to_string());
    assert!(first);
    assert!(!second);
    let names = r.list();
    assert_eq!(names.iter().filter(|n| n.as_str() == "work").count(), 1);
    assert_eq!(names, vec!["work".to_string()]);
}

#[test]
fn list_keeps_enumeration_order() {
    let mut r = Registry::new();
    r.create(&"beta".to_string());
    r.create(&"alpha".to_string());
    r.create(&"gamma".to_string());
    assert_eq!(
        r.list(),
        vec!["beta".to_string(), "alpha".to_string(), "gamma".to_string()]
    );
}

#[test]
fn contains_follows_creates() {
    let mut r = Registry::new();
    assert!(!r.contains(&"work".to_string()));
    r.create(&"work".to_string());
    assert!(r.contains(&"work".to_string()));
    assert!(!r.contains(&"play".to_string()));
}
