use serde_json::Value;
use viontin_gems::json::{same_text, list_contains, PropMap};

fn s(x: &str) -> Value {
    Value::from(x.to_string())
}

#[test]
fn prop_map_insert_get_remove() {
    let mut m = PropMap::new();
    assert_eq!(m.len(), 0);
    m.insert("a".to_string(), s("1"));
    m.insert("b".to_string(), s("2"));
    m.insert("a".to_string(), s("3"));
    assert_eq!(m.len(), 2);
    assert_eq!(m.get("a"), Some(&s("3")));
    assert!(m.contains_key("b"));
    assert_eq!(m.remove("b"), Some(s("2")));
    assert!(!m.contains_key("b"));
    assert_eq!(m.remove("b"), None);
    assert_eq!(m.get("zz"), None);
}

#[test]
fn prop_map_extend_prefers_the_added_values() {
    let mut a = PropMap::new();
    a.insert("x".to_string(), s("old"));
    a.insert("y".to_string(), s("keep"));
    let mut b = PropMap::new();
    b.insert("x".to_string(), s("new"));
    b.insert("z".to_string(), s("added"));
    a.extend(b);
    assert_eq!(a.len(), 3);
    assert_eq!(a.get("x"), Some(&s("new")));
    assert_eq!(a.get("y"), Some(&s("keep")));
    assert_eq!(a.get("z"), Some(&s("added")));
}

#[test]
fn prop_map_restriction_and_json() {
    let mut a = PropMap::new();
    a.insert("x".to_string(), s("1"));
    a.insert("y".to_string(), s("2"));
    let keep = vec!["y".to_string(), "w".to_string()];
    let r = a.restricted_to(&keep);
    assert_eq!(r.len(), 1);
    assert_eq!(r.get("y"), Some(&s("2")));
    let v = r.into_json();
    assert_eq!(v.to_string(), "{\"y\":\"2\"}");
    let back = PropMap::from_json(v).ok().unwrap();
    assert_eq!(back.get("y"), Some(&s("2")));
    assert!(PropMap::from_json(s("text")).is_err());
    let dup = a.duplicate();
    assert_eq!(dup.len(), 2);
}

#[test]
fn text_helpers() {
    assert!(same_text("abc", "abc"));
    assert!(!same_text("abc", "abd"));
    let keys = vec!["a".to_string(), "b".to_string()];
    assert!(list_contains(&keys, "b"));
    assert!(!list_contains(&keys, "c"));
}
