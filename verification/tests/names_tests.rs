use session_actions::CustomNames;

#[test]
fn empty_store_has_no_names() {
    let store = CustomNames::new();
    assert_eq!(store.get("abc"), None);
    assert_eq!(store.get(""), None);
}

#[test]
fn default_store_is_empty() {
    let store = CustomNames::default();
    assert_eq!(store.get("abc"), None);
    assert!(store.entries().is_empty());
}

#[test]
fn set_then_get_returns_the_name() {
    let mut store = CustomNames::new();
    store.set("session-1".to_string(), "My project".to_string());
    assert_eq!(store.get("session-1"), Some(&"My project".to_string()));
    assert_eq!(store.get("session-2"), None);
}

#[test]
fn set_replaces_an_earlier_name() {
    let mut store = CustomNames::new();
    store.set("s".to_string(), "first".to_string());
    store.set("s".to_string(), "second".to_string());
    assert_eq!(store.get("s"), Some(&"second".to_string()));
    assert_eq!(store.entries().len(), 1);
}

#[test]
fn names_are_kept_per_session() {
    let mut store = CustomNames::new();
    store.set("a".to_string(), "one".to_string());
    store.set("b".to_string(), "two".to_string());
    assert_eq!(store.get("a"), Some(&"one".to_string()));
    assert_eq!(store.get("b"), Some(&"two".to_string()));
    assert_eq!(store.entries().len(), 2);
}

#[test]
fn entries_expose_the_stored_pairs() {
    let mut store = CustomNames::new();
    store.set("a".to_string(), "one".to_string());
    store.set("b".to_string(), "two".to_string());
    let entries = store.entries();
    assert!(entries.contains(&("a".to_string(), "one".to_string())));
    assert!(entries.contains(&("b".to_string(), "two".to_string())));
}
