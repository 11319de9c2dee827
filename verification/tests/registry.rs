use bromine::registry::{same_text, HandlerRegistry};

#[test]
fn namespaced_dispatch() {
    let mut registry = HandlerRegistry::new();
    registry.on(String::from("ping"), 0);
    registry.on_namespaced(String::from("my_ns"), String::from("ping"), 1);
    assert_eq!(registry.lookup(Some("my_ns"), "ping"), Some(1));
    assert_eq!(registry.lookup(None, "ping"), Some(0));
    assert_eq!(registry.len(), 2);
}

#[test]
fn namespace_is_consulted_alone() {
    let mut registry = HandlerRegistry::new();
    registry.on(String::from("ping"), 0);
    registry.on_namespaced(String::from("my_ns"), String::from("pong"), 1);
    assert_eq!(registry.lookup(Some("my_ns"), "ping"), None);
    assert_eq!(registry.lookup(Some("other"), "pong"), None);
    assert_eq!(registry.lookup(None, "pong"), None);
    assert_eq!(registry.lookup(None, "nope"), None);
}

#[test]
fn last_registration_counts() {
    let mut registry = HandlerRegistry::new();
    registry.on(String::from("ping"), 0);
    registry.on(String::from("ping"), 7);
    registry.on(String::from("other"), 8);
    assert_eq!(registry.lookup(None, "ping"), Some(7));
}

#[test]
fn empty_registry_knows_nothing() {
    let registry = HandlerRegistry::new();
    assert_eq!(registry.lookup(None, "ping"), None);
    assert_eq!(registry.len(), 0);
}

#[test]
fn texts_are_compared_by_their_characters() {
    assert!(same_text("ping", "ping"));
    assert!(same_text("", ""));
    assert!(!same_text("ping", "pong"));
    assert!(!same_text("ping", "pin"));
    assert!(!same_text("é", "e"));
}
