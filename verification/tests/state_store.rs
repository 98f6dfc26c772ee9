use proxy_core::state::SharedState;
use serde_json::Value;

#[test]
fn fresh_store_is_empty() {
    let s = SharedState::new();
    assert!(s.is_empty());
    assert!(s.get(&"anything".to_owned(), 7).is_none());
}

#[test]
fn set_then_get_roundtrip() {
    let mut s = SharedState::new();
    s.set("auth".to_owned(), 42, Value::String("token".to_owned()));
    assert!(!s.is_empty());
    assert_eq!(s.get(&"auth".to_owned(), 42), Some(&Value::String("token".to_owned())));
}

#[test]
fn keys_are_scoped_by_name_and_request_id() {
    let mut s = SharedState::new();
    s.set("auth".to_owned(), 1, Value::Bool(true));
    s.set("auth".to_owned(), 2, Value::Bool(false));
    s.set("trace".to_owned(), 1, Value::Null);
    assert_eq!(s.get(&"auth".to_owned(), 1), Some(&Value::Bool(true)));
    assert_eq!(s.get(&"auth".to_owned(), 2), Some(&Value::Bool(false)));
    assert_eq!(s.get(&"trace".to_owned(), 1), Some(&Value::Null));
    assert!(s.get(&"trace".to_owned(), 2).is_none());
}

#[test]
fn set_replaces_an_earlier_binding() {
    let mut s = SharedState::new();
    s.set("auth".to_owned(), 9, Value::from(1u64));
    s.set("auth".to_owned(), 9, Value::from(2u64));
    assert_eq!(s.get(&"auth".to_owned(), 9), Some(&Value::from(2u64)));
}

#[test]
fn clear_all_erases_every_scope_and_request() {
    let mut s = SharedState::new();
    s.set("auth".to_owned(), 1, Value::Null);
    s.set("trace".to_owned(), 2, Value::Null);
    s.clear_all();
    assert!(s.is_empty());
    assert!(s.get(&"auth".to_owned(), 1).is_none());
    assert!(s.get(&"trace".to_owned(), 2).is_none());
    s.clear_all();
    assert!(s.is_empty());
}
