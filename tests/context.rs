use rswarm::error::SwarmError;
use rswarm::ContextVariables;

#[test]
fn insert_replaces_and_extend_merges() {
    let mut c = ContextVariables::new();
    c.insert("a".to_string(), "1".to_string());
    c.insert("a".to_string(), "2".to_string());
    assert_eq!(c.len(), 1);
    assert_eq!(c.get("a").map(|s| s.as_str()), Some("2"));
    let mut d = ContextVariables::new();
    d.insert("a".to_string(), "3".to_string());
    d.insert("b".to_string(), "4".to_string());
    c.extend(&d);
    assert_eq!(c.len(), 2);
    assert_eq!(c.get("a").map(|s| s.as_str()), Some("3"));
    assert_eq!(c.get("b").map(|s| s.as_str()), Some("4"));
    assert!(c.contains_key("b"));
    assert!(!c.contains_key("z"));
    assert!(c.get("z").is_none());
}

#[test]
fn from_pairs_later_wins() {
    let c = ContextVariables::from_pairs(vec![
        ("k".to_string(), "x".to_string()),
        ("k".to_string(), "y".to_string()),
    ]);
    assert_eq!(c.len(), 1);
    assert_eq!(c.get("k").map(|s| s.as_str()), Some("y"));
}

#[test]
fn error_kinds() {
    assert!(SwarmError::NetworkError("x".to_string()).is_retriable());
    assert!(SwarmError::TimeoutError("x".to_string()).is_retriable());
    assert!(SwarmError::RateLimitError("x".to_string()).is_retriable());
    assert!(!SwarmError::ValidationError("x".to_string()).is_retriable());
    assert!(SwarmError::ConfigError("x".to_string()).is_configuration_error());
    assert!(SwarmError::AuthError("x".to_string()).is_configuration_error());
    assert!(SwarmError::EnvVarError("x".to_string()).is_configuration_error());
    assert!(!SwarmError::NetworkError("x".to_string()).is_configuration_error());
}
