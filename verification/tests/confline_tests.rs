//! Tests of the configuration-line mini-language.

use findupdate::confline::{config_line, kv_key, kv_pair, kv_pairs, parse_check_update, take_type};

#[test]
fn test_take_type() {
    let (token, used) = take_type("test::1").unwrap();
    assert_eq!(token, "test");
    // exactly "::1" is left over
    assert_eq!(used, 4);
    // no separator, no token
    assert!(take_type("test").is_none());
}

#[test]
fn test_kv_key() {
    let (key, used) = kv_key("a_b123").unwrap();
    assert_eq!(key, "a_b123");
    // the whole input is consumed
    assert_eq!(used, 6);
}

#[test]
fn test_kv() {
    let ((key, value), used) = kv_pair("a=b;").unwrap();
    assert_eq!(key, "a");
    assert_eq!(value, "b");
    // exactly ";" is left over
    assert_eq!(used, 3);
}

#[test]
fn test_kv_pairs() {
    let (pairs, used) = kv_pairs("a=b;b=d;").unwrap();
    assert_eq!(
        pairs,
        vec![
            ("a".to_string(), "b".to_string()),
            ("b".to_string(), "d".to_string()),
        ]
    );
    // the whole input is consumed
    assert_eq!(used, 8);
}

#[test]
fn test_config_line() {
    let ((ty, pairs), _used) = config_line("anitya::id=1832;").unwrap();
    assert_eq!(ty, "anitya");
    assert_eq!(pairs, vec![("id".to_string(), "1832".to_string())]);
    // at least one pair is mandatory
    assert!(config_line("anitya::").is_none());
}

#[test]
fn test_parse_check_update() {
    let config = parse_check_update("github::repo=AOSC-Dev/ciel-rs;branch=master;").unwrap();
    assert_eq!(config.get("type"), Some("github".to_string()));
    assert_eq!(config.get("repo"), Some("AOSC-Dev/ciel-rs".to_string()));
    assert_eq!(config.get("branch"), Some("master".to_string()));
    assert_eq!(config.get("pattern"), None);
    // a later pair overrides an earlier one
    let config = parse_check_update("git::url=a;url=b;").unwrap();
    assert_eq!(config.get("url"), Some("b".to_string()));
    // a broken line is refused
    assert!(parse_check_update("no pairs here").is_err());
}
