use wamp_core::is_valid_strict_uri;
use wamp_core::{ClientRole, ServerRole};

#[test]
fn uri_plain_dotted_name_is_valid() {
    assert!(is_valid_strict_uri("com.example.foo"));
}

#[test]
fn uri_reserved_prefix_is_invalid() {
    assert!(!is_valid_strict_uri("wamp.foo"));
}

#[test]
fn uri_empty_token_is_invalid() {
    assert!(!is_valid_strict_uri("com..foo"));
}

#[test]
fn uri_uppercase_is_invalid() {
    assert!(!is_valid_strict_uri("Com.Example"));
}

#[test]
fn uri_underscore_is_valid() {
    assert!(is_valid_strict_uri("com.ex_ample"));
}

#[test]
fn uri_digits_are_valid() {
    assert!(is_valid_strict_uri("com.example2.foo7"));
}

#[test]
fn uri_leading_dot_is_invalid() {
    assert!(!is_valid_strict_uri(".com.example"));
}

#[test]
fn uri_trailing_dot_is_invalid() {
    assert!(!is_valid_strict_uri("com.example."));
}

#[test]
fn uri_bare_wamp_without_dot_is_valid() {
    assert!(is_valid_strict_uri("wamp"));
}

#[test]
fn uri_space_is_invalid() {
    assert!(!is_valid_strict_uri("com.ex ample"));
}

#[test]
fn uri_empty_string_is_valid() {
    assert!(is_valid_strict_uri(""));
}

#[test]
fn client_role_names() {
    assert_eq!(ClientRole::Caller.to_string(), "caller");
    assert_eq!(ClientRole::Callee.to_string(), "callee");
    assert_eq!(ClientRole::Publisher.to_string(), "publisher");
    assert_eq!(ClientRole::Subscriber.to_string(), "subscriber");
}

#[test]
fn server_role_names() {
    assert_eq!(ServerRole::Router.to_string(), "router");
    assert_eq!(ServerRole::Broker.to_string(), "broker");
}
