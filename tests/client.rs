use chainpulse::client::{
    basic_auth_header, create_client, decimal_text, parse_event_attribute, AuthClient, AuthConfig,
    AuthMethod, ClientKind, SimpleAuthClient, V038Client,
};
use chainpulse::config::{CometVersion, ConfigError};

#[test]
fn client_selection() {
    let auth = AuthConfig { username: "u".to_string(), password: "p".to_string() };
    let k = create_client("wss://x/websocket", "0.38", Some(auth)).unwrap();
    assert!(matches!(&k, ClientKind::Auth(c) if c.auth_method == AuthMethod::Basic { username: "u".to_string(), password: "p".to_string() }));
    assert!(!k.supports_events());
    assert_eq!(create_client("wss://x", "0.34", None), Ok(ClientKind::Classic(CometVersion::V0_34)));
    assert_eq!(create_client("wss://x", "0.37", None), Ok(ClientKind::Classic(CometVersion::V0_37)));
    let m = create_client("wss://x", "0.38", None).unwrap();
    assert!(m.supports_events());
    assert!(matches!(m, ClientKind::Modern(c) if c.url == "wss://x" && c.request_id == 1));
    assert_eq!(create_client("wss://x", "1.0", None), Err(ConfigError::UnsupportedVersion("1.0".to_string())));
}

#[test]
fn request_ids_count_up() {
    let mut c = V038Client::new("wss://x".to_string());
    assert_eq!(c.next_request_id(), "chainpulse-v038-1");
    assert_eq!(c.next_request_id(), "chainpulse-v038-2");
    assert_eq!(decimal_text(0), "0");
    assert_eq!(decimal_text(1234567890), "1234567890");
    assert_eq!(decimal_text(u64::MAX), u64::MAX.to_string());
}

#[test]
fn basic_auth() {
    assert_eq!(basic_auth_header("user", "pass"), "Basic dXNlcjpwYXNz");
    let c = AuthClient::new("wss://x".to_string(), "0.34".to_string(), "a".to_string(), "b".to_string());
    assert_eq!(c.auth_method, AuthMethod::Basic { username: "a".to_string(), password: "b".to_string() });
    let s = SimpleAuthClient::new("wss://x".to_string(), AuthMethod::Anonymous);
    assert_eq!(s.auth_method, AuthMethod::Anonymous);
}

#[test]
fn event_attributes() {
    let a = parse_event_attribute(Some("packet_sequence"), Some("7"), false).unwrap();
    assert_eq!((a.key.as_str(), a.value.as_str()), ("packet_sequence", "7"));
    let b = parse_event_attribute(Some("a2V5"), Some("dmFsdWU="), true).unwrap();
    assert_eq!((b.key.as_str(), b.value.as_str()), ("key", "value"));
    assert_eq!(parse_event_attribute(Some("!!"), Some("dmFsdWU="), true), None);
    assert_eq!(parse_event_attribute(None, Some("v"), false), None);
}
