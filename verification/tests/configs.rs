//! Tests of the configuration values and their defaults.

use namekit::config::{Config, ConfigError};

#[test]
fn default_configuration() {
    let c = Config::default();
    assert!(c.api_token.is_none());
    assert_eq!(c.api_server.as_deref(), Some("https://api.namekit.app"));
}

#[test]
fn api_server_falls_back_when_unset() {
    let c = Config { api_token: None, api_server: None };
    assert_eq!(c.get_api_server(), "https://api.namedrop.dev");
}

#[test]
fn api_server_returns_configured_value() {
    let c = Config { api_token: None, api_server: Some("http://localhost:1".to_string()) };
    assert_eq!(c.get_api_server(), "http://localhost:1");
}

#[test]
fn token_round_trip() {
    let mut c = Config { api_token: None, api_server: None };
    assert_eq!(c.get_token(), Err(ConfigError::TokenNotSet));
    c.set_token("secret".to_string()).unwrap();
    assert_eq!(c.get_token(), Ok("secret".to_string()));
}

#[test]
fn server_round_trip() {
    let mut c = Config::default();
    c.set_api_server("https://example.test".to_string()).unwrap();
    assert_eq!(c.get_api_server(), "https://example.test");
}
