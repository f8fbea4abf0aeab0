//! Tests of request assembly: endpoint, header, body, and escaping.

use namekit::request::{auth_header_value, endpoint_url, request_body, QueryMode};

#[test]
fn body_for_tld_search() {
    let body = request_body("foo", "tld");
    assert_eq!(body, b"{\"q\":\"foo\",\"mode\":\"tld\",\"tlds\":\"com,dev,app\"}".to_vec());
}

#[test]
fn body_for_ai_search() {
    let body = request_body("cozy coffee shop", "ai");
    assert_eq!(
        body,
        b"{\"q\":\"cozy coffee shop\",\"mode\":\"ai\",\"tlds\":\"com,dev,app\"}".to_vec()
    );
}

#[test]
fn body_escapes_query() {
    let body = request_body("a\"b\\c\nd\te\u{1}", "ai");
    assert_eq!(
        body,
        b"{\"q\":\"a\\\"b\\\\c\\nd\\te\\u0001\",\"mode\":\"ai\",\"tlds\":\"com,dev,app\"}".to_vec()
    );
}

#[test]
fn body_is_valid_json() {
    let body = request_body("quo\"te", "tld");
    let v: serde_json::Value = serde_json::from_slice(&body).unwrap();
    assert_eq!(v.get("q").and_then(|x| x.as_str()), Some("quo\"te"));
    assert_eq!(v.get("mode").and_then(|x| x.as_str()), Some("tld"));
    assert_eq!(v.get("tlds").and_then(|x| x.as_str()), Some("com,dev,app"));
}

#[test]
fn endpoint_under_server_base() {
    assert_eq!(endpoint_url("https://api.namedrop.dev"), "https://api.namedrop.dev/domains/prompt");
}

#[test]
fn bearer_header_value() {
    assert_eq!(auth_header_value("tok123"), "Bearer tok123");
}

#[test]
fn mode_wire_names() {
    assert_eq!(QueryMode::Ai.as_str(), "ai");
    assert_eq!(QueryMode::Tld.as_str(), "tld");
}
