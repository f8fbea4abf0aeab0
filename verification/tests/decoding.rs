//! Tests of the record decoder: the lenient schema, the failure taxonomy,
//! and determinism.

use namekit::decode::{decode_fields, decode_line, DecodeError, RawRecord};

#[test]
fn decodes_full_record() {
    let r = decode_line("{\"domain\":\"foo.com\",\"available\":true,\"premium\":true}").unwrap();
    assert_eq!(r.name, "foo.com");
    assert!(r.available);
    assert!(r.premium);
}

#[test]
fn decoding_is_idempotent() {
    let line = "{\"domain\":\"foo.com\",\"available\":true}";
    let first = decode_line(line).unwrap();
    let second = decode_line(line).unwrap();
    assert_eq!(first, second);
}

#[test]
fn missing_domain_is_missing_field() {
    assert_eq!(decode_line("{\"available\":true}"), Err(DecodeError::MissingField));
    assert_eq!(decode_line("{}"), Err(DecodeError::MissingField));
}

#[test]
fn non_string_domain_is_missing_field() {
    assert_eq!(decode_line("{\"domain\":5}"), Err(DecodeError::MissingField));
    assert_eq!(decode_line("{\"domain\":null}"), Err(DecodeError::MissingField));
}

#[test]
fn non_object_json_is_missing_field() {
    assert_eq!(decode_line("42"), Err(DecodeError::MissingField));
    assert_eq!(decode_line("[1,2]"), Err(DecodeError::MissingField));
}

#[test]
fn omitted_flags_default_to_false() {
    let r = decode_line("{\"domain\":\"bare.dev\"}").unwrap();
    assert_eq!(r.name, "bare.dev");
    assert!(!r.available);
    assert!(!r.premium);
}

#[test]
fn mistyped_flags_default_to_false() {
    let r = decode_line("{\"domain\":\"x.app\",\"available\":\"yes\",\"premium\":1}").unwrap();
    assert!(!r.available);
    assert!(!r.premium);
}

#[test]
fn malformed_json_carries_parser_message() {
    match decode_line("{\"domain\":") {
        Err(DecodeError::MalformedJson(msg)) => assert!(!msg.is_empty()),
        other => panic!("expected a malformed-JSON failure, got {:?}", other),
    }
}

#[test]
fn field_rules_from_raw_record() {
    let rec = RawRecord { domain: Some("a.com".to_string()), available: None, premium: Some(true) };
    let r = decode_fields(rec).unwrap();
    assert_eq!(r.name, "a.com");
    assert!(!r.available);
    assert!(r.premium);
    let rec = RawRecord { domain: None, available: Some(true), premium: Some(true) };
    assert_eq!(decode_fields(rec), Err(DecodeError::MissingField));
}
