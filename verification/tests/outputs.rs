//! Tests of presentation decisions and the JSON serialization of results.

use namekit::domain::DomainResult;
use namekit::output::{grid_columns, render_result_json, result_color, ResultColor};

fn result(available: bool, premium: bool) -> DomainResult {
    DomainResult::new_with_premium("x.com".to_string(), available, premium)
}

#[test]
fn premium_renders_yellow() {
    assert_eq!(result_color(&result(true, true)), ResultColor::Yellow);
    assert_eq!(result_color(&result(false, true)), ResultColor::Yellow);
}

#[test]
fn available_renders_green_taken_red() {
    assert_eq!(result_color(&result(true, false)), ResultColor::Green);
    assert_eq!(result_color(&result(false, false)), ResultColor::Red);
}

#[test]
fn grid_width_rules() {
    assert_eq!(grid_columns(0), 1);
    assert_eq!(grid_columns(10), 1);
    assert_eq!(grid_columns(24), 1);
    assert_eq!(grid_columns(48), 2);
    assert_eq!(grid_columns(80), 3);
}

#[test]
fn result_serializes_exactly() {
    let r = DomainResult::new_with_premium("foo.com".to_string(), true, false);
    assert_eq!(
        render_result_json(&r),
        b"{\"name\":\"foo.com\",\"available\":true,\"premium\":false}".to_vec()
    );
}

#[test]
fn result_serialization_round_trips_through_a_parser() {
    let r = DomainResult::new_with_premium("we\"ird\\name".to_string(), false, true);
    let mine = render_result_json(&r);
    let parsed: serde_json::Value = serde_json::from_slice(&mine).unwrap();
    assert_eq!(parsed.get("name").and_then(|x| x.as_str()), Some("we\"ird\\name"));
    assert_eq!(parsed.get("available").and_then(|x| x.as_bool()), Some(false));
    assert_eq!(parsed.get("premium").and_then(|x| x.as_bool()), Some(true));
}

#[test]
fn domain_result_constructors() {
    let r = DomainResult::_new("a.dev".to_string(), true);
    assert_eq!(r.name, "a.dev");
    assert!(r.available);
    assert!(!r.premium);
}
