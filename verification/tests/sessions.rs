//! Tests of the streaming session: status handling, chunk processing,
//! flushing, failure reporting, and cancellation.

use namekit::decode::DecodeError;
use namekit::session::{filter_result, StreamError, StreamSession};

#[test]
fn end_to_end_three_chunks() {
    let mut session = StreamSession::new();
    session.on_status(200).unwrap();
    let mut results = Vec::new();
    let mut errors = Vec::new();
    for chunk in [
        &b"{\"domain\":\"foo.com\",\"available\":true}\n{\"domain\":\"foo.n"[..],
        &b"et\",\"available\":fa"[..],
        &b"lse}\n"[..],
    ] {
        let out = session.on_chunk(chunk);
        results.extend(out.results);
        errors.extend(out.errors);
    }
    let out = session.finish();
    results.extend(out.results);
    errors.extend(out.errors);
    assert!(session.is_closed());
    assert!(errors.is_empty());
    assert_eq!(results.len(), 2);
    assert_eq!(results[0].name, "foo.com");
    assert!(results[0].available);
    assert_eq!(results[1].name, "foo.net");
    assert!(!results[1].available);
}

#[test]
fn non_success_status_fails_with_zero_results() {
    let mut session = StreamSession::new();
    let r = session.on_status(500);
    assert_eq!(r, Err(StreamError::RequestFailed(500)));
    assert!(session.is_closed());
    assert!(!session.is_streaming());
}

#[test]
fn redirect_status_is_not_success() {
    let mut session = StreamSession::new();
    assert_eq!(session.on_status(301), Err(StreamError::RequestFailed(301)));
    let mut session = StreamSession::new();
    assert_eq!(session.on_status(204), Ok(()));
    assert!(session.is_streaming());
}

#[test]
fn bad_record_is_reported_and_skipped() {
    let mut session = StreamSession::new();
    session.on_status(200).unwrap();
    let out = session.on_chunk(
        b"{\"domain\":\"a.com\"}\nnot json\n{\"available\":true}\n{\"domain\":\"b.com\"}\n",
    );
    assert_eq!(out.results.len(), 2);
    assert_eq!(out.results[0].name, "a.com");
    assert_eq!(out.results[1].name, "b.com");
    assert_eq!(out.errors.len(), 2);
    assert!(matches!(out.errors[0], DecodeError::MalformedJson(_)));
    assert_eq!(out.errors[1], DecodeError::MissingField);
}

#[test]
fn blank_lines_are_skipped_silently() {
    let mut session = StreamSession::new();
    session.on_status(200).unwrap();
    let out = session.on_chunk(b"\n   \n{\"domain\":\"a.com\"}\n\t\n");
    assert_eq!(out.results.len(), 1);
    assert!(out.errors.is_empty());
}

#[test]
fn finish_decodes_unterminated_trailing_record() {
    let mut session = StreamSession::new();
    session.on_status(200).unwrap();
    let out = session.on_chunk(b"{\"domain\":\"head.com\"}\n{\"domain\":\"tail.com\"}");
    assert_eq!(out.results.len(), 1);
    let out = session.finish();
    assert_eq!(out.results.len(), 1);
    assert_eq!(out.results[0].name, "tail.com");
    assert!(session.is_closed());
}

#[test]
fn transport_error_closes_without_flush() {
    let mut session = StreamSession::new();
    session.on_status(200).unwrap();
    let out = session.on_chunk(b"{\"domain\":\"kept.com\"}\n{\"domain\":\"trunca");
    assert_eq!(out.results.len(), 1);
    let e = session.on_transport_error();
    assert_eq!(e, StreamError::Transport);
    assert!(session.is_closed());
}

#[test]
fn cancellation_closes_promptly() {
    let mut session = StreamSession::new();
    session.on_status(200).unwrap();
    let out = session.on_chunk(b"{\"domain\":\"one.com\"}\n");
    assert_eq!(out.results.len(), 1);
    session.on_cancelled();
    assert!(session.is_closed());
    assert!(!session.is_streaming());
}

#[test]
fn invalid_utf8_is_replaced_never_fatal() {
    let mut session = StreamSession::new();
    session.on_status(200).unwrap();
    let out = session.on_chunk(b"{\"domain\":\"a\xFFb.com\"}\n");
    assert_eq!(out.results.len(), 1);
    assert_eq!(out.results[0].name, "a\u{FFFD}b.com");
}

#[test]
fn multi_byte_character_split_across_chunks() {
    let mut session = StreamSession::new();
    session.on_status(200).unwrap();
    let mut results = Vec::new();
    results.extend(session.on_chunk(b"{\"domain\":\"caf\xC3").results);
    results.extend(session.on_chunk(b"\xA9.com\"}\n").results);
    assert_eq!(results.len(), 1);
    assert_eq!(results[0].name, "caf\u{E9}.com");
}

#[test]
fn filter_truth_table() {
    let case = |available: bool, premium: bool| namekit::domain::DomainResult::new_with_premium(
        "d".to_string(),
        available,
        premium,
    );
    assert!(filter_result(&case(true, false), false, false));
    assert!(!filter_result(&case(false, false), false, false));
    assert!(filter_result(&case(false, false), true, false));
    assert!(!filter_result(&case(true, true), false, true));
    assert!(filter_result(&case(true, true), false, false));
}
