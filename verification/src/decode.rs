//! Decoding one line of the response stream into a [`DomainResult`].
//!
//! A line is parsed as a generic JSON value.  The record schema is lenient:
//! a `domain` field of string type is required, while `available` and
//! `premium` are optional booleans that default to `false` when absent or of
//! the wrong type.  The JSON grammar itself is parsed by `serde_json`; what
//! that parser observes on a given line is named by the uninterpreted
//! functions below, and everything after the parse is verified.

use vstd::prelude::*;

use crate::domain::{DomainResult, DomainResultView};

verus! {

/// Whether `serde_json` accepts the line as a JSON document.
pub uninterp spec fn json_parses(s: Seq<char>) -> bool;

/// The `domain` field of the parsed document, when the document is an object
/// holding that field with a string value; `None` otherwise.
pub uninterp spec fn domain_field(s: Seq<char>) -> Option<Seq<char>>;

/// The `available` field of the parsed document, when the document is an
/// object holding that field with a boolean value; `None` otherwise.
pub uninterp spec fn available_field(s: Seq<char>) -> Option<bool>;

/// The `premium` field of the parsed document, when the document is an
/// object holding that field with a boolean value; `None` otherwise.
pub uninterp spec fn premium_field(s: Seq<char>) -> Option<bool>;

/// The text that a byte sequence denotes, decoded permissively: invalid
/// UTF-8 is replaced, never fatal.
pub uninterp spec fn lossy_decode(b: Seq<u8>) -> Seq<char>;

/// The raw outcome of reading the three known fields from one parsed line.
pub struct RawRecord {
    /// The `domain` field, when present with string type.
    pub domain: Option<String>,
    /// The `available` field, when present with boolean type.
    pub available: Option<bool>,
    /// The `premium` field, when present with boolean type.
    pub premium: Option<bool>,
}

/// Why one line could not be decoded; local to that line, never fatal to the
/// stream.
#[derive(Debug, Clone, PartialEq, Eq)]
pub enum DecodeError {
    /// The line is valid JSON but has no `domain` field of string type.
    MissingField,
    /// The line is not valid JSON; carries the parser's message.
    MalformedJson(String),
}

/// Relies on `serde_json::from_str::<serde_json::Value>` together with
/// `Value::get`, `Value::as_str` and `Value::as_bool`: the parse outcome and
/// the three fields read from the document are functions of the line alone,
/// which is what the uninterpreted field functions name.
#[verifier::external_body]
fn parse_record(line: &str) -> (r: Result<RawRecord, String>)
    ensures
        (r is Ok) == json_parses(line@),
        r matches Ok(rec) ==> {
            &&& rec.domain.deep_view() == domain_field(line@)
            &&& rec.available == available_field(line@)
            &&& rec.premium == premium_field(line@)
        },
{
    serde_json::from_str::<serde_json::Value>(line)
        .map(|v| RawRecord {
            domain: v.get("domain").and_then(|d| d.as_str()).map(|s| s.to_string()),
            available: v.get("available").and_then(|a| a.as_bool()),
            premium: v.get("premium").and_then(|p| p.as_bool()),
        })
        .map_err(|e| e.to_string())
}

/// Relies on `String::from_utf8_lossy`: the decoded text is a function of
/// the bytes alone.
#[verifier::external_body]
pub(crate) fn lossy_utf8(bytes: &[u8]) -> (r: String)
    ensures
        r@ == lossy_decode(bytes@),
{
    String::from_utf8_lossy(bytes).into_owned()
}

/// The lenient rule for the optional boolean fields: absent or non-boolean
/// means `false`.
pub open spec fn flag_or_default(f: Option<bool>) -> bool {
    match f {
        Some(b) => b,
        None => false,
    }
}

/// Whether a line decodes to a result: it parses as JSON and carries a
/// string `domain` field.
pub open spec fn line_decodes(s: Seq<char>) -> bool {
    json_parses(s) && domain_field(s) is Some
}

/// The result a decodable line decodes to.
pub open spec fn decoded(s: Seq<char>) -> DomainResultView {
    DomainResultView {
        name: domain_field(s).unwrap(),
        available: flag_or_default(available_field(s)),
        premium: flag_or_default(premium_field(s)),
    }
}

/// Everything [`decode_line`] promises of its result, as a predicate over
/// the line's text.
pub open spec fn decode_post(r: Result<DomainResult, DecodeError>, s: Seq<char>) -> bool {
    &&& (!json_parses(s) ==> (r matches Err(e) && e is MalformedJson))
    &&& (json_parses(s) && domain_field(s) is None ==> r == Err::<
        DomainResult,
        DecodeError,
    >(DecodeError::MissingField))
    &&& (line_decodes(s) ==> (r matches Ok(d) && d@ == decoded(s)))
}

/// Applies the lenient rule to one optional boolean field.
pub fn read_flag(f: Option<bool>) -> (r: bool)
    ensures
        r == flag_or_default(f),
{
    match f {
        Some(b) => b,
        None => false,
    }
}

/// Builds the result from the raw fields of one parsed line: the `domain`
/// field is required, the two flags default to `false`.
pub fn decode_fields(rec: RawRecord) -> (r: Result<DomainResult, DecodeError>)
    ensures
        rec.domain is None ==> r == Err::<DomainResult, DecodeError>(DecodeError::MissingField),
        rec.domain matches Some(n) ==> (r matches Ok(d) && d@ == (DomainResultView {
            name: n@,
            available: flag_or_default(rec.available),
            premium: flag_or_default(rec.premium),
        })),
{
    match rec.domain {
        None => Err(DecodeError::MissingField),
        Some(name) => {
            let available = read_flag(rec.available);
            let premium = read_flag(rec.premium);
            Ok(DomainResult { name, available, premium })
        },
    }
}

/// Decodes one line: pure and stateless, consulting nothing but the line.
pub fn decode_line(line: &str) -> (r: Result<DomainResult, DecodeError>)
    ensures
        decode_post(r, line@),
{
    match parse_record(line) {
        Err(msg) => Err(DecodeError::MalformedJson(msg)),
        Ok(rec) => decode_fields(rec),
    }
}

/// Law: decoding is deterministic, so decoding the same valid line twice
/// yields equal results — any two outcomes meeting the decode contract on
/// one decodable line are `Ok` of the same value.
pub proof fn lemma_decode_idempotent(
    r1: Result<DomainResult, DecodeError>,
    r2: Result<DomainResult, DecodeError>,
    s: Seq<char>,
)
    requires
        line_decodes(s),
        decode_post(r1, s),
        decode_post(r2, s),
    ensures
        r1 matches Ok(d1) && r2 matches Ok(d2) && d1@ == d2@,
{
}

/// Law: a line that parses as JSON but misses the `domain` field always
/// yields the missing-field failure.
pub proof fn lemma_missing_field(r: Result<DomainResult, DecodeError>, s: Seq<char>)
    requires
        json_parses(s),
        domain_field(s) is None,
        decode_post(r, s),
    ensures
        r == Err::<DomainResult, DecodeError>(DecodeError::MissingField),
{
}

/// Law: a decodable line with `available` and `premium` omitted decodes
/// with both flags defaulting to `false`.
pub proof fn lemma_omitted_flags_default(r: Result<DomainResult, DecodeError>, s: Seq<char>)
    requires
        line_decodes(s),
        available_field(s) is None,
        premium_field(s) is None,
        decode_post(r, s),
    ensures
        r matches Ok(d) && !d.available && !d.premium,
{
}

} // verus!
