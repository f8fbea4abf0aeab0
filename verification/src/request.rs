//! Assembly of the one HTTP request a search issues: the endpoint URL, the
//! authorization header, and the JSON request body.
//!
//! The body is built byte by byte against an exact model, including JSON
//! string escaping, so that what goes on the wire is fully specified.

use vstd::prelude::*;
use vstd::string::{StringExecFns, StringSliceAdditionalSpecFns};
use vstd::utf8::encode_utf8;

verus! {

/// How the search query is interpreted by the service.
#[derive(Debug, Clone, Copy, PartialEq, Eq)]
pub enum QueryMode {
    /// AI-powered suggestions from free search terms.
    Ai,
    /// One name checked against many TLDs.
    Tld,
}

impl QueryMode {
    /// The wire name of the mode.
    pub fn as_str(&self) -> (r: &str)
        ensures
            *self is Ai ==> r@ == "ai"@,
            *self is Tld ==> r@ == "tld"@,
    {
        match self {
            QueryMode::Ai => "ai",
            QueryMode::Tld => "tld",
        }
    }
}

/// The lowercase hex digit for a value below sixteen.
pub open spec fn hex_digit(n: u8) -> u8 {
    if n < 10 {
        (48 + n) as u8
    } else {
        (87 + n) as u8
    }
}

/// The JSON string escape of one byte of UTF-8 text: quote and backslash
/// take a backslash escape, control bytes the conventional short escapes or
/// a `\u00xx` escape, and every other byte stands unchanged (bytes of a
/// multi-byte character pass through).
pub open spec fn escaped_byte(x: u8) -> Seq<u8> {
    if x == 34 {
        seq![92u8, 34u8]
    } else if x == 92 {
        seq![92u8, 92u8]
    } else if x == 8 {
        seq![92u8, 98u8]
    } else if x == 9 {
        seq![92u8, 116u8]
    } else if x == 10 {
        seq![92u8, 110u8]
    } else if x == 12 {
        seq![92u8, 102u8]
    } else if x == 13 {
        seq![92u8, 114u8]
    } else if x < 32 {
        seq![92u8, 117u8, 48u8, 48u8, hex_digit(x / 16), hex_digit(x % 16)]
    } else {
        seq![x]
    }
}

/// The JSON string escape of a byte sequence.
pub open spec fn json_escaped(b: Seq<u8>) -> Seq<u8>
    decreases b.len(),
{
    if b.len() == 0 {
        Seq::empty()
    } else {
        json_escaped(b.drop_last()) + escaped_byte(b.last())
    }
}

/// The serialized request body for one search: the query, the mode, and
/// the fixed TLD set, as one JSON object.
pub open spec fn request_body_model(q: Seq<u8>, mode: Seq<u8>) -> Seq<u8> {
    encode_utf8("{\"q\":\""@) + json_escaped(q) + encode_utf8("\",\"mode\":\""@) + json_escaped(
        mode,
    ) + encode_utf8("\",\"tlds\":\"com,dev,app\"}"@)
}

/// Appends a byte slice to a byte vector.
pub(crate) fn push_bytes(v: &mut Vec<u8>, s: &[u8])
    ensures
        final(v)@ == old(v)@ + s@,
{
    let mut i: usize = 0;
    proof {
        assert(old(v)@ + s@.take(0) =~= old(v)@);
    }
    while i < s.len()
        invariant
            0 <= i <= s@.len(),
            v@ == old(v)@ + s@.take(i as int),
        decreases s@.len() - i,
    {
        v.push(s[i]);
        proof {
            assert(old(v)@ + s@.take(i + 1) =~= (old(v)@ + s@.take(i as int)).push(s@[i as int]));
        }
        i += 1;
    }
    proof {
        assert(s@.take(s@.len() as int) =~= s@);
    }
}

/// The lowercase hex digit for a value below sixteen.
fn to_hex_digit(n: u8) -> (r: u8)
    requires
        n < 16,
    ensures
        r == hex_digit(n),
{
    if n < 10 {
        48 + n
    } else {
        87 + n
    }
}

/// Appends the JSON string escape of a byte slice.
pub(crate) fn push_escaped(v: &mut Vec<u8>, s: &[u8])
    ensures
        final(v)@ == old(v)@ + json_escaped(s@),
{
    let mut i: usize = 0;
    proof {
        assert(old(v)@ + json_escaped(s@.take(0)) =~= old(v)@);
    }
    while i < s.len()
        invariant
            0 <= i <= s@.len(),
            v@ == old(v)@ + json_escaped(s@.take(i as int)),
        decreases s@.len() - i,
    {
        let ghost pre = v@;
        let b = s[i];
        proof {
            assert(s@.take(i + 1).drop_last() =~= s@.take(i as int));
            assert(s@.take(i + 1).last() == s@[i as int]);
        }
        if b == 34 {
            v.push(92);
            v.push(34);
        } else if b == 92 {
            v.push(92);
            v.push(92);
        } else if b == 8 {
            v.push(92);
            v.push(98);
        } else if b == 9 {
            v.push(92);
            v.push(116);
        } else if b == 10 {
            v.push(92);
            v.push(110);
        } else if b == 12 {
            v.push(92);
            v.push(102);
        } else if b == 13 {
            v.push(92);
            v.push(114);
        } else if b < 32 {
            v.push(92);
            v.push(117);
            v.push(48);
            v.push(48);
            v.push(to_hex_digit(b / 16));
            v.push(to_hex_digit(b % 16));
        } else {
            v.push(b);
        }
        proof {
            assert(v@ =~= pre + escaped_byte(s@[i as int]));
            assert(v@ =~= old(v)@ + json_escaped(s@.take(i + 1)));
        }
        i += 1;
    }
    proof {
        assert(s@.take(s@.len() as int) =~= s@);
    }
}

/// Builds the JSON request body carrying the query, the mode's wire name,
/// and the fixed TLD set.
pub fn request_body(query: &str, mode: &str) -> (r: Vec<u8>)
    ensures
        r@ == request_body_model(query.spec_bytes(), mode.spec_bytes()),
{
    let mut v: Vec<u8> = Vec::new();
    push_bytes(&mut v, "{\"q\":\"".as_bytes());
    push_escaped(&mut v, query.as_bytes());
    push_bytes(&mut v, "\",\"mode\":\"".as_bytes());
    push_escaped(&mut v, mode.as_bytes());
    push_bytes(&mut v, "\",\"tlds\":\"com,dev,app\"}".as_bytes());
    proof {
        assert(v@ =~= request_body_model(query.spec_bytes(), mode.spec_bytes()));
    }
    v
}

/// The full endpoint URL of the streaming search under the configured
/// server base.
pub fn endpoint_url(api_server: &str) -> (r: String)
    ensures
        r@ == api_server@ + "/domains/prompt"@,
{
    api_server.to_owned().concat("/domains/prompt")
}

/// The authorization header value presenting the bearer credential.
pub fn auth_header_value(token: &str) -> (r: String)
    ensures
        r@ == "Bearer "@ + token@,
{
    String::from_str("Bearer ").concat(token)
}

} // verus!
