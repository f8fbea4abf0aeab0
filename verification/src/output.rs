//! Presentation decisions for decoded results: which mode renders, how a
//! result is highlighted, how wide the grid is, and the JSON serialization
//! of a result.  The terminal work itself happens outside the library.

use vstd::prelude::*;
use vstd::utf8::encode_utf8;

use crate::domain::{DomainResult, DomainResultView};
use crate::request::{json_escaped, push_bytes, push_escaped};

verus! {

/// How results are presented.
#[derive(Debug, Clone, Copy, PartialEq, Eq)]
pub enum OutputMode {
    /// One result per line.
    List,
    /// A fixed-column grid sized to the terminal.
    Grid,
    /// A JSON array.
    Json,
}

/// The highlight given to one rendered result.
#[derive(Debug, Clone, Copy, PartialEq, Eq)]
pub enum ResultColor {
    /// The result is available.
    Green,
    /// The result is premium.
    Yellow,
    /// The result is taken.
    Red,
}

/// Picks the highlight for one result: premium takes precedence, then
/// available, otherwise taken.
pub fn result_color(result: &DomainResult) -> (c: ResultColor)
    ensures
        result.premium ==> c is Yellow,
        !result.premium && result.available ==> c is Green,
        !result.premium && !result.available ==> c is Red,
{
    if result.premium {
        ResultColor::Yellow
    } else if result.available {
        ResultColor::Green
    } else {
        ResultColor::Red
    }
}

/// The number of grid columns on a terminal of the given width: one column
/// per 24 cells (20 for the name plus padding), and at least one.
pub fn grid_columns(width: u16) -> (n: usize)
    ensures
        n == if width as int / 24 >= 1 {
            width as int / 24
        } else {
            1
        },
{
    let cols: usize = (width as usize) / 24;
    if cols == 0 {
        1
    } else {
        cols
    }
}

/// The serialization of a boolean.
pub open spec fn bool_bytes(b: bool) -> Seq<u8> {
    if b {
        encode_utf8("true"@)
    } else {
        encode_utf8("false"@)
    }
}

/// The JSON object one result serializes to.
pub open spec fn result_json_model(v: DomainResultView) -> Seq<u8> {
    encode_utf8("{\"name\":\""@) + json_escaped(encode_utf8(v.name)) + encode_utf8(
        "\",\"available\":"@,
    ) + bool_bytes(v.available) + encode_utf8(",\"premium\":"@) + bool_bytes(v.premium)
        + encode_utf8("}"@)
}

/// Serializes one result as a JSON object.
pub fn render_result_json(result: &DomainResult) -> (r: Vec<u8>)
    ensures
        r@ == result_json_model(result@),
{
    let mut v: Vec<u8> = Vec::new();
    push_bytes(&mut v, "{\"name\":\"".as_bytes());
    push_escaped(&mut v, result.name.as_str().as_bytes());
    push_bytes(&mut v, "\",\"available\":".as_bytes());
    if result.available {
        push_bytes(&mut v, "true".as_bytes());
    } else {
        push_bytes(&mut v, "false".as_bytes());
    }
    push_bytes(&mut v, ",\"premium\":".as_bytes());
    if result.premium {
        push_bytes(&mut v, "true".as_bytes());
    } else {
        push_bytes(&mut v, "false".as_bytes());
    }
    push_bytes(&mut v, "}".as_bytes());
    proof {
        assert(v@ =~= result_json_model(result@));
    }
    v
}

} // verus!
