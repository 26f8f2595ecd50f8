//! JSON text.
use vstd::prelude::*;

use crate::ids::hex_char;

verus! {

/// The form of one character inside a JSON string.
pub open spec fn json_escape(c: char) -> Seq<char> {
    if c == '"' {
        seq!['\\', '"']
    } else if c == '\\' {
        seq!['\\', '\\']
    } else if c == '\u{8}' {
        seq!['\\', 'b']
    } else if c == '\t' {
        seq!['\\', 't']
    } else if c == '\n' {
        seq!['\\', 'n']
    } else if c == '\u{c}' {
        seq!['\\', 'f']
    } else if c == '\r' {
        seq!['\\', 'r']
    } else if (c as u32) < 0x20 {
        seq!['\\', 'u', '0', '0', hex_char(c as nat / 16), hex_char(c as nat % 16)]
    } else {
        seq![c]
    }
}

/// A text as a JSON string, quotes included.
pub open spec fn json_quoted(text: Seq<char>) -> Seq<char> {
    seq!['"'] + text.map_values(|c: char| json_escape(c)).flatten() + seq!['"']
}

/// `serde_json::to_string` on a `str`.
///
/// Claims that it succeeds and yields the text between quotes, with quotes, backslashes and control
/// characters escaped and every other character as it is.
#[verifier::external_body]
pub(crate) fn json_string(text: &str) -> (json: Option<String>)
    ensures
        json matches Some(json) && json@ == json_quoted(text@),
{
    serde_json::to_string(text).ok()
}

} // verus!
