//! Identifiers of requests in flight.
use vstd::prelude::*;
use vstd::string::*;

use crate::text::{same_text, signed_decimal, signed_decimal_string};

verus! {

/// Identifier of a request, unique among the requests in flight.
#[derive(Debug, Eq, PartialEq)]
pub enum RequestId {
    Integer(i64),
    Text(String),
}

/// The value of a [`RequestId`].
pub enum RequestIdView {
    Integer(i64),
    Text(Seq<char>),
}

impl View for RequestId {
    type V = RequestIdView;

    open spec fn view(&self) -> RequestIdView {
        match self {
            RequestId::Integer(n) => RequestIdView::Integer(*n),
            RequestId::Text(text) => RequestIdView::Text(text@),
        }
    }
}

impl Clone for RequestId {
    fn clone(&self) -> (copy: Self)
        ensures
            copy == *self,
    {
        match self {
            RequestId::Integer(n) => RequestId::Integer(*n),
            RequestId::Text(text) => RequestId::Text(text.clone()),
        }
    }
}

/// The quoted and escaped form in which the standard library prints a string for debugging.
pub uninterp spec fn debug_quoted(text: Seq<char>) -> Seq<char>;

/// `format!` with the `{:?}` form of `str`.
///
/// Claims that the printed form depends on the characters alone; which characters are escaped is
/// left to the standard library.
#[verifier::external_body]
fn debug_str(text: &str) -> (printed: String)
    ensures
        printed@ == debug_quoted(text@),
{
    format!("{:?}", text)
}

impl RequestIdView {
    /// The printed form of the identifier in error messages.
    pub open spec fn debug_text(self) -> Seq<char> {
        match self {
            RequestIdView::Integer(n) => "Integer("@ + signed_decimal(n as int) + ")"@,
            RequestIdView::Text(text) => "String("@ + debug_quoted(text) + ")"@,
        }
    }
}

impl RequestId {
    /// Whether two identifiers are the same.
    pub fn same(&self, other: &RequestId) -> (same: bool)
        ensures
            same == (self@ == other@),
    {
        match (self, other) {
            (RequestId::Integer(a), RequestId::Integer(b)) => *a == *b,
            (RequestId::Text(a), RequestId::Text(b)) => same_text(a.as_str(), b.as_str()),
            _ => false,
        }
    }

    /// The printed form of the identifier in error messages.
    pub fn debug_text(&self) -> (text: String)
        ensures
            text@ == self@.debug_text(),
    {
        match self {
            RequestId::Integer(n) => "Integer(".to_owned().concat(
                signed_decimal_string(*n).as_str(),
            ).concat(")"),
            RequestId::Text(text) => "String(".to_owned().concat(
                debug_str(text.as_str()).as_str(),
            ).concat(")"),
        }
    }
}

/// The printed form tells the kind of an identifier and its value: integers in decimal, texts in their
/// quoted form.
pub proof fn lemma_identifiers_are_printed_whole(n: i64, text: Seq<char>)
    ensures
        RequestIdView::Integer(n).debug_text() == "Integer("@ + signed_decimal(n as int) + ")"@,
        RequestIdView::Text(text).debug_text() == "String("@ + debug_quoted(text) + ")"@,
{
}

/// Two identifiers are the same only if they are of the same kind and hold the same: an integer and a text
/// never are.
pub proof fn lemma_identifiers_of_two_kinds_differ(first: RequestId, second: RequestId)
    ensures
        first@ == second@ <==> match (first, second) {
            (RequestId::Integer(a), RequestId::Integer(b)) => a == b,
            (RequestId::Text(a), RequestId::Text(b)) => a@ == b@,
            _ => false,
        },
{
}

} // verus!
