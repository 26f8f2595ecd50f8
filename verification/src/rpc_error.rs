//! Errors that the in-process host itself answers with.
use vstd::prelude::*;
use vstd::string::*;

verus! {

/// Class of a JSON-RPC error.
#[derive(Clone, Copy, Debug, Eq, PartialEq, Structural)]
pub enum RpcErrorCode {
    InvalidRequest,
    Overloaded,
    Internal,
}

/// A JSON-RPC error without data.
#[derive(Debug, Eq, PartialEq)]
pub struct RpcError {
    pub code: RpcErrorCode,
    pub message: String,
}

/// The value of an [`RpcError`].
pub struct RpcErrorView {
    pub code: RpcErrorCode,
    pub message: Seq<char>,
}

impl View for RpcError {
    type V = RpcErrorView;

    open spec fn view(&self) -> RpcErrorView {
        RpcErrorView { code: self.code, message: self.message@ }
    }
}

impl RpcError {
    /// An error of the given class.
    pub fn new(code: RpcErrorCode, message: &str) -> (error: Self)
        ensures
            error@ == (RpcErrorView { code, message: message@ }),
    {
        RpcError { code, message: message.to_owned() }
    }
}

} // verus!
