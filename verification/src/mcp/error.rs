//! Errors that tool calls answer with.

use vstd::prelude::*;

verus! {

/// Whose fault a failed tool call is.
#[derive(Clone, Copy, Debug, PartialEq, Eq, Structural)]
pub enum ErrorKind {
    /// The parameters are missing or malformed.
    InvalidParams,
    /// The request cannot be served as it stands.
    InvalidRequest,
    /// The server failed.
    Internal,
}

/// The answer to a failed tool call.
#[derive(Debug)]
pub struct ToolError {
    pub kind: ErrorKind,
    pub message: String,
}

impl View for ToolError {
    type V = (ErrorKind, Seq<char>);

    open spec fn view(&self) -> (ErrorKind, Seq<char>) {
        (self.kind, self.message@)
    }
}

/// The contents of an answer.
pub open spec fn answer<T>(r: Result<T, ToolError>) -> Result<T, (ErrorKind, Seq<char>)> {
    match r {
        Ok(x) => Ok(x),
        Err(e) => Err(e@),
    }
}

/// An error about the parameters.
pub fn invalid_params(message: String) -> (e: ToolError)
    ensures
        e@ == (ErrorKind::InvalidParams, message@),
{
    ToolError { kind: ErrorKind::InvalidParams, message }
}

/// An error about the request.
pub fn invalid_request(message: String) -> (e: ToolError)
    ensures
        e@ == (ErrorKind::InvalidRequest, message@),
{
    ToolError { kind: ErrorKind::InvalidRequest, message }
}

/// An error of the server.
pub fn internal_error(message: String) -> (e: ToolError)
    ensures
        e@ == (ErrorKind::Internal, message@),
{
    ToolError { kind: ErrorKind::Internal, message }
}

} // verus!
