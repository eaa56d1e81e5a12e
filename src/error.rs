//! The errors that the library reports.
use vstd::prelude::*;
use crate::results::QueryError;

verus! {

#[derive(Clone, Debug)]
pub enum PrestinoError {
    /// The server could not be reached; the transport's description.
    HttpError(String),
    /// A response other than 200 (or 503 on a continuation): its code and body.
    StatusCodeError(u16, String),
    /// A body that is not the expected JSON; the decoder's description.
    JsonParseError(String),
    /// The server reports an error in the statement.
    QueryError(QueryError),
    /// Cancellation of a statement that has already finished; its id.
    QueryFinishedError(String),
    /// A header name or value with a character that is not visible ASCII,
    /// or a malformed session header.
    HeaderParseError,
}

impl PrestinoError {
    pub fn from_status_code(code: u16, message: String) -> (r: Self)
        ensures
            r == PrestinoError::StatusCodeError(code, message),
    {
        PrestinoError::StatusCodeError(code, message)
    }

    /// Whether this is the server's "overloaded, try again" answer (status 503).
    pub fn is_overloaded(&self) -> (r: bool)
        ensures
            r == (self is StatusCodeError && self->StatusCodeError_0 == 503),
    {
        match self {
            PrestinoError::StatusCodeError(code, _) => *code == 503,
            _ => false,
        }
    }
}

} // verus!
