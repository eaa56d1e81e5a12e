//! Requests that the library asks its caller to send, and what it makes of
//! the status and headers that come back.
use vstd::prelude::*;
use crate::error::PrestinoError;
use crate::headers::{response_update, HeadersModel, Headers};

verus! {

#[derive(Clone, Copy, Debug, PartialEq, Eq, Structural)]
pub enum Method {
    Post,
    Get,
    Delete,
}

/// One HTTP request: method, absolute URI, header pairs and optional body.
#[derive(Clone, Debug)]
pub struct Request {
    pub method: Method,
    pub uri: String,
    pub headers: Vec<(String, String)>,
    pub body: Option<String>,
}

pub open spec fn header_pairs_view(s: Seq<(String, String)>) -> Seq<(Seq<char>, Seq<char>)> {
    s.map_values(|p: (String, String)| (p.0@, p.1@))
}

/// The headers after applying the response headers `hs` in order; `None` at
/// the first one that is refused.
pub open spec fn apply_response_headers(m: HeadersModel, hs: Seq<(Seq<char>, Seq<char>)>) -> Option<
    HeadersModel,
>
    decreases hs.len(),
{
    if hs.len() == 0 {
        Some(m)
    } else {
        match response_update(m, hs[0].0, hs[0].1) {
            None => None,
            Some(m2) => apply_response_headers(m2, hs.drop_first()),
        }
    }
}

/// The status code of a successful response.
pub const STATUS_OK: u16 = 200;

/// Check one response: a status other than 200 is an error that carries the
/// status and the body text; otherwise `headers` take in each response header
/// in order, and the body is handed back for decoding. A refused response
/// header is an error; the headers before it have been applied.
pub fn parse_response(
    headers: &mut Headers,
    status: u16,
    response_headers: &Vec<(String, String)>,
    body: String,
) -> (r: Result<String, PrestinoError>)
    requires
        old(headers).wf(),
    ensures
        final(headers).wf(),
        status != STATUS_OK ==> r == Err::<String, PrestinoError>(
            PrestinoError::StatusCodeError(status, body),
        ) && final(headers)@ == old(headers)@,
        status == STATUS_OK ==> match apply_response_headers(
            old(headers)@,
            header_pairs_view(response_headers@),
        ) {
            Some(m) => r == Ok::<String, PrestinoError>(body) && final(headers)@ == m,
            None => r == Err::<String, PrestinoError>(PrestinoError::HeaderParseError),
        },
{
    if status != STATUS_OK {
        return Err(PrestinoError::from_status_code(status, body));
    }
    match headers.update_from_response_headers(response_headers) {
        Err(e) => Err(e),
        Ok(()) => Ok(body),
    }
}

} // verus!
