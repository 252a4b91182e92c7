//! The three-way response outcome of a request, and how it renders: a status
//! code and the response headers. Every per-request error is absorbed into
//! one of these variants; no detail ever reaches the caller.

use vstd::prelude::*;
use vstd::string::StringExecFns;

use crate::sender::SendError;

verus! {

/// The terminal outcome of a request.
pub enum AppResponse {
    /// The broker confirmed receipt: respond 202 and expose the correlation
    /// identifier.
    Accepted(String),
    /// The credential check failed: respond 401, nothing else.
    Unauthorized,
    /// Composition or forwarding failed: respond 500, nothing else.
    InternalServerError,
}

impl AppResponse {
    /// The HTTP status code of the outcome.
    pub fn status_code(&self) -> (code: u16)
        ensures
            code == match *self {
                AppResponse::Accepted(_) => 202u16,
                AppResponse::Unauthorized => 401u16,
                AppResponse::InternalServerError => 500u16,
            },
    {
        match self {
            AppResponse::Accepted(_) => 202,
            AppResponse::Unauthorized => 401,
            AppResponse::InternalServerError => 500,
        }
    }

    /// The response headers: the correlation header on acceptance, nothing
    /// on any failure.
    pub fn response_headers(&self) -> (h: Vec<(String, String)>)
        ensures
            match *self {
                AppResponse::Accepted(id) => h@.len() == 1 && h@[0].0@ == "x-request-id"@
                    && h@[0].1@ == id@,
                AppResponse::Unauthorized => h@.len() == 0,
                AppResponse::InternalServerError => h@.len() == 0,
            },
    {
        match self {
            AppResponse::Accepted(id) => {
                let mut h: Vec<(String, String)> = Vec::new();
                h.push((String::from_str("x-request-id"), String::from_str(id.as_str())));
                h
            },
            AppResponse::Unauthorized => Vec::new(),
            AppResponse::InternalServerError => Vec::new(),
        }
    }
}

/// Map the forwarding outcome to the terminal response: acceptance carries
/// the correlation identifier; any error becomes an opaque server failure.
pub fn respond(outcome: Result<String, SendError>) -> (r: AppResponse)
    ensures
        match outcome {
            Ok(id) => r == AppResponse::Accepted(id),
            Err(_) => r == AppResponse::InternalServerError,
        },
{
    match outcome {
        Ok(id) => AppResponse::Accepted(id),
        Err(_) => AppResponse::InternalServerError,
    }
}

} // verus!
