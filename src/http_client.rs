//! The transport that the client asks servers through.
use vstd::prelude::*;

use crate::text::decimal;
use crate::text::push_decimal;

verus! {

/// Why an HTTP GET request did not hand back data.
#[derive(Debug)]
#[non_exhaustive]
pub enum HttpClientError {
    /// The server answered with this status code, which is not a success.
    StatusCode(u16),
    /// The URL was not a well formed URL; why.
    InvalidUrl(String),
    /// The exchange could not be completed (no connection, a failed read, ...); why.
    Other(String),
}

/// A transport able to perform blocking HTTP GET requests, through which
/// debug information is downloaded from debuginfod servers.
pub trait HttpClient {
    /// What a successful request hands back, to read the data from.
    type Body;

    /// Performs a blocking HTTP GET request of `url`.
    fn get(&self, url: &str) -> Result<Self::Body, HttpClientError>;
}

/// The reason phrase that the HTTP standard gives a status code, if any.
pub uninterp spec fn canonical_reason(code: u16) -> Option<Seq<char>>;

/// Relies on http's `StatusCode::from_u16` and `StatusCode::canonical_reason`:
/// the standard reason phrase of a status code, if it has one.
#[verifier::external_body]
fn reason_phrase(code: u16) -> (r: Option<&'static str>)
    ensures
        match r {
            Some(t) => canonical_reason(code) == Some(t@),
            None => canonical_reason(code) is None,
        },
{
    match http::StatusCode::from_u16(code) {
        Ok(status) => status.canonical_reason(),
        Err(_) => None,
    }
}

/// How a failed answer with status `code` is described: the code, then its
/// reason phrase in parentheses where there is one.
pub open spec fn status_text(code: u16) -> Seq<char> {
    "request failed with HTTP status "@ + decimal(code as nat) + match canonical_reason(code) {
        Some(phrase) => " ("@ + phrase + ")"@,
        None => Seq::empty(),
    }
}

/// Describes a failed answer with status `code`.
pub fn describe_status(code: u16) -> (r: String)
    ensures
        r@ == status_text(code),
{
    let mut s = String::new();
    s.append("request failed with HTTP status ");
    push_decimal(&mut s, code);
    match reason_phrase(code) {
        Some(phrase) => {
            s.append(" (");
            s.append(phrase);
            s.append(")");
        },
        None => {},
    }
    s
}

impl HttpClientError {
    /// How this error reads to a person.
    pub open spec fn text(&self) -> Seq<char> {
        match self {
            HttpClientError::StatusCode(code) => status_text(*code),
            HttpClientError::InvalidUrl(why) => why@,
            HttpClientError::Other(why) => why@,
        }
    }

    /// Describes this error.
    pub fn describe(&self) -> (r: String)
        ensures
            r@ == self.text(),
    {
        match self {
            HttpClientError::StatusCode(code) => describe_status(*code),
            HttpClientError::InvalidUrl(why) => why.clone(),
            HttpClientError::Other(why) => why.clone(),
        }
    }
}

} // verus!
