//! The setup-code lookup: what a reply of the web service means.
use crate::text::{join2, join3};
use vstd::prelude::*;

verus! {

/// A valid setup code: where devices report to, and the site.
pub struct SetupCodeResponse {
    pub inform_url: String,
    pub site_id: String,
    pub site_name: String,
}

/// The body of a rejected setup code.
pub struct SetupCodeError {
    pub error: String,
    /// Whether the code existed but has expired.
    pub expired: bool,
}

/// Why a setup code could not be used.
#[derive(Debug)]
pub enum ApiError {
    InvalidCode(String),
    ExpiredCode(String),
    NetworkError(String),
    Other(String),
}

/// The kind of an `ApiError`.
#[derive(PartialEq, Eq, Structural, Clone, Copy, Debug)]
pub enum ApiErrorKind {
    InvalidCode,
    ExpiredCode,
    NetworkError,
    Other,
}

impl View for ApiError {
    type V = (ApiErrorKind, Seq<char>);

    open spec fn view(&self) -> (ApiErrorKind, Seq<char>) {
        match self {
            ApiError::InvalidCode(m) => (ApiErrorKind::InvalidCode, m@),
            ApiError::ExpiredCode(m) => (ApiErrorKind::ExpiredCode, m@),
            ApiError::NetworkError(m) => (ApiErrorKind::NetworkError, m@),
            ApiError::Other(m) => (ApiErrorKind::Other, m@),
        }
    }
}

impl ApiError {
    /// The text shown to the operator: the message alone.
    pub fn message(&self) -> (r: String)
        ensures
            r@ == self@.1,
    {
        match self {
            ApiError::InvalidCode(m) => m.clone(),
            ApiError::ExpiredCode(m) => m.clone(),
            ApiError::NetworkError(m) => m.clone(),
            ApiError::Other(m) => m.clone(),
        }
    }
}

/// How the service's reply status is read.
#[derive(PartialEq, Eq, Structural, Clone, Copy, Debug)]
pub enum ReplyClass {
    /// The body is a `SetupCodeResponse`.
    Accepted,
    /// The body is a `SetupCodeError`.
    Rejected,
    /// Neither: the request failed.
    Unexpected,
}

/// The class of an HTTP reply status.
pub open spec fn reply_class_spec(status: u16) -> ReplyClass {
    if 200 <= status <= 299 {
        ReplyClass::Accepted
    } else if status == 404 {
        ReplyClass::Rejected
    } else {
        ReplyClass::Unexpected
    }
}

/// Reads an HTTP reply status: success, unknown or expired code (404), or
/// anything else.
pub fn reply_class(status: u16) -> (r: ReplyClass)
    ensures
        r == reply_class_spec(status),
{
    if 200 <= status && status <= 299 {
        ReplyClass::Accepted
    } else if status == 404 {
        ReplyClass::Rejected
    } else {
        ReplyClass::Unexpected
    }
}

/// The error that a rejection body stands for: an expired code, or an
/// invalid one, with the service's message.
pub fn rejection(body: SetupCodeError) -> (e: ApiError)
    ensures
        e@ == (if body.expired {
            (ApiErrorKind::ExpiredCode, body.error@)
        } else {
            (ApiErrorKind::InvalidCode, body.error@)
        }),
{
    if body.expired {
        ApiError::ExpiredCode(body.error)
    } else {
        ApiError::InvalidCode(body.error)
    }
}

/// The error for a service that could not be reached.
pub fn unreachable_service() -> (e: ApiError)
    ensures
        e@ == (
            ApiErrorKind::NetworkError,
            "Can't connect to VivaSpot. Check your internet connection."@,
        ),
{
    ApiError::NetworkError("Can't connect to VivaSpot. Check your internet connection.".to_owned())
}

/// The error for a reply of an unexpected status, described by `status`.
pub fn unexpected_reply(status: &str) -> (e: ApiError)
    ensures
        e@ == (ApiErrorKind::Other, "Unexpected response: "@ + status@),
{
    ApiError::Other(join2("Unexpected response: ", status))
}

/// The lookup address of `code` at the service rooted at `base`.
pub fn setup_code_url(base: &str, code: &str) -> (r: String)
    ensures
        r@ == base@ + "/api/setup-code?code="@ + code@,
{
    join3(base, "/api/setup-code?code=", code)
}

} // verus!
