//! The error kinds the HTTP surface reports, and the status codes they map
//! to at the boundary.
use vstd::prelude::*;

verus! {

/// An error kind of the HTTP surface.
#[derive(Debug, Clone, PartialEq, Eq)]
pub enum ApiError {
    /// Malformed input: missing or conflicting query keys, a bad identifier.
    BadRequest,
    /// A missing, wrong or unknown token.
    Unauthorized,
    /// A missing resource, or an unattached session.
    NotFound,
    /// A body that does not decode as hex.
    NotAcceptable,
    /// Anything unexpected.
    Internal,
    /// An admin call while no admin token is configured.
    Locked,
}

pub type ApiResult<T> = Result<T, ApiError>;

impl ApiError {
    /// The HTTP status code this kind maps to.
    pub fn status_code(&self) -> (r: u16)
        ensures
            *self is BadRequest ==> r == 400,
            *self is Unauthorized ==> r == 401,
            *self is NotFound ==> r == 404,
            *self is NotAcceptable ==> r == 406,
            *self is Internal ==> r == 500,
            *self is Locked ==> r == 423,
    {
        match self {
            ApiError::BadRequest => 400,
            ApiError::Unauthorized => 401,
            ApiError::NotFound => 404,
            ApiError::NotAcceptable => 406,
            ApiError::Internal => 500,
            ApiError::Locked => 423,
        }
    }

    /// The response body this kind maps to.
    pub fn body_str(&self) -> (r: &'static str)
        ensures
            *self is BadRequest ==> r@ == "bad request"@,
            *self is Unauthorized ==> r@ == "unauthorized"@,
            *self is NotFound ==> r@ == "not found"@,
            *self is NotAcceptable ==> r@ == "not acceptable"@,
            *self is Internal ==> r@ == "internal server error"@,
            *self is Locked ==> r@ == "token doesnt defined"@,
    {
        match self {
            ApiError::BadRequest => "bad request",
            ApiError::Unauthorized => "unauthorized",
            ApiError::NotFound => "not found",
            ApiError::NotAcceptable => "not acceptable",
            ApiError::Internal => "internal server error",
            ApiError::Locked => "token doesnt defined",
        }
    }
}

/// Turns any failure into `Internal`; the boundary logs the cause.
pub fn internal_and_log(err: String) -> (r: ApiError)
    ensures
        r is Internal,
{
    let _ = err;
    ApiError::Internal
}

/// Keeps the given kind; the boundary logs the cause.
pub fn error_and_log(err: String, error_type: ApiError) -> (r: ApiError)
    ensures
        r == error_type,
{
    let _ = err;
    error_type
}

} // verus!
