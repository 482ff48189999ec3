//! Errors of the service and how each is reported to a caller.

use vstd::prelude::*;
use vstd::string::*;

verus! {

/// Failures of a request. Store failures keep their cause for operators;
/// callers only ever see a generic message for them.
#[derive(Debug, Clone)]
pub enum ApiError {
    Database(String),
    NotFound,
    BadRequest(String),
    InternalServerError,
    ValidationError(String),
    InvalidParameter(String),
}

/// HTTP status reported for an error.
pub open spec fn status_of(e: ApiError) -> u16 {
    match e {
        ApiError::Database(_) => 500,
        ApiError::NotFound => 404,
        ApiError::BadRequest(_) => 400,
        ApiError::InternalServerError => 500,
        ApiError::ValidationError(_) => 422,
        ApiError::InvalidParameter(_) => 400,
    }
}

/// Message reported for an error; store failures are not described.
pub open spec fn public_message_of(e: ApiError) -> Seq<char> {
    match e {
        ApiError::Database(_) => "Internal server error"@,
        ApiError::NotFound => "Not found"@,
        ApiError::BadRequest(m) => m@,
        ApiError::InternalServerError => "Internal server error"@,
        ApiError::ValidationError(m) => m@,
        ApiError::InvalidParameter(m) => m@,
    }
}

impl ApiError {
    /// HTTP status code of the response for this error.
    pub fn status_code(&self) -> (r: u16)
        ensures
            r == status_of(*self),
    {
        match self {
            ApiError::Database(_) => 500,
            ApiError::NotFound => 404,
            ApiError::BadRequest(_) => 400,
            ApiError::InternalServerError => 500,
            ApiError::ValidationError(_) => 422,
            ApiError::InvalidParameter(_) => 400,
        }
    }

    /// Text of the response's `error` field.
    pub fn public_message(&self) -> (r: String)
        ensures
            r@ == public_message_of(*self),
    {
        match self {
            ApiError::Database(_) => String::from_str("Internal server error"),
            ApiError::NotFound => String::from_str("Not found"),
            ApiError::BadRequest(m) => m.clone(),
            ApiError::InternalServerError => String::from_str("Internal server error"),
            ApiError::ValidationError(m) => m.clone(),
            ApiError::InvalidParameter(m) => m.clone(),
        }
    }
}

impl From<String> for ApiError {
    /// A plain message is a validation failure.
    fn from(msg: String) -> (r: Self) {
        ApiError::ValidationError(msg)
    }
}

impl vstd::std_specs::convert::FromSpecImpl<String> for ApiError {
    open spec fn obeys_from_spec() -> bool {
        true
    }

    open spec fn from_spec(msg: String) -> Self {
        ApiError::ValidationError(msg)
    }
}

} // verus!
