//! The errors the web API answers with, and reading a device id from a path.

use vstd::prelude::*;

use crate::device::{uuid_parse, DeviceId};
use crate::text::{owned, push_str};

verus! {

/// An API failure and the status it is answered with.
#[derive(Clone, Debug, PartialEq, Eq)]
pub enum ApiError {
    /// 404, "device not found".
    NotFound,
    /// 400 with a message.
    BadRequest(String),
    /// 401 with a message.
    Unauthorized(String),
    /// 429 with a message.
    TooManyRequests(String),
    /// 500 with the underlying error's message.
    Internal(String),
}

/// The HTTP status code of each error.
pub open spec fn status_of(e: ApiError) -> u16 {
    match e {
        ApiError::NotFound => 404,
        ApiError::BadRequest(_) => 400,
        ApiError::Unauthorized(_) => 401,
        ApiError::TooManyRequests(_) => 429,
        ApiError::Internal(_) => 500,
    }
}

impl ApiError {
    /// The HTTP status code this error is answered with.
    pub fn status_code(&self) -> (c: u16)
        ensures
            c == status_of(*self),
    {
        match self {
            ApiError::NotFound => 404,
            ApiError::BadRequest(_) => 400,
            ApiError::Unauthorized(_) => 401,
            ApiError::TooManyRequests(_) => 429,
            ApiError::Internal(_) => 500,
        }
    }

    /// The response body of this error.
    pub fn message(&self) -> (m: String)
        ensures
            match self {
                ApiError::NotFound => m@ == "device not found"@,
                ApiError::BadRequest(s) => m@ == s@,
                ApiError::Unauthorized(s) => m@ == s@,
                ApiError::TooManyRequests(s) => m@ == s@,
                ApiError::Internal(s) => m@ == s@,
            },
    {
        match self {
            ApiError::NotFound => owned("device not found"),
            ApiError::BadRequest(s) => s.clone(),
            ApiError::Unauthorized(s) => s.clone(),
            ApiError::TooManyRequests(s) => s.clone(),
            ApiError::Internal(s) => s.clone(),
        }
    }
}

/// Reads a device id from a path segment; a bad id is a 400 naming it.
pub fn parse_device_id(raw: &str) -> (r: Result<DeviceId, ApiError>)
    ensures
        match uuid_parse(raw@) {
            Some(x) => r == Ok::<DeviceId, ApiError>(DeviceId(x)),
            None => r matches Err(ApiError::BadRequest(m)) && m@ == "invalid device id: "@ + raw@,
        },
{
    match DeviceId::parse(raw) {
        Some(id) => Ok(id),
        None => {
            let mut m = owned("invalid device id: ");
            push_str(&mut m, raw);
            Err(ApiError::BadRequest(m))
        },
    }
}

} // verus!
