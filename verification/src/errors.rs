//! The error answer that the library's decisions produce for an HTTP client.
use vstd::prelude::*;

verus! {

/// An HTTP error answer: the status code and the message body.
#[derive(Debug, PartialEq, Eq)]
pub struct ApiError {
    pub status: u16,
    pub message: String,
}

/// 400 Bad Request.
pub const BAD_REQUEST: u16 = 400;

/// 401 Unauthorized.
pub const UNAUTHORIZED: u16 = 401;

/// 403 Forbidden.
pub const FORBIDDEN: u16 = 403;

/// 404 Not Found.
pub const NOT_FOUND: u16 = 404;

/// 409 Conflict.
pub const CONFLICT: u16 = 409;

/// 413 Payload Too Large.
pub const PAYLOAD_TOO_LARGE: u16 = 413;

/// 422 Unprocessable Entity.
pub const UNPROCESSABLE_ENTITY: u16 = 422;

/// 500 Internal Server Error.
pub const INTERNAL_SERVER_ERROR: u16 = 500;

/// An error answer with the given status and message.
pub fn api_error(status: u16, message: String) -> (e: ApiError)
    ensures
        e.status == status,
        e.message@ == message@,
{
    ApiError { status, message }
}

} // verus!
