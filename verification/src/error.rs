//! Unified error type for all API routes.
//!
//! An error is rendered as an HTTP status, a machine-readable `code` tag and a
//! human message; internal details never reach the client.

use vstd::prelude::*;
use crate::text::{chars_of, extend_str, string_from_str, string_of};

verus! {

/// Application-level error that converts to a JSON HTTP response.
#[derive(Debug)]
pub enum AppError {
    /// 404 — resource not found.
    NotFound(String),
    /// 401 — authentication required or invalid credentials.
    Unauthorized(String),
    /// 403 — authenticated but insufficient permissions.
    Forbidden(String),
    /// 400 — malformed request, validation failure.
    BadRequest(String),
    /// 409 — resource already exists or conflicting state.
    Conflict(String),
    /// 422 — semantically invalid (path doesn't exist, etc).
    UnprocessableEntity(String),
    /// 429 — rate limit or account lockout; inner value = Retry-After seconds.
    TooManyRequests(u64),
    /// 500 — unexpected internal failure.
    Internal(String),
}

/// The HTTP status of an error.
pub open spec fn status_of(e: AppError) -> u16 {
    match e {
        AppError::NotFound(_) => 404,
        AppError::Unauthorized(_) => 401,
        AppError::Forbidden(_) => 403,
        AppError::BadRequest(_) => 400,
        AppError::Conflict(_) => 409,
        AppError::UnprocessableEntity(_) => 422,
        AppError::TooManyRequests(_) => 429,
        AppError::Internal(_) => 500,
    }
}

/// The machine-readable `code` tag of an error.
pub open spec fn code_of(e: AppError) -> Seq<char> {
    match e {
        AppError::NotFound(_) => "not_found"@,
        AppError::Unauthorized(_) => "unauthorized"@,
        AppError::Forbidden(_) => "forbidden"@,
        AppError::BadRequest(_) => "bad_request"@,
        AppError::Conflict(_) => "conflict"@,
        AppError::UnprocessableEntity(_) => "unprocessable_entity"@,
        AppError::TooManyRequests(_) => "too_many_requests"@,
        AppError::Internal(_) => "internal_error"@,
    }
}

/// The message shown to the client: the carried text for client errors, a
/// fixed text for rate limiting and for internal failures (whose details are
/// only logged).
pub open spec fn message_of(e: AppError) -> Seq<char> {
    match e {
        AppError::NotFound(m) => m@,
        AppError::Unauthorized(m) => m@,
        AppError::Forbidden(m) => m@,
        AppError::BadRequest(m) => m@,
        AppError::Conflict(m) => m@,
        AppError::UnprocessableEntity(m) => m@,
        AppError::TooManyRequests(_) => "Too many requests. Please try again later."@,
        AppError::Internal(_) => "An internal error occurred"@,
    }
}

/// What the HTTP layer sends for an error: status, body fields and headers.
pub struct ErrorResponse {
    /// HTTP status code.
    pub status: u16,
    /// Machine-readable `code` field of the JSON body.
    pub code: String,
    /// Human message (`error` field of the JSON body).
    pub message: String,
    /// `Retry-After` seconds (header and `retry_after` body field), for 429.
    pub retry_after: Option<u64>,
    /// Text to log server-side (the hidden detail of an internal error).
    pub log_detail: Option<String>,
}

impl AppError {
    /// Shortcut for not-found with a generic message: `"{resource} not found"`.
    pub fn not_found(resource: &str) -> (e: Self)
        ensures
            e matches AppError::NotFound(m) && m@ == resource@ + " not found"@,
    {
        let mut v = chars_of(resource);
        extend_str(&mut v, " not found");
        AppError::NotFound(string_of(&v))
    }

    /// Shortcut for an internal error carrying `source` as its text.
    pub fn internal(source: &str) -> (e: Self)
        ensures
            e matches AppError::Internal(m) && m@ == source@,
    {
        AppError::Internal(string_from_str(source))
    }

    /// The response an error turns into.
    pub fn to_response(&self) -> (r: ErrorResponse)
        ensures
            r.status == status_of(*self),
            r.code@ == code_of(*self),
            r.message@ == message_of(*self),
            r.retry_after == (match *self {
                AppError::TooManyRequests(secs) => Some(secs),
                _ => None,
            }),
            match *self {
                AppError::Internal(m) => r.log_detail matches Some(d) && d@ == m@,
                _ => r.log_detail is None,
            },
    {
        match self {
            AppError::NotFound(m) => ErrorResponse {
                status: 404,
                code: string_from_str("not_found"),
                message: m.clone(),
                retry_after: None,
                log_detail: None,
            },
            AppError::Unauthorized(m) => ErrorResponse {
                status: 401,
                code: string_from_str("unauthorized"),
                message: m.clone(),
                retry_after: None,
                log_detail: None,
            },
            AppError::Forbidden(m) => ErrorResponse {
                status: 403,
                code: string_from_str("forbidden"),
                message: m.clone(),
                retry_after: None,
                log_detail: None,
            },
            AppError::BadRequest(m) => ErrorResponse {
                status: 400,
                code: string_from_str("bad_request"),
                message: m.clone(),
                retry_after: None,
                log_detail: None,
            },
            AppError::Conflict(m) => ErrorResponse {
                status: 409,
                code: string_from_str("conflict"),
                message: m.clone(),
                retry_after: None,
                log_detail: None,
            },
            AppError::UnprocessableEntity(m) => ErrorResponse {
                status: 422,
                code: string_from_str("unprocessable_entity"),
                message: m.clone(),
                retry_after: None,
                log_detail: None,
            },
            AppError::TooManyRequests(secs) => ErrorResponse {
                status: 429,
                code: string_from_str("too_many_requests"),
                message: string_from_str("Too many requests. Please try again later."),
                retry_after: Some(*secs),
                log_detail: None,
            },
            AppError::Internal(m) => ErrorResponse {
                status: 500,
                code: string_from_str("internal_error"),
                message: string_from_str("An internal error occurred"),
                retry_after: None,
                log_detail: Some(m.clone()),
            },
        }
    }

    /// A raw `String` error (from library sources) becomes an internal error.
    pub fn from_string(source: String) -> (e: Self)
        ensures
            e == AppError::Internal(source),
    {
        AppError::Internal(source)
    }
}

} // verus!
