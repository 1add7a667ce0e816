//! Application errors: their HTTP status, machine code and message.
use vstd::prelude::*;

use crate::crypto::CryptoError;
use crate::text::{push_str, string_of};

verus! {

/// An error answered to an API caller.
#[derive(Debug, Clone, PartialEq, Eq)]
pub enum AppError {
    /// A storage failure; carries the diagnostic text, which is never
    /// shown to the caller.
    Database(String),
    /// 401: not authenticated, or the token is invalid.
    Unauthorized(String),
    /// 403: authenticated but not allowed (e.g. re-authentication needed).
    Forbidden(String),
    /// 400: malformed request body or parameters.
    BadRequest(String),
    /// 404: the resource does not exist.
    NotFound(String),
    /// 429: the account is locked after too many failed attempts.
    AccountLocked(String),
    /// 500: unexpected server-side failure.
    Internal(String),
}

/// The machine code of each kind of error.
pub open spec fn error_code_of(e: AppError) -> Seq<char> {
    match e {
        AppError::Database(_) | AppError::Internal(_) => "INTERNAL_ERROR"@,
        AppError::Unauthorized(_) => "UNAUTHORIZED"@,
        AppError::Forbidden(_) => "FORBIDDEN"@,
        AppError::BadRequest(_) => "BAD_REQUEST"@,
        AppError::NotFound(_) => "NOT_FOUND"@,
        AppError::AccountLocked(_) => "ACCOUNT_LOCKED"@,
    }
}

/// The HTTP status of each kind of error.
pub open spec fn status_of(e: AppError) -> u16 {
    match e {
        AppError::Database(_) | AppError::Internal(_) => 500,
        AppError::Unauthorized(_) => 401,
        AppError::Forbidden(_) => 403,
        AppError::BadRequest(_) => 400,
        AppError::NotFound(_) => 404,
        AppError::AccountLocked(_) => 429,
    }
}

/// The text shown to the caller.  Server-side failures say nothing of their
/// cause.
pub open spec fn message_of(e: AppError) -> Seq<char> {
    match e {
        AppError::Database(_) => "Database error"@,
        AppError::Unauthorized(m) => "Unauthorized: "@ + m@,
        AppError::Forbidden(m) => "Forbidden: "@ + m@,
        AppError::BadRequest(m) => "Bad request: "@ + m@,
        AppError::NotFound(m) => "Not found: "@ + m@,
        AppError::AccountLocked(m) => "Account locked until "@ + m@,
        AppError::Internal(_) => "Internal server error"@,
    }
}

impl AppError {
    /// Machine-readable error code.
    pub fn error_code(&self) -> (r: &'static str)
        ensures
            r@ == error_code_of(*self),
    {
        match self {
            AppError::Database(_) | AppError::Internal(_) => "INTERNAL_ERROR",
            AppError::Unauthorized(_) => "UNAUTHORIZED",
            AppError::Forbidden(_) => "FORBIDDEN",
            AppError::BadRequest(_) => "BAD_REQUEST",
            AppError::NotFound(_) => "NOT_FOUND",
            AppError::AccountLocked(_) => "ACCOUNT_LOCKED",
        }
    }

    /// HTTP status code.
    pub fn status_code(&self) -> (r: u16)
        ensures
            r == status_of(*self),
    {
        match self {
            AppError::Database(_) | AppError::Internal(_) => 500,
            AppError::Unauthorized(_) => 401,
            AppError::Forbidden(_) => 403,
            AppError::BadRequest(_) => 400,
            AppError::NotFound(_) => 404,
            AppError::AccountLocked(_) => 429,
        }
    }

    /// The message of the error body.
    pub fn message(&self) -> (r: String)
        ensures
            r@ == message_of(*self),
    {
        let mut v: Vec<char> = Vec::new();
        match self {
            AppError::Database(_) => push_str(&mut v, "Database error"),
            AppError::Unauthorized(m) => {
                push_str(&mut v, "Unauthorized: ");
                push_str(&mut v, m.as_str());
            },
            AppError::Forbidden(m) => {
                push_str(&mut v, "Forbidden: ");
                push_str(&mut v, m.as_str());
            },
            AppError::BadRequest(m) => {
                push_str(&mut v, "Bad request: ");
                push_str(&mut v, m.as_str());
            },
            AppError::NotFound(m) => {
                push_str(&mut v, "Not found: ");
                push_str(&mut v, m.as_str());
            },
            AppError::AccountLocked(m) => {
                push_str(&mut v, "Account locked until ");
                push_str(&mut v, m.as_str());
            },
            AppError::Internal(_) => push_str(&mut v, "Internal server error"),
        }
        proof {
            assert(v@ =~= message_of(*self));
        }
        string_of(v.as_slice())
    }
}

/// A field-encryption failure, as answered to the caller: an internal error
/// that does not reveal its cause.
pub fn from_crypto_error(e: CryptoError) -> (r: AppError)
    ensures
        r matches AppError::Internal(m) && m@ == "Cryptographic operation failed"@,
{
    AppError::Internal(string_of(crate::text::chars_of("Cryptographic operation failed").as_slice()))
}

/// A password-hashing failure, as answered to the caller.
pub fn password_processing_error() -> (r: AppError)
    ensures
        r matches AppError::Internal(m) && m@ == "Password processing error"@,
{
    AppError::Internal(string_of(crate::text::chars_of("Password processing error").as_slice()))
}

} // verus!
