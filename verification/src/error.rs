//! Application wide error type.
//!
//! Every fallible operation below the controller layer returns [`AppResult`]. The application maps an
//! error onto the documented JSON envelope using [`AppError::code`], [`AppError::status`] and
//! [`AppError::message`]; keeping that mapping in one place is what keeps the API error contract
//! consistent as new endpoints are added.

use crate::util::text::{chars_of, string_from_chars};
use vstd::prelude::*;

verus! {

pub type AppResult<T> = Result<T, AppError>;

#[derive(Debug)]
pub enum AppError {
    BadRequest(String),
    NotFound(String),
    Conflict(String),
    /// Nobody is signed in, or the credentials were wrong. The client shows the login page.
    Unauthorized(String),
    /// Somebody is signed in, but their role does not allow this.
    Forbidden(String),
    TooManyRequests(String),
    /// The host audio system refused an operation. Usually a device that vanished or is held exclusively
    /// by another application, so it is reported as a temporary condition rather than a server bug.
    Audio(String),
    /// The database refused a statement; the text is the database's own description.
    Database(String),
    /// The disk refused an operation; the text is the operating system's description.
    Io(String),
    Internal(String),
}

fn owned(message: &str) -> (text: String)
    ensures
        text@ == message@,
{
    let chars = chars_of(message);
    string_from_chars(chars.as_slice())
}

/// The text an error carries.
pub open spec fn error_text(error: AppError) -> Seq<char> {
    match error {
        AppError::BadRequest(m) => m@,
        AppError::NotFound(m) => m@,
        AppError::Conflict(m) => m@,
        AppError::Unauthorized(m) => m@,
        AppError::Forbidden(m) => m@,
        AppError::TooManyRequests(m) => m@,
        AppError::Audio(m) => m@,
        AppError::Database(m) => m@,
        AppError::Io(m) => m@,
        AppError::Internal(m) => m@,
    }
}

/// The stable machine readable code of an error kind.
pub open spec fn code_spec(error: AppError) -> Seq<char> {
    match error {
        AppError::BadRequest(_) => "bad_request"@,
        AppError::NotFound(_) => "not_found"@,
        AppError::Conflict(_) => "conflict"@,
        AppError::Unauthorized(_) => "unauthenticated"@,
        AppError::Forbidden(_) => "forbidden"@,
        AppError::TooManyRequests(_) => "rate_limited"@,
        AppError::Audio(_) => "audio_error"@,
        AppError::Database(_) => "internal"@,
        AppError::Io(_) => "internal"@,
        AppError::Internal(_) => "internal"@,
    }
}

/// The HTTP status an error kind is answered with.
pub open spec fn status_spec(error: AppError) -> u16 {
    match error {
        AppError::BadRequest(_) => 400,
        AppError::NotFound(_) => 404,
        AppError::Conflict(_) => 409,
        AppError::Unauthorized(_) => 401,
        AppError::Forbidden(_) => 403,
        AppError::TooManyRequests(_) => 429,
        AppError::Audio(_) => 503,
        AppError::Database(_) => 500,
        AppError::Io(_) => 500,
        AppError::Internal(_) => 500,
    }
}

impl AppError {
    pub fn bad_request(message: &str) -> (error: Self)
        ensures
            error matches AppError::BadRequest(m) && m@ == message@,
    {
        AppError::BadRequest(owned(message))
    }

    pub fn not_found(message: &str) -> (error: Self)
        ensures
            error matches AppError::NotFound(m) && m@ == message@,
    {
        AppError::NotFound(owned(message))
    }

    pub fn conflict(message: &str) -> (error: Self)
        ensures
            error matches AppError::Conflict(m) && m@ == message@,
    {
        AppError::Conflict(owned(message))
    }

    pub fn unauthorized(message: &str) -> (error: Self)
        ensures
            error matches AppError::Unauthorized(m) && m@ == message@,
    {
        AppError::Unauthorized(owned(message))
    }

    pub fn forbidden(message: &str) -> (error: Self)
        ensures
            error matches AppError::Forbidden(m) && m@ == message@,
    {
        AppError::Forbidden(owned(message))
    }

    pub fn too_many_requests(message: &str) -> (error: Self)
        ensures
            error matches AppError::TooManyRequests(m) && m@ == message@,
    {
        AppError::TooManyRequests(owned(message))
    }

    pub fn audio(message: &str) -> (error: Self)
        ensures
            error matches AppError::Audio(m) && m@ == message@,
    {
        AppError::Audio(owned(message))
    }

    pub fn internal(message: &str) -> (error: Self)
        ensures
            error matches AppError::Internal(m) && m@ == message@,
    {
        AppError::Internal(owned(message))
    }

    /// Stable machine readable code, documented in the API reference.
    pub fn code(&self) -> (code: &'static str)
        ensures
            code@ == code_spec(*self),
    {
        match self {
            AppError::BadRequest(_) => "bad_request",
            AppError::NotFound(_) => "not_found",
            AppError::Conflict(_) => "conflict",
            AppError::Unauthorized(_) => "unauthenticated",
            AppError::Forbidden(_) => "forbidden",
            AppError::TooManyRequests(_) => "rate_limited",
            AppError::Audio(_) => "audio_error",
            AppError::Database(_) => "internal",
            AppError::Io(_) => "internal",
            AppError::Internal(_) => "internal",
        }
    }

    /// The HTTP status code the error is answered with.
    pub fn status(&self) -> (status: u16)
        ensures
            status == status_spec(*self),
    {
        match self {
            AppError::BadRequest(_) => 400,
            AppError::NotFound(_) => 404,
            AppError::Conflict(_) => 409,
            AppError::Unauthorized(_) => 401,
            AppError::Forbidden(_) => 403,
            AppError::TooManyRequests(_) => 429,
            AppError::Audio(_) => 503,
            AppError::Database(_) => 500,
            AppError::Io(_) => 500,
            AppError::Internal(_) => 500,
        }
    }

    /// The human readable message: the carried text, prefixed for device, database and disk errors.
    pub fn message(&self) -> (text: String)
        ensures
            text@ == match *self {
                AppError::Audio(m) => "audio device error: "@ + m@,
                AppError::Database(m) => "database error: "@ + m@,
                AppError::Io(m) => "io error: "@ + m@,
                _ => error_text(*self),
            },
    {
        match self {
            AppError::Audio(m) => String::from_str("audio device error: ").concat(m.as_str()),
            AppError::Database(m) => String::from_str("database error: ").concat(m.as_str()),
            AppError::Io(m) => String::from_str("io error: ").concat(m.as_str()),
            AppError::BadRequest(m) => m.clone(),
            AppError::NotFound(m) => m.clone(),
            AppError::Conflict(m) => m.clone(),
            AppError::Unauthorized(m) => m.clone(),
            AppError::Forbidden(m) => m.clone(),
            AppError::TooManyRequests(m) => m.clone(),
            AppError::Internal(m) => m.clone(),
        }
    }
}

} // verus!
