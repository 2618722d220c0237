//! The error taxonomy the engine reports, and the wire shape errors
//! are rendered to.
//!
//! Conflicts (a slot taken, a profile that already exists) are not
//! retryable without a change of input; validation errors describe bad
//! input; internal errors cover failed calls to outside services and
//! are the operator's to retry.

use vstd::prelude::*;

verus! {

/// The body of an error response.
pub struct ErrorResponse {
    pub error: String,
    pub details: Option<String>,
}

/// Everything an operation of the engine can fail with.
#[derive(Debug)]
pub enum AppError {
    NotFound(String),
    BadRequest(String),
    Unauthorized,
    Forbidden,
    Conflict(String),
    Validation(String),
    Internal(String),
}

impl AppError {
    /// The HTTP status each error is reported under.
    pub open spec fn spec_status_code(self) -> u16 {
        match self {
            AppError::NotFound(_) => 404,
            AppError::BadRequest(_) => 400,
            AppError::Unauthorized => 401,
            AppError::Forbidden => 403,
            AppError::Conflict(_) => 409,
            AppError::Validation(_) => 422,
            AppError::Internal(_) => 500,
        }
    }

    /// The HTTP status this error is reported under.
    pub fn status_code(&self) -> (r: u16)
        ensures
            r == self.spec_status_code(),
    {
        match self {
            AppError::NotFound(_) => 404,
            AppError::BadRequest(_) => 400,
            AppError::Unauthorized => 401,
            AppError::Forbidden => 403,
            AppError::Conflict(_) => 409,
            AppError::Validation(_) => 422,
            AppError::Internal(_) => 500,
        }
    }

    /// The fixed label each error is reported under.
    pub open spec fn spec_error_label(self) -> Seq<char> {
        match self {
            AppError::NotFound(_) => "Not found"@,
            AppError::BadRequest(_) => "Bad request"@,
            AppError::Unauthorized => "Unauthorized"@,
            AppError::Forbidden => "Forbidden"@,
            AppError::Conflict(_) => "Conflict"@,
            AppError::Validation(_) => "Validation error"@,
            AppError::Internal(_) => "Internal server error"@,
        }
    }

    /// The fixed label this error is reported under.
    pub fn error_label(&self) -> (r: &'static str)
        ensures
            r@ == self.spec_error_label(),
    {
        match self {
            AppError::NotFound(_) => "Not found",
            AppError::BadRequest(_) => "Bad request",
            AppError::Unauthorized => "Unauthorized",
            AppError::Forbidden => "Forbidden",
            AppError::Conflict(_) => "Conflict",
            AppError::Validation(_) => "Validation error",
            AppError::Internal(_) => "Internal server error",
        }
    }

    /// The detail message shown to the client, where one exists.
    /// Internal messages are kept out of responses.
    pub open spec fn spec_details(self) -> Option<Seq<char>> {
        match self {
            AppError::NotFound(m) => Some(m@),
            AppError::BadRequest(m) => Some(m@),
            AppError::Conflict(m) => Some(m@),
            AppError::Validation(m) => Some(m@),
            _ => None,
        }
    }

    /// The detail message shown to the client, where one exists.
    pub fn details(&self) -> (r: Option<&String>)
        ensures
            match r {
                Some(m) => self.spec_details() == Some(m@),
                None => self.spec_details() is None,
            },
    {
        match self {
            AppError::NotFound(m) => Some(m),
            AppError::BadRequest(m) => Some(m),
            AppError::Conflict(m) => Some(m),
            AppError::Validation(m) => Some(m),
            _ => None,
        }
    }
}

/// A convenient alias for results of engine operations.
pub type AppResult<T> = Result<T, AppError>;

/// Why a reservation attempt failed.
#[derive(Debug)]
pub enum CreateBookingError {
    /// The date is blacked out or its capacity is already taken.
    SlotNotAvailable,
}

/// Why a request was turned away before reaching a handler.
#[derive(Debug)]
pub enum AuthError {
    MissingToken,
    InvalidToken,
    TokenRevoked,
    Forbidden,
}

impl AuthError {
    /// The HTTP status each rejection is reported under.
    pub open spec fn spec_status_code(self) -> u16 {
        match self {
            AuthError::Forbidden => 403,
            _ => 401,
        }
    }

    /// The HTTP status this rejection is reported under.
    pub fn status_code(&self) -> (r: u16)
        ensures
            r == self.spec_status_code(),
    {
        match self {
            AuthError::Forbidden => 403,
            _ => 401,
        }
    }

    /// The message each rejection carries.
    pub open spec fn spec_message(self) -> Seq<char> {
        match self {
            AuthError::MissingToken => "Missing authorization token"@,
            AuthError::InvalidToken => "Invalid or expired token"@,
            AuthError::TokenRevoked => "Token has been revoked"@,
            AuthError::Forbidden => "Insufficient permissions"@,
        }
    }

    /// The message this rejection carries.
    pub fn message(&self) -> (r: &'static str)
        ensures
            r@ == self.spec_message(),
    {
        match self {
            AuthError::MissingToken => "Missing authorization token",
            AuthError::InvalidToken => "Invalid or expired token",
            AuthError::TokenRevoked => "Token has been revoked",
            AuthError::Forbidden => "Insufficient permissions",
        }
    }
}

} // verus!
