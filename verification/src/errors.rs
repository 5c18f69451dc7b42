//! The error taxonomy of the request plane and how each error is reported.

use vstd::prelude::*;
use vstd::string::*;

verus! {

#[derive(Debug)]
pub enum AppError {
    BadRequest(String),
    Unauthorized(String),
    RateLimited { message: String, headers: Vec<(String, String)> },
    Backend(String),
    Internal(String),
}

impl AppError {
    /// The HTTP status that reports this error.
    pub open spec fn spec_status_code(&self) -> u16 {
        match self {
            AppError::BadRequest(_) => 400,
            AppError::Unauthorized(_) => 401,
            AppError::RateLimited { .. } => 429,
            AppError::Backend(_) => 502,
            AppError::Internal(_) => 500,
        }
    }

    /// The `type` field of the error envelope.
    pub open spec fn spec_error_type(&self) -> Seq<char> {
        match self {
            AppError::BadRequest(_) => "invalid_request_error"@,
            AppError::Unauthorized(_) => "authentication_error"@,
            AppError::RateLimited { .. } => "rate_limit_error"@,
            AppError::Backend(_) => "backend_error"@,
            AppError::Internal(_) => "server_error"@,
        }
    }

    /// The human-readable message the error carries.
    pub open spec fn spec_message(&self) -> Seq<char> {
        match self {
            AppError::BadRequest(message) => message@,
            AppError::Unauthorized(message) => message@,
            AppError::RateLimited { message, .. } => message@,
            AppError::Backend(message) => message@,
            AppError::Internal(message) => message@,
        }
    }

    pub fn status_code(&self) -> (code: u16)
        ensures
            code == self.spec_status_code(),
    {
        match self {
            AppError::BadRequest(_) => 400,
            AppError::Unauthorized(_) => 401,
            AppError::RateLimited { .. } => 429,
            AppError::Backend(_) => 502,
            AppError::Internal(_) => 500,
        }
    }

    pub fn error_type(&self) -> (name: &'static str)
        ensures
            name@ == self.spec_error_type(),
    {
        match self {
            AppError::BadRequest(_) => "invalid_request_error",
            AppError::Unauthorized(_) => "authentication_error",
            AppError::RateLimited { .. } => "rate_limit_error",
            AppError::Backend(_) => "backend_error",
            AppError::Internal(_) => "server_error",
        }
    }

    pub fn message(&self) -> (text: String)
        ensures
            text@ == self.spec_message(),
    {
        match self {
            AppError::BadRequest(message) => message.clone(),
            AppError::Unauthorized(message) => message.clone(),
            AppError::RateLimited { message, .. } => message.clone(),
            AppError::Backend(message) => message.clone(),
            AppError::Internal(message) => message.clone(),
        }
    }
}

} // verus!
