//! The errors the server answers with.

use vstd::prelude::*;

use crate::shared::ApiError;

verus! {

/// The class of an error, which fixes its HTTP status.
#[derive(Debug, Clone, Copy, PartialEq, Eq, Structural)]
pub enum ErrorKind {
    BadRequest,
    Unauthorized,
    Forbidden,
    NotFound,
    Internal,
}

/// An error with its class and the message sent to the client.
#[derive(Debug, Clone, PartialEq)]
pub struct AppError {
    pub kind: ErrorKind,
    pub message: String,
}

/// The HTTP status of an error class.
pub open spec fn kind_status(k: ErrorKind) -> u16 {
    match k {
        ErrorKind::BadRequest => 400,
        ErrorKind::Unauthorized => 401,
        ErrorKind::Forbidden => 403,
        ErrorKind::NotFound => 404,
        ErrorKind::Internal => 500,
    }
}

impl AppError {
    /// An error of class `kind` with message `message`.
    pub fn new(kind: ErrorKind, message: &str) -> (e: AppError)
        ensures
            e.kind == kind,
            e.message@ == message@,
    {
        AppError { kind, message: String::from_str(message) }
    }

    /// A rejected request (400).
    pub fn bad_request(message: &str) -> (e: AppError)
        ensures
            e.kind == ErrorKind::BadRequest,
            e.message@ == message@,
    {
        AppError::new(ErrorKind::BadRequest, message)
    }

    /// A request without valid credentials (401).
    pub fn unauthorized(message: &str) -> (e: AppError)
        ensures
            e.kind == ErrorKind::Unauthorized,
            e.message@ == message@,
    {
        AppError::new(ErrorKind::Unauthorized, message)
    }

    /// A request that is never allowed in the current state (403).
    pub fn forbidden(message: &str) -> (e: AppError)
        ensures
            e.kind == ErrorKind::Forbidden,
            e.message@ == message@,
    {
        AppError::new(ErrorKind::Forbidden, message)
    }

    /// A missing record (404).
    pub fn not_found(message: &str) -> (e: AppError)
        ensures
            e.kind == ErrorKind::NotFound,
            e.message@ == message@,
    {
        AppError::new(ErrorKind::NotFound, message)
    }

    /// A failure on the server's side (500).
    pub fn internal(message: &str) -> (e: AppError)
        ensures
            e.kind == ErrorKind::Internal,
            e.message@ == message@,
    {
        AppError::new(ErrorKind::Internal, message)
    }

    /// The HTTP status of the error.
    pub fn status(&self) -> (s: u16)
        ensures
            s == kind_status(self.kind),
    {
        match self.kind {
            ErrorKind::BadRequest => 400,
            ErrorKind::Unauthorized => 401,
            ErrorKind::Forbidden => 403,
            ErrorKind::NotFound => 404,
            ErrorKind::Internal => 500,
        }
    }

    /// The body sent to the client: the message, with no captcha asked for.
    pub fn to_api_error(&self) -> (b: ApiError)
        ensures
            b.error@ == self.message@,
            !b.captcha_required,
    {
        ApiError { error: self.message.clone(), captcha_required: false }
    }
}

} // verus!
