//! The errors that the request-handling layer answers with.

use vstd::prelude::*;

verus! {

/// An error, by the kind of answer it calls for.
#[derive(Debug)]
pub enum AppError {
    BadRequest(String),
    NotFound(String),
    BadGateway(String),
    Internal(String),
}

impl AppError {
    /// An error that blames the request.
    pub fn bad_request(msg: String) -> (r: AppError)
        ensures
            r == AppError::BadRequest(msg),
    {
        AppError::BadRequest(msg)
    }

    /// An error for something that is not there.
    pub fn not_found(msg: String) -> (r: AppError)
        ensures
            r == AppError::NotFound(msg),
    {
        AppError::NotFound(msg)
    }

    /// An error that blames the platform behind this service.
    pub fn bad_gateway(msg: String) -> (r: AppError)
        ensures
            r == AppError::BadGateway(msg),
    {
        AppError::BadGateway(msg)
    }

    /// An error that blames this service.
    pub fn internal(msg: String) -> (r: AppError)
        ensures
            r == AppError::Internal(msg),
    {
        AppError::Internal(msg)
    }

    /// The HTTP status that the error is answered with.
    pub fn status_code(&self) -> (r: u16)
        ensures
            r == match self {
                AppError::BadRequest(_) => 400u16,
                AppError::NotFound(_) => 404u16,
                AppError::BadGateway(_) => 502u16,
                AppError::Internal(_) => 500u16,
            },
    {
        match self {
            AppError::BadRequest(_) => 400,
            AppError::NotFound(_) => 404,
            AppError::BadGateway(_) => 502,
            AppError::Internal(_) => 500,
        }
    }

    /// The message of the error.
    pub fn message(&self) -> (r: &String)
        ensures
            *r == match self {
                AppError::BadRequest(m) => *m,
                AppError::NotFound(m) => *m,
                AppError::BadGateway(m) => *m,
                AppError::Internal(m) => *m,
            },
    {
        match self {
            AppError::BadRequest(m) => m,
            AppError::NotFound(m) => m,
            AppError::BadGateway(m) => m,
            AppError::Internal(m) => m,
        }
    }
}

} // verus!
