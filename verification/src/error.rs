//! Ways in which a request is turned away.

use vstd::prelude::*;

verus! {

/// Why a request was not served.
#[derive(Debug, Clone, Copy, PartialEq, Eq, Structural)]
pub enum HttpError {
    /// The request could not be understood.
    BadRequest,
    /// The shared secret was missing or wrong.
    Unauthorized,
    /// The server could not store what it was given.
    InternalError,
}

impl HttpError {
    /// The HTTP status code that reports this error.
    pub open spec fn code(self) -> u16 {
        match self {
            HttpError::BadRequest => 400,
            HttpError::Unauthorized => 401,
            HttpError::InternalError => 500,
        }
    }

    /// The HTTP status code that reports this error.
    pub fn status_code(&self) -> (code: u16)
        ensures
            code == self.code(),
    {
        match self {
            HttpError::BadRequest => 400,
            HttpError::Unauthorized => 401,
            HttpError::InternalError => 500,
        }
    }
}

} // verus!
