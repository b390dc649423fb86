//! The gateway's failure taxonomy and its rendering rules.
//!
//! Each failure carries the exact message bytes shown to the client and maps
//! to one fixed HTTP status: a malformed client-supplied identifier to 400,
//! a resolution that found no matching file to 404, and an external-tool or
//! in-process failure to 500.

use vstd::prelude::*;

verus! {

/// A request-scoped failure.
pub enum AppError {
    /// The client-supplied identifier is malformed.
    BadRequest(Vec<u8>),
    /// Resolution found no matching file in the listing.
    NotFound(Vec<u8>),
    /// The external tool reported a non-zero exit before any payload byte.
    Upstream(Vec<u8>),
    /// Spawn, pipe-capture or response-construction failure.
    Internal(Vec<u8>),
}

impl AppError {
    /// The message bytes that the error renders with.
    pub open spec fn message_spec(&self) -> Seq<u8> {
        match self {
            AppError::BadRequest(m) => m@,
            AppError::NotFound(m) => m@,
            AppError::Upstream(m) => m@,
            AppError::Internal(m) => m@,
        }
    }

    /// The HTTP status the error renders with.
    pub open spec fn status_spec(&self) -> u16 {
        match self {
            AppError::BadRequest(_) => 400,
            AppError::NotFound(_) => 404,
            AppError::Upstream(_) => 500,
            AppError::Internal(_) => 500,
        }
    }

    /// The fixed HTTP status code of this error.
    pub fn status_code(&self) -> (r: u16)
        ensures
            r == self.status_spec(),
    {
        match self {
            AppError::BadRequest(_) => 400,
            AppError::NotFound(_) => 404,
            AppError::Upstream(_) => 500,
            AppError::Internal(_) => 500,
        }
    }

    /// The message bytes of this error.
    pub fn message(&self) -> (r: &Vec<u8>)
        ensures
            r@ == self.message_spec(),
    {
        match self {
            AppError::BadRequest(m) => m,
            AppError::NotFound(m) => m,
            AppError::Upstream(m) => m,
            AppError::Internal(m) => m,
        }
    }
}

} // verus!
