//! The outcomes a request can fail with.

use vstd::prelude::*;

verus! {

/// Why a request was turned down.
#[derive(Clone, Copy, Debug, PartialEq, Eq, Structural)]
pub enum ApiError {
    /// No usable credential: the bearer token is missing, malformed,
    /// expired or not signed by this server, or the password is wrong.
    Unauthenticated,
    /// The username is already taken.
    DuplicateUsername,
    /// No such account, or no such task under the caller's ownership.
    NotFound,
    /// A failure that the caller's input did not cause.
    Internal,
}

/// A token whose signature, payload or expiry was not accepted.
#[derive(Clone, Copy, Debug, PartialEq, Eq, Structural)]
pub struct InvalidToken;

/// The password hasher failed internally, for instance on a malformed digest.
#[derive(Clone, Copy, Debug, PartialEq, Eq, Structural)]
pub struct HashError;

impl ApiError {
    /// The HTTP status that stands for this outcome.
    pub open spec fn status(self) -> int {
        match self {
            ApiError::Unauthenticated => 401,
            ApiError::DuplicateUsername => 409,
            ApiError::NotFound => 404,
            ApiError::Internal => 500,
        }
    }

    /// The HTTP status that stands for this outcome.
    pub fn status_code(&self) -> (code: u16)
        ensures
            code == self.status(),
    {
        match self {
            ApiError::Unauthenticated => 401,
            ApiError::DuplicateUsername => 409,
            ApiError::NotFound => 404,
            ApiError::Internal => 500,
        }
    }
}

} // verus!
