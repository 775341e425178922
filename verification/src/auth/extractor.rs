//! The guard in front of the protected handlers.
//!
//! A request proves who sent it with the header
//! `Authorization: Bearer <token>`. The guard reads the token out of the
//! header value and has it validated at the instant that the caller
//! names. Whatever goes wrong (no header, another scheme, a token that is
//! forged, damaged or expired), the request is turned down with the same
//! `Unauthenticated`, so that a handler only ever sees an identity that
//! was fully checked.

use vstd::prelude::*;
use vstd::string::*;
use crate::auth::token::{validate_at, validation};
use crate::error::ApiError;
use crate::state::AppState;

verus! {

/// The account that a validated token speaks for.
#[derive(Clone, Copy, Debug, PartialEq, Eq, Structural)]
pub struct AuthUser(pub i64);

/// The token in the value of an `Authorization` header: what follows the
/// prefix `Bearer `, if the value starts with it.
pub open spec fn bearer_token_of(header: Seq<char>) -> Option<Seq<char>> {
    if header.len() >= 7 && header.subrange(0, 7) == "Bearer "@ {
        Some(header.subrange(7, header.len() as int))
    } else {
        None
    }
}

/// The outcome of the guard at the second `now`, for a request with the
/// given `Authorization` header, if it has one.
pub open spec fn authentication(secret: Seq<char>, header: Option<Seq<char>>, now: u64) -> Result<
    AuthUser,
    ApiError,
> {
    match header {
        Some(value) => match bearer_token_of(value) {
            Some(token) => match validation(secret, token, now) {
                Ok(id) => Ok(AuthUser(id)),
                Err(_) => Err(ApiError::Unauthenticated),
            },
            None => Err(ApiError::Unauthenticated),
        },
        None => Err(ApiError::Unauthenticated),
    }
}

/// A header value as plain characters.
pub open spec fn header_chars(header: Option<&str>) -> Option<Seq<char>> {
    match header {
        Some(value) => Some(value@),
        None => None,
    }
}

/// Reads the token out of the value of an `Authorization` header.
pub fn bearer_token(header: &str) -> (token: Option<&str>)
    ensures
        header_chars(token) == bearer_token_of(header@),
{
    let len = header.unicode_len();
    if len < 7 {
        return None;
    }
    let scheme = header.substring_char(0, 7).to_owned();
    if scheme == "Bearer ".to_owned() {
        Some(header.substring_char(7, len))
    } else {
        None
    }
}

/// Decides at the second `now` whether a request with the given
/// `Authorization` header is let through, and as whom.
pub fn authenticate_at(secret: &str, authorization: Option<&str>, now: u64) -> (r: Result<
    AuthUser,
    ApiError,
>)
    ensures
        r == authentication(secret@, header_chars(authorization), now),
{
    match authorization {
        Some(value) => match bearer_token(value) {
            Some(token) => match validate_at(secret, token, now) {
                Ok(id) => Ok(AuthUser(id)),
                Err(_) => Err(ApiError::Unauthenticated),
            },
            None => Err(ApiError::Unauthenticated),
        },
        None => Err(ApiError::Unauthenticated),
    }
}

impl AuthUser {
    /// Decides at the second `now` whether a request with the given
    /// `Authorization` header is let through by the service `state`, and
    /// as whom.
    pub fn from_request_parts(authorization: Option<&str>, state: &AppState, now: u64) -> (r:
        Result<AuthUser, ApiError>)
        ensures
            r == authentication(state.jwt_secret@, header_chars(authorization), now),
    {
        authenticate_at(state.jwt_secret.as_str(), authorization, now)
    }
}

} // verus!
