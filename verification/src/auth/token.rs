//! The token codec: signed, time-bound statements of identity.
//!
//! A token is a JSON Web Token signed with HMAC-SHA256 under a server-wide
//! secret. Its payload is a [`Claims`] value: the account it speaks for and
//! the second at which it expires. Signing and signature checking are the
//! work of the `jsonwebtoken` crate; whether a token has expired is decided
//! here, against an instant that the caller names: the library reads no
//! clock.

use vstd::prelude::*;
use crate::error::{ApiError, InvalidToken};
use crate::model::Claims;

verus! {

/// The error type of `jsonwebtoken`.
#[verifier::external_type_specification]
#[verifier::external_body]
pub struct ExTokenError(jsonwebtoken::errors::Error);

/// What `jsonwebtoken::encode` makes, under `secret`, of the claims `id`
/// and `exp`: the token, or nothing if it fails.
pub uninterp spec fn signed_token(secret: Seq<char>, id: i64, exp: usize) -> Option<Seq<char>>;

/// What `jsonwebtoken::decode` finds in `token` under `secret`: nothing if
/// it turns the token down, else the claims `id` and `exp` as far as the
/// payload holds them as integers.
pub uninterp spec fn token_claims(secret: Seq<char>, token: Seq<char>) -> Option<
    (Option<i64>, Option<u64>),
>;

/// The two claims of a decoded payload, each absent where the payload does
/// not hold it as an integer of its range.
#[derive(Clone, Copy, Debug, PartialEq, Eq, Structural)]
pub struct Payload {
    pub id: Option<i64>,
    pub exp: Option<u64>,
}

/// What validation at the second `now` makes of `token`: the account it
/// speaks for if the signature verifies under `secret`, the payload holds
/// both claims and `now` lies before the expiry; `InvalidToken` otherwise.
pub open spec fn validation(secret: Seq<char>, token: Seq<char>, now: u64) -> Result<
    i64,
    InvalidToken,
> {
    match token_claims(secret, token) {
        Some((Some(id), Some(exp))) => if now < exp {
            Ok(id)
        } else {
            Err(InvalidToken)
        },
        _ => Err(InvalidToken),
    }
}

/// Calls `jsonwebtoken::encode` with the default header (HS256) and the
/// claims as a JSON object with the members `id` and `exp`.
///
/// Trusted: the outcome is a function of the secret and the two claims
/// alone, named by [`signed_token`], and decoding a token that comes back
/// under the same secret yields the same two claims. The crate signs and
/// verifies with the same HMAC and writes and reads the integers through
/// the same JSON codec.
#[verifier::external_body]
fn encode_claims(secret: &str, claims: &Claims) -> (r: Result<
    String,
    jsonwebtoken::errors::Error,
>)
    ensures
        match r {
            Ok(token) => signed_token(secret@, claims.id, claims.exp) == Some(token@)
                && token_claims(secret@, token@) == Some(
                (Some(claims.id), Some(claims.exp as u64)),
            ),
            Err(_) => signed_token(secret@, claims.id, claims.exp) is None,
        },
{
    let mut payload = serde_json::Map::new();
    payload.insert("id".to_string(), serde_json::Value::from(claims.id));
    payload.insert("exp".to_string(), serde_json::Value::from(claims.exp));
    let key = jsonwebtoken::EncodingKey::from_secret(secret.as_bytes());
    jsonwebtoken::encode(&jsonwebtoken::Header::default(), &payload, &key)
}

/// Calls `jsonwebtoken::decode` with the default validation (HS256, an
/// `exp` claim required) except that the crate's own comparison of `exp`
/// with the system clock is switched off.
///
/// Trusted: the result is a function of the secret and the token alone,
/// named by [`token_claims`].
#[verifier::external_body]
fn decode_claims(secret: &str, token: &str) -> (r: Result<Payload, jsonwebtoken::errors::Error>)
    ensures
        token_claims(secret@, token@) == match r {
            Ok(payload) => Some((payload.id, payload.exp)),
            Err(_) => None::<(Option<i64>, Option<u64>)>,
        },
{
    let mut rules = jsonwebtoken::Validation::default();
    rules.validate_exp = false;
    let key = jsonwebtoken::DecodingKey::from_secret(secret.as_bytes());
    let data = jsonwebtoken::decode::<serde_json::Value>(token, &key, &rules)?;
    Ok(Payload {
        id: data.claims.get("id").and_then(serde_json::Value::as_i64),
        exp: data.claims.get("exp").and_then(serde_json::Value::as_u64),
    })
}

/// What the caller of the signer is told: the token, or `Internal` if
/// signing failed.
pub fn signing_outcome(signed: Result<String, jsonwebtoken::errors::Error>) -> (r: Result<
    String,
    ApiError,
>)
    ensures
        match signed {
            Ok(token) => r == Ok::<String, ApiError>(token),
            Err(_) => r == Err::<String, ApiError>(ApiError::Internal),
        },
{
    match signed {
        Ok(token) => Ok(token),
        Err(_) => Err(ApiError::Internal),
    }
}

/// What validation makes of a decoding result at the second `now`: the
/// account, if decoding succeeded, both claims are there and `now` lies
/// before the expiry; `InvalidToken` in every other case.
pub fn claims_outcome(decoded: Result<Payload, jsonwebtoken::errors::Error>, now: u64) -> (r:
    Result<i64, InvalidToken>)
    ensures
        r == match decoded {
            Ok(Payload { id: Some(id), exp: Some(exp) }) => if now < exp {
                Ok::<i64, InvalidToken>(id)
            } else {
                Err(InvalidToken)
            },
            _ => Err(InvalidToken),
        },
{
    match decoded {
        Ok(Payload { id: Some(id), exp: Some(exp) }) => {
            if now < exp {
                Ok(id)
            } else {
                Err(InvalidToken)
            }
        },
        _ => Err(InvalidToken),
    }
}

/// The token of a signing outcome as plain characters.
pub open spec fn token_chars(outcome: Result<String, ApiError>) -> Result<Seq<char>, ApiError> {
    match outcome {
        Ok(token) => Ok(token@),
        Err(e) => Err(e),
    }
}

/// Holds of the outcome of signing the claims `id` and `exp` under
/// `secret`. Where the signer makes a token, the outcome is that token,
/// and it validates for `id` at every instant before `exp` and at none
/// from then on. Where the signer fails, the outcome is `Internal`.
pub open spec fn issued(
    secret: Seq<char>,
    id: i64,
    exp: usize,
    outcome: Result<Seq<char>, ApiError>,
) -> bool {
    match signed_token(secret, id, exp) {
        Some(token) => {
            &&& outcome == Ok::<Seq<char>, ApiError>(token)
            &&& forall|now: u64| #[trigger]
                validation(secret, token, now) == if now < exp {
                    Ok::<i64, InvalidToken>(id)
                } else {
                    Err(InvalidToken)
                }
        },
        None => outcome == Err::<Seq<char>, ApiError>(ApiError::Internal),
    }
}

/// Signs `claims` under `secret`.
///
/// Answers with a token exactly when the signer makes one; the token is
/// then valid for the account `claims.id` at every instant before
/// `claims.exp` and at none from then on. The only failure is `Internal`,
/// when the signer fails.
pub fn sign(secret: &str, claims: &Claims) -> (r: Result<String, ApiError>)
    ensures
        issued(secret@, claims.id, claims.exp, token_chars(r)),
        r is Ok <==> signed_token(secret@, claims.id, claims.exp) is Some,
{
    signing_outcome(encode_claims(secret, claims))
}

/// Issues a token for `user_id` at the second `now`, to expire `ttl`
/// seconds later.
///
/// Fails with `Internal` if the expiry cannot be represented, or if the
/// signer fails; in every other case a token comes back. It is valid for
/// `user_id` at every instant before `now + ttl` and at none from then on.
pub fn issue_at(secret: &str, user_id: i64, now: u64, ttl: u64) -> (r: Result<String, ApiError>)
    ensures
        now + ttl > usize::MAX ==> r == Err::<String, ApiError>(ApiError::Internal),
        now + ttl <= usize::MAX ==> issued(
            secret@,
            user_id,
            (now + ttl) as usize,
            token_chars(r),
        ),
        r is Ok <==> now + ttl <= usize::MAX && signed_token(
            secret@,
            user_id,
            (now + ttl) as usize,
        ) is Some,
{
    match now.checked_add(ttl) {
        Some(exp) => {
            if exp > usize::MAX as u64 {
                Err(ApiError::Internal)
            } else {
                sign(secret, &Claims { id: user_id, exp: exp as usize })
            }
        },
        None => Err(ApiError::Internal),
    }
}

/// Validates `token` at the second `now` and returns the account it speaks
/// for.
///
/// Fails with `InvalidToken` when the signature does not verify under
/// `secret`, when the payload cannot be decoded or lacks a claim, and when
/// `now` is at or past the expiry.
pub fn validate_at(secret: &str, token: &str, now: u64) -> (r: Result<i64, InvalidToken>)
    ensures
        r == validation(secret@, token@, now),
{
    claims_outcome(decode_claims(secret, token), now)
}

} // verus!
