//! The password hasher: salted, adaptive, one-way.
//!
//! Digests are made and checked by the `bcrypt` crate. A digest names its
//! own cost, so the cost of new digests can be raised while digests made
//! at another cost go on being accepted.

use vstd::prelude::*;
use crate::error::HashError;

verus! {

/// The cost at which new digests are made.
pub const HASH_COST: u32 = 8;

/// The error type of `bcrypt`.
#[verifier::external_type_specification]
#[verifier::external_body]
pub struct ExBcryptError(bcrypt::BcryptError);

/// What `bcrypt::verify` makes of `plaintext` and `digest`: nothing if it
/// fails (on a malformed digest), else whether the digest is one of
/// `plaintext`.
pub uninterp spec fn digest_accepts(digest: Seq<char>, plaintext: Seq<char>) -> Option<bool>;

/// The decimal digit `n`.
pub open spec fn digit(n: int) -> char {
    seq!['0', '1', '2', '3', '4', '5', '6', '7', '8', '9'][n]
}

/// Holds of a digest that names `cost` as the cost it was made at: sixty
/// characters that start with the version `2b` and the cost in two digits,
/// each set off by `$`.
pub open spec fn names_cost(digest: Seq<char>, cost: u32) -> bool {
    &&& digest.len() == 60
    &&& digest[0] == '$' && digest[1] == '2' && digest[2] == 'b' && digest[3] == '$'
    &&& digest[4] == digit(cost as int / 10) && digest[5] == digit(cost as int % 10)
    &&& digest[6] == '$'
}

/// Calls `bcrypt::hash`, which salts the digest at random.
///
/// Trusted: a digest that comes back names the cost it was made at and is
/// accepted for the same plaintext. The crate writes a digest as `$2b$`,
/// the cost in two digits, `$`, then salt and hash in 53 characters; its
/// `verify` reads cost and salt out of the digest and repeats the
/// computation that made it.
#[verifier::external_body]
fn bcrypt_hash(plaintext: &str, cost: u32) -> (r: Result<String, bcrypt::BcryptError>)
    ensures
        r matches Ok(digest) ==> names_cost(digest@, cost) && digest_accepts(digest@, plaintext@)
            == Some(true),
{
    bcrypt::hash(plaintext, cost)
}

/// Calls `bcrypt::verify`.
///
/// Trusted: the answer is a function of the two strings alone, named by
/// [`digest_accepts`].
#[verifier::external_body]
fn bcrypt_verify(plaintext: &str, digest: &str) -> (r: Result<bool, bcrypt::BcryptError>)
    ensures
        digest_accepts(digest@, plaintext@) == match r {
            Ok(same) => Some(same),
            Err(_) => None::<bool>,
        },
{
    bcrypt::verify(plaintext, digest)
}

/// What the caller is told of a hashing: the digest, or `HashError` if
/// hashing failed.
pub fn hashing_outcome(hashed: Result<String, bcrypt::BcryptError>) -> (r: Result<
    String,
    HashError,
>)
    ensures
        match hashed {
            Ok(digest) => r == Ok::<String, HashError>(digest),
            Err(_) => r == Err::<String, HashError>(HashError),
        },
{
    match hashed {
        Ok(digest) => Ok(digest),
        Err(_) => Err(HashError),
    }
}

/// What the caller is told of a comparison: whether the password
/// matched, or `HashError` if the comparison itself failed.
pub fn checking_outcome(checked: Result<bool, bcrypt::BcryptError>) -> (r: Result<
    bool,
    HashError,
>)
    ensures
        r == match checked {
            Ok(same) => Ok::<bool, HashError>(same),
            Err(_) => Err(HashError),
        },
{
    match checked {
        Ok(same) => Ok(same),
        Err(_) => Err(HashError),
    }
}

/// Makes a digest of `plaintext` at [`HASH_COST`], under a fresh salt.
///
/// A digest that comes back names its cost and is accepted by [`verify`]
/// for the same plaintext. The only failure is an internal one of the
/// hasher.
pub fn hash(plaintext: &str) -> (r: Result<String, HashError>)
    ensures
        r matches Ok(digest) ==> names_cost(digest@, HASH_COST) && digest_accepts(
            digest@,
            plaintext@,
        ) == Some(true),
{
    hashing_outcome(bcrypt_hash(plaintext, HASH_COST))
}

/// Whether `digest` is a digest of `plaintext`.
///
/// A password that does not match is the ordinary answer `Ok(false)`;
/// `HashError` is kept for a digest that cannot be read.
pub fn verify(plaintext: &str, digest: &str) -> (r: Result<bool, HashError>)
    ensures
        r == match digest_accepts(digest@, plaintext@) {
            Some(same) => Ok::<bool, HashError>(same),
            None => Err(HashError),
        },
{
    checking_outcome(bcrypt_verify(plaintext, digest))
}

/// The plaintext is not what is stored: a digest differs from every
/// plaintext that has not itself the shape of a digest of that cost.
pub proof fn lemma_digest_is_not_the_plaintext(digest: Seq<char>, plaintext: Seq<char>, cost: u32)
    requires
        names_cost(digest, cost),
        !names_cost(plaintext, cost),
    ensures
        digest != plaintext,
{
}

} // verus!
