//! Credentials: password digests, signed tokens, the guard in front of the
//! protected handlers, and the two handlers that hand tokens out.

pub mod extractor;
pub mod password;
pub mod token;
pub mod verification;
