//! A multi-user task list: accounts, bearer tokens and per-user tasks.
//!
//! The crate keeps the two tables of the service (accounts and tasks) as an
//! in-memory [`store::Store`] whose invariants are proved, and
//! builds the request handlers on top of it:
//!
//! - [`auth::password`] hashes and checks passwords,
//! - [`auth::token`] issues and validates signed, time-bound tokens,
//! - [`auth::extractor`] turns an `Authorization` header into an
//!   authenticated identity,
//! - [`auth::verification`] registers accounts and logs users in,
//! - [`todos`] lists, adds, updates and deletes the tasks of one user.
//!
//! Every handler returns a typed outcome ([`error::ApiError`]); turning
//! outcomes into a wire format is left to the caller.

pub mod auth;
pub mod error;
pub mod model;
pub mod state;
pub mod store;
pub mod todos;
