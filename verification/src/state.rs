//! What the handlers share: the tables and the signing secret.

use vstd::prelude::*;
use crate::store::{Store, Tables};

verus! {

/// The state of one running service.
///
/// The secret is configuration: it is handed in once, when the state is
/// made, and no handler changes it. Tokens signed under another secret do
/// not validate.
pub struct AppState {
    pub store: Store,
    pub jwt_secret: String,
}

impl AppState {
    /// A service without accounts and without tasks that signs its tokens
    /// under `jwt_secret`.
    pub fn new(jwt_secret: String) -> (state: AppState)
        ensures
            state.store@ == Tables::empty(),
            state.store@.valid(),
            state.jwt_secret == jwt_secret,
    {
        AppState { store: Store::new(), jwt_secret }
    }
}

} // verus!
