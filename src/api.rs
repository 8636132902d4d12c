//! Requests of the session lifecycle API.

use vstd::prelude::*;

verus! {

/// A request to create a session under the given identifier.
pub struct CreateSessionRequest {
    pub id: String,
}

} // verus!
