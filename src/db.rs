//! The stored account record.

use vstd::prelude::*;

verus! {

/// One account as the user store keeps it.
pub struct User {
    pub id: i64,
    pub username: String,
    pub password_hash: String,
    pub role: String,
    pub must_change_password: bool,
}

} // verus!
