//! Account data exchanged with clients of the login endpoints.

use vstd::prelude::*;
use argon2::password_hash::{PasswordHash, PasswordVerifier};
use argon2::Argon2;
use crate::db::User;

verus! {

/// The credentials a client logs in with.
pub struct LoginRequest {
    pub username: String,
    pub password: String,
}

/// What a client is told of an account: never its password hash.
pub struct UserResponse {
    pub id: i64,
    pub username: String,
    pub role: String,
}

impl From<User> for UserResponse {
    fn from(user: User) -> (r: UserResponse)
        ensures
            r.id == user.id,
            r.username == user.username,
            r.role == user.role,
    {
        UserResponse { id: user.id, username: user.username, role: user.role }
    }
}

impl vstd::std_specs::convert::FromSpecImpl<User> for UserResponse {
    open spec fn obeys_from_spec() -> bool {
        true
    }

    open spec fn from_spec(user: User) -> UserResponse {
        UserResponse { id: user.id, username: user.username, role: user.role }
    }
}

/// Whether `password` verifies against the PHC hash string `hash` under
/// Argon2 with its default parameters.
pub uninterp spec fn password_matches(password: Seq<char>, hash: Seq<char>) -> bool;

/// Relies on `argon2::password_hash::PasswordHash::new` and
/// `PasswordVerifier::verify_password` of `Argon2::default()`: parsing the
/// hash string and recomputing the hash depend on the arguments alone, and
/// an empty hash string fails to parse.
#[verifier::external_body]
fn argon2_verifies(password: &str, hash: &str) -> (r: bool)
    ensures
        r == password_matches(password@, hash@),
        hash@.len() == 0 ==> !r,
{
    match PasswordHash::new(hash) {
        Ok(parsed) => Argon2::default().verify_password(password.as_bytes(), &parsed).is_ok(),
        Err(_) => false,
    }
}

/// Whether `password` is the one `password_hash` was made from; a hash
/// that does not parse verifies nothing.
pub fn verify_password(password: &str, password_hash: &str) -> (r: bool)
    ensures
        r == password_matches(password@, password_hash@),
        password_hash@.len() == 0 ==> !r,
{
    argon2_verifies(password, password_hash)
}

/// The outcome of a login attempt for the account found under the given
/// username, if any: what the client is told of the account when the
/// password verifies, else nothing.
pub fn authenticate(user: Option<User>, password: &str) -> (r: Option<UserResponse>)
    ensures
        r is Some <==> (user matches Some(u) && password_matches(password@, u.password_hash@)),
        r matches Some(resp) ==> (user matches Some(u) && resp.id == u.id && resp.username == u.username
            && resp.role == u.role),
{
    match user {
        Some(u) => {
            if verify_password(password, u.password_hash.as_str()) {
                Some(UserResponse::from(u))
            } else {
                None
            }
        },
        None => None,
    }
}

} // verus!
