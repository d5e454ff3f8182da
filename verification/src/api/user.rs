//! The user payload.

use vstd::prelude::*;

verus! {

/// A user to create or update.
#[derive(Debug)]
pub struct User {
    pub username: String,
    pub password_hash: String,
}

} // verus!
