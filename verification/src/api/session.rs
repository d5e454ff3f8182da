//! The session payload.

use vstd::prelude::*;

verus! {

/// A recording session, owned by a user.
#[derive(Debug)]
pub struct Session {
    pub username: String,
}

} // verus!
