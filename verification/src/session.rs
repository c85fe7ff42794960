//! The session artefact: a single sealed cookie whose plaintext is the
//! user id.  The surrounding application seals and opens the cookie;
//! the library sees the recovered content, or nothing when the cookie
//! is absent or fails to open.

use vstd::prelude::*;

verus! {

/// The request's cookie jar after unsealing: the `user_id` cookie's
/// integer content, when a valid one is present.
pub struct Cookies {
    pub user_id: Option<i32>,
}

impl Cookies {
    /// A jar with no session cookie.
    pub fn empty() -> (r: Cookies)
        ensures
            r.user_id is None,
    {
        Cookies { user_id: None }
    }
}

} // verus!
