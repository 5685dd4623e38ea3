//! Per-request context: the store image, the session binding, and the
//! request time, passed explicitly into every core call.

use vstd::prelude::*;

use crate::store::Store;

verus! {

/// The session binding: which user, if any, the current session speaks for.
/// Absence of a binding is a normal state, not an error.
pub struct Session {
    pub user_id: Option<u64>,
}

impl Session {
    /// A session with no user bound.
    pub fn new() -> (r: Session)
        ensures
            r.user_id is None,
    {
        Session { user_id: None }
    }
}

/// Everything one request works with: the store, the caller's session, and
/// the request time in ticks (set by the transport once per request).
pub struct Context {
    pub store: Store,
    pub session: Session,
    pub now: u64,
}

} // verus!
