//! The authenticated caller, as established by the transport layer.

use vstd::prelude::*;

verus! {

/// A caller identity: `id` is present exactly when a valid token identified
/// the user.
pub struct User {
    pub id: Option<i64>,
}

impl User {
    /// True exactly when the request carried a valid identity.
    pub fn is_authenticated(&self) -> (r: bool)
        ensures
            r == self.id is Some,
    {
        self.id.is_some()
    }
}

} // verus!
