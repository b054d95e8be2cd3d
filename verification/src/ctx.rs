//! Request context: the authenticated caller's identity, attached to one
//! request by the resolver middleware and read by handlers and the mapper.

use vstd::prelude::*;

verus! {

/// The authenticated identity for the duration of one request.
/// Constructed once from a validated credential and never changed.
#[derive(Clone, Copy, Debug, PartialEq, Eq, Structural)]
pub struct Ctx {
    pub user_id: u64,
}

impl Ctx {
    pub fn new(user_id: u64) -> (r: Ctx)
        ensures
            r == (Ctx { user_id }),
    {
        Ctx { user_id }
    }

    pub fn user_id(&self) -> (r: u64)
        ensures
            r == self.user_id,
    {
        self.user_id
    }
}

} // verus!
