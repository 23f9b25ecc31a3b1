//! Identities of accounts, owners and assets.
//!
//! The engine never inspects key material; it only compares identities and
//! tests for the all-zero placeholder. A plain integer id carries exactly
//! that much.

use vstd::prelude::*;

verus! {

/// An opaque identity: a user, a pool owner or an asset type.
#[derive(Clone, Copy, Debug, PartialEq, Eq, Structural)]
pub struct Pubkey {
    pub id: u64,
}

impl Pubkey {
    /// The placeholder identity that callers pass to mean "unset".
    pub open spec fn is_zero(self) -> bool {
        self.id == 0
    }

    /// Builds the identity with the given id.
    pub fn new(id: u64) -> (r: Pubkey)
        ensures
            r.id == id,
    {
        Pubkey { id }
    }
}

impl Default for Pubkey {
    /// The all-zero placeholder identity.
    fn default() -> (r: Pubkey)
        ensures
            r.is_zero(),
    {
        Pubkey { id: 0 }
    }
}

} // verus!
