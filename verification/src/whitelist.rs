//! A whitelist entry pairing a creator with an asset.

use vstd::prelude::*;

use crate::pubkey::Pubkey;

verus! {

/// Records that `creator` may open a pool for `token_mint`.
#[derive(Clone, Copy, Debug, PartialEq, Eq, Structural)]
pub struct Whitelist {
    pub creator: Pubkey,
    pub token_mint: Pubkey,
}

impl Whitelist {
    /// Builds a whitelist entry.
    pub fn new(creator: Pubkey, token_mint: Pubkey) -> (w: Whitelist)
        ensures
            w.creator == creator,
            w.token_mint == token_mint,
    {
        Whitelist { creator, token_mint }
    }
}

} // verus!
