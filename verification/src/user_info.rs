//! The position record: one user's stake and reward debt within one pool.

use vstd::prelude::*;

use crate::pubkey::Pubkey;

verus! {

/// A single user's position in a pool.
///
/// `reward_debt` is the portion of `staked_amount * reward_per_token_stored /
/// PRECISION` already accounted for (paid out or absorbed at stake time); it
/// prevents double payment of rewards earned before the last settlement.
/// `reward_claimed` is the cumulative reward actually paid to the user.
#[derive(Clone, Copy, Debug, PartialEq, Eq, Structural)]
pub struct UserInfo {
    pub user: Pubkey,
    pub staked_amount: u64,
    pub reward_claimed: u64,
    pub last_updated: u64,
    pub reward_debt: u64,
}

impl UserInfo {
    /// The empty position a user holds before their first deposit.
    pub open spec fn fresh(user: Pubkey) -> UserInfo {
        UserInfo { user, staked_amount: 0, reward_claimed: 0, last_updated: 0, reward_debt: 0 }
    }

    /// Builds the empty position for `user`; the first deposit fills it.
    pub fn new(user: Pubkey) -> (p: UserInfo)
        ensures
            p == UserInfo::fresh(user),
    {
        UserInfo { user, staked_amount: 0, reward_claimed: 0, last_updated: 0, reward_debt: 0 }
    }
}

} // verus!
