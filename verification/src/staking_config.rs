//! The pool record: emission schedule and the global reward accumulator.

use vstd::prelude::*;

use crate::errors::ErrorCode;
use crate::pubkey::Pubkey;

verus! {

/// The per-asset pool: its emission window, committed reward, aggregate stake
/// and the fixed-point reward-per-token accumulator.
///
/// `reward_per_token_stored` is the cumulative reward earned per unit staked
/// since the pool opened, scaled by [`crate::constants::PRECISION`]; it never
/// decreases. `reward_per_second` is fixed once, at open time, as
/// `total_reward / (period_end - period_start)` with floor division — the
/// remainder is permanently unemitted dust.
#[derive(Clone, Copy, Debug, PartialEq, Eq, Structural)]
pub struct StakingConfig {
    pub owner: Pubkey,
    pub period_start: u64,
    pub period_end: u64,
    pub last_updated: u64,
    pub total_staked: u64,
    pub total_reward: u64,
    pub token_mint: Pubkey,
    pub reward_per_second: u64,
    pub reward_per_token_stored: u64,
}

impl StakingConfig {
    /// Well-formedness of a pool record, established at open time and
    /// preserved by every operation: the emission window is non-empty, the
    /// accumulator clock sits inside it, and the per-second rate is the one
    /// fixed from the committed reward.
    pub open spec fn wf(self) -> bool {
        &&& self.period_start < self.period_end
        &&& self.period_start <= self.last_updated
        &&& self.last_updated <= self.period_end
        &&& self.reward_per_second == self.total_reward as int / (self.period_end
            - self.period_start)
    }

    /// Overwrites every field of the pool record, rejecting an empty or
    /// inverted emission window.
    pub fn set_values(
        &mut self,
        owner: Pubkey,
        period_start: u64,
        period_end: u64,
        total_staked: u64,
        last_updated: u64,
        total_reward: u64,
        token_mint: Pubkey,
        reward_per_second: u64,
        reward_per_token_stored: u64,
    ) -> (r: Result<(), ErrorCode>)
        ensures
            r is Ok <==> period_end > period_start,
            r is Err ==> r->Err_0 == ErrorCode::InvalidPeriod && *final(self) == *old(self),
            r is Ok ==> *final(self) == (StakingConfig {
                owner,
                period_start,
                period_end,
                last_updated,
                total_staked,
                total_reward,
                token_mint,
                reward_per_second,
                reward_per_token_stored,
            }),
    {
        if period_end <= period_start {
            return Err(ErrorCode::InvalidPeriod);
        }
        self.owner = owner;
        self.period_start = period_start;
        self.period_end = period_end;
        self.last_updated = last_updated;
        self.total_staked = total_staked;
        self.total_reward = total_reward;
        self.token_mint = token_mint;
        self.reward_per_second = reward_per_second;
        self.reward_per_token_stored = reward_per_token_stored;
        Ok(())
    }

    /// Opens a pool: fixes the emission window `[now, period_end]` and the
    /// per-second rate, and starts with nothing staked and a zero
    /// accumulator.
    ///
    /// Returns `Err(InvalidPeriod)` exactly when the window would be empty
    /// (`period_end <= now`). The caller is expected to move `total_reward`
    /// units into the pool's reward custody only once this returns `Ok`.
    pub fn start_staking(
        owner: Pubkey,
        token_mint: Pubkey,
        period_end: u64,
        total_reward: u64,
        now: u64,
    ) -> (r: Result<StakingConfig, ErrorCode>)
        requires
            total_reward > 0,
        ensures
            r is Ok <==> period_end > now,
            r is Err ==> r->Err_0 == ErrorCode::InvalidPeriod,
            r is Ok ==> r->Ok_0 == (StakingConfig {
                owner,
                period_start: now,
                period_end,
                last_updated: now,
                total_staked: 0,
                total_reward,
                token_mint,
                reward_per_second: (total_reward as int / (period_end - now)) as u64,
                reward_per_token_stored: 0,
            }),
            r is Ok ==> r->Ok_0.wf(),
    {
        if period_end <= now {
            return Err(ErrorCode::InvalidPeriod);
        }
        let duration: u64 = period_end - now;
        let reward_per_second: u64 = total_reward / duration;
        Ok(
            StakingConfig {
                owner,
                period_start: now,
                period_end,
                last_updated: now,
                total_staked: 0,
                total_reward,
                token_mint,
                reward_per_second,
                reward_per_token_stored: 0,
            },
        )
    }
}

} // verus!
