//! The accrual engine: advancing the global accumulator and settling a
//! position's pending reward and debt.
//!
//! Both operations are all-or-nothing: on any error the records are exactly
//! as they were. The spec functions here are the mathematical model that the
//! contracts of [`StakingConfig::advance`] and [`StakingConfig::deposit`]
//! speak of, and that the laws in [`crate::laws`] build on.

use vstd::arithmetic::div_mod::lemma_fundamental_div_mod;
use vstd::arithmetic::div_mod::lemma_mod_bound;
use vstd::arithmetic::mul::lemma_mul_inequality;
use vstd::arithmetic::mul::lemma_mul_upper_bound;
use vstd::prelude::*;

use crate::constants::PRECISION;
use crate::errors::ErrorCode;
use crate::staking_config::StakingConfig;
use crate::user_info::UserInfo;

verus! {

/// The accrual clock never reads past the end of the emission window: time
/// is clamped to `period_end`.
pub open spec fn eff_time(pool: StakingConfig, now: u64) -> u64 {
    if now > pool.period_end {
        pool.period_end
    } else {
        now
    }
}

/// Seconds of emission newly covered by advancing the pool to `now`; zero
/// when the (clamped) clock did not move forward.
pub open spec fn elapsed_time(pool: StakingConfig, now: u64) -> int {
    if eff_time(pool, now) > pool.last_updated {
        eff_time(pool, now) - pool.last_updated
    } else {
        0
    }
}

/// The scaled emission of the newly covered interval:
/// `reward_per_second * PRECISION * elapsed`.
pub open spec fn interval_emission(pool: StakingConfig, now: u64) -> int {
    pool.reward_per_second * PRECISION * elapsed_time(pool, now)
}

/// What the accumulator grows by: the interval's scaled emission divided
/// (floor) across the stake present *before* the operation. When nothing is
/// staked the interval's emission is dropped, never retroactively assigned.
pub open spec fn accrual_delta(pool: StakingConfig, now: u64) -> int {
    if pool.total_staked == 0 {
        0
    } else {
        interval_emission(pool, now) / pool.total_staked as int
    }
}

/// Exactly when advancing to `now` exceeds the representable range: the wide
/// (double-width) intermediate emission, or the accumulator itself.
pub open spec fn advance_overflows(pool: StakingConfig, now: u64) -> bool {
    &&& elapsed_time(pool, now) > 0
    &&& pool.total_staked > 0
    &&& (interval_emission(pool, now) > u128::MAX || pool.reward_per_token_stored
        + accrual_delta(pool, now) > u64::MAX)
}

/// The pool after a successful advance to `now`: accumulator grown by
/// [`accrual_delta`], clock moved to the clamped `now`, all else unchanged.
pub open spec fn advanced(pool: StakingConfig, now: u64) -> StakingConfig {
    if elapsed_time(pool, now) > 0 {
        StakingConfig {
            last_updated: eff_time(pool, now),
            reward_per_token_stored: (pool.reward_per_token_stored + accrual_delta(
                pool,
                now,
            )) as u64,
            ..pool
        }
    } else {
        pool
    }
}

/// A position's gross entitlement against an accumulator value, in reward
/// units: `staked * rpts / PRECISION` (floor).
pub open spec fn entitlement(staked: u64, rpts: u64) -> int {
    staked * rpts / PRECISION as int
}

/// The reward newly owed to `pos` once the pool has advanced to `now`:
/// current entitlement minus the reward debt.
pub open spec fn pending_reward(pool: StakingConfig, pos: UserInfo, now: u64) -> int {
    entitlement(pos.staked_amount, advanced(pool, now).reward_per_token_stored) - pos.reward_debt
}

/// Which error a deposit of `amount` at `now` reports, if any, tested in
/// the order the operation runs.
pub open spec fn deposit_error(pool: StakingConfig, pos: UserInfo, amount: u64, now: u64) -> Option<
    ErrorCode,
> {
    let adv = advanced(pool, now);
    let ent0 = entitlement(pos.staked_amount, adv.reward_per_token_stored);
    if now > pool.period_end {
        Some(ErrorCode::PeriodEnded)
    } else if advance_overflows(pool, now) {
        Some(ErrorCode::ArithmeticOverflow)
    } else if ent0 > u64::MAX {
        Some(ErrorCode::ArithmeticOverflow)
    } else if ent0 < pos.reward_debt {
        Some(ErrorCode::ArithmeticUnderflow)
    } else if pos.staked_amount + amount > u64::MAX {
        Some(ErrorCode::ArithmeticOverflow)
    } else if pool.total_staked + amount > u64::MAX {
        Some(ErrorCode::ArithmeticOverflow)
    } else if entitlement((pos.staked_amount + amount) as u64, adv.reward_per_token_stored)
        > u64::MAX {
        Some(ErrorCode::ArithmeticOverflow)
    } else if pos.reward_claimed + (ent0 - pos.reward_debt) > u64::MAX {
        Some(ErrorCode::ArithmeticOverflow)
    } else {
        None
    }
}

/// The pool after a successful deposit: advanced to `now`, with the new
/// stake counted into `total_staked` only after the interval's accrual.
pub open spec fn deposited_pool(pool: StakingConfig, amount: u64, now: u64) -> StakingConfig {
    StakingConfig {
        total_staked: (pool.total_staked + amount) as u64,
        ..advanced(pool, now)
    }
}

/// The position after a successful deposit: stake grown, debt reset to fully
/// cover the new stake against the advanced accumulator, pending reward
/// moved into `reward_claimed`.
pub open spec fn deposited_position(
    pool: StakingConfig,
    pos: UserInfo,
    amount: u64,
    now: u64,
) -> UserInfo {
    UserInfo {
        user: pos.user,
        staked_amount: (pos.staked_amount + amount) as u64,
        reward_claimed: (pos.reward_claimed + pending_reward(pool, pos, now)) as u64,
        last_updated: now,
        reward_debt: entitlement(
            (pos.staked_amount + amount) as u64,
            advanced(pool, now).reward_per_token_stored,
        ) as u64,
    }
}

/// Floor division stays under its argument: `d * (x / d)` is at most `x` and
/// exceeds `x - d`.
pub proof fn lemma_div_mul_bounds(x: int, d: int)
    requires
        x >= 0,
        d > 0,
    ensures
        0 <= d * (x / d) <= x,
        d * (x / d) > x - d,
        x / d >= 0,
{
    lemma_fundamental_div_mod(x, d);
    lemma_mod_bound(x, d);
}

/// The quotient test for a product bound: `a * b` exceeds `m` exactly when
/// `a` exceeds `m / b`.
pub proof fn lemma_mul_div_guard(a: int, b: int, m: int)
    requires
        a >= 0,
        b > 0,
        m >= 0,
    ensures
        a > m / b <==> a * b > m,
{
    lemma_div_mul_bounds(m, b);
    vstd::arithmetic::mul::lemma_mul_is_commutative(b, m / b);
    if a > m / b {
        lemma_mul_inequality(m / b + 1, a, b);
        vstd::arithmetic::mul::lemma_mul_is_distributive_add_other_way(b, m / b, 1);
    } else {
        lemma_mul_inequality(a, m / b, b);
    }
}

/// A product of two 64-bit values fits in the double-width intermediate.
pub proof fn lemma_u64_mul_fits(a: u64, b: u64)
    ensures
        0 <= a * b <= u128::MAX,
{
    lemma_mul_upper_bound(a as int, u64::MAX as int, b as int, u64::MAX as int);
    vstd::arithmetic::mul::lemma_mul_nonnegative(a as int, b as int);
}

/// Entitlement is monotone in the accumulator.
pub proof fn lemma_entitlement_monotone(s: u64, r1: u64, r2: u64)
    requires
        r1 <= r2,
    ensures
        entitlement(s, r1) <= entitlement(s, r2),
{
    lemma_mul_inequality(r1 as int, r2 as int, s as int);
    vstd::arithmetic::mul::lemma_mul_is_commutative(s as int, r1 as int);
    vstd::arithmetic::mul::lemma_mul_is_commutative(s as int, r2 as int);
    vstd::arithmetic::div_mod::lemma_div_is_ordered(
        s as int * r1 as int,
        s as int * r2 as int,
        PRECISION as int,
    );
}

/// A debt that is covered in scaled units is covered by the floored
/// entitlement too.
pub proof fn lemma_debt_le_entitlement(debt: u64, s: u64, r: u64)
    requires
        debt * PRECISION <= s * r,
    ensures
        debt <= entitlement(s, r),
{
    vstd::arithmetic::div_mod::lemma_div_is_ordered(
        debt as int * PRECISION as int,
        s as int * r as int,
        PRECISION as int,
    );
    vstd::arithmetic::div_mod::lemma_div_by_multiple(debt as int, PRECISION as int);
    vstd::arithmetic::mul::lemma_mul_is_commutative(debt as int, PRECISION as int);
}

impl StakingConfig {
    /// Brings the reward-per-token accumulator up to date for `now`.
    ///
    /// No-op when the clamped clock has not moved past `last_updated`
    /// (idempotent under repeated calls with the same `now`). When time has
    /// passed but nothing is staked, only the clock advances: that
    /// interval's emission is dropped. Never reads past `period_end`. On
    /// overflow the pool is left untouched.
    pub fn advance(&mut self, now: u64) -> (r: Result<(), ErrorCode>)
        requires
            old(self).wf(),
        ensures
            r is Ok <==> !advance_overflows(*old(self), now),
            r is Ok ==> *final(self) == advanced(*old(self), now),
            r is Err ==> *final(self) == *old(self) && r->Err_0 == ErrorCode::ArithmeticOverflow,
            final(self).wf(),
            final(self).reward_per_token_stored >= old(self).reward_per_token_stored,
            old(self).total_staked == 0 ==> final(self).reward_per_token_stored == old(
                self,
            ).reward_per_token_stored,
    {
        let eff: u64 = if now > self.period_end {
            self.period_end
        } else {
            now
        };
        if eff <= self.last_updated {
            return Ok(());
        }
        let elapsed: u64 = eff - self.last_updated;
        if self.total_staked == 0 {
            self.last_updated = eff;
            return Ok(());
        }
        proof {
            lemma_u64_mul_fits(self.reward_per_second, PRECISION);
        }
        let scaled: u128 = (self.reward_per_second as u128) * (PRECISION as u128);
        proof {
            lemma_mul_div_guard(scaled as int, elapsed as int, u128::MAX as int);
        }
        if scaled > u128::MAX / (elapsed as u128) {
            return Err(ErrorCode::ArithmeticOverflow);
        }
        let emission: u128 = scaled * (elapsed as u128);
        let delta_wide: u128 = emission / (self.total_staked as u128);
        if delta_wide > (u64::MAX as u128) {
            return Err(ErrorCode::ArithmeticOverflow);
        }
        let delta: u64 = delta_wide as u64;
        if delta > u64::MAX - self.reward_per_token_stored {
            return Err(ErrorCode::ArithmeticOverflow);
        }
        self.reward_per_token_stored = self.reward_per_token_stored + delta;
        self.last_updated = eff;
        Ok(())
    }

    /// Deposits `amount` for `position`, settling its pending reward first.
    ///
    /// The accumulator is advanced against the pre-deposit stake, the
    /// pending reward (entitlement minus debt) is computed, and only then do
    /// stake, debt and the claimed total change. Returns the pending reward
    /// that the caller owes the user through the asset-transfer primitive.
    /// Rejected outright once the emission window has closed; on any error
    /// neither record changes.
    pub fn deposit(&mut self, position: &mut UserInfo, amount: u64, now: u64) -> (r: Result<
        u64,
        ErrorCode,
    >)
        requires
            old(self).wf(),
            amount > 0,
        ensures
            r is Ok <==> deposit_error(*old(self), *old(position), amount, now) is None,
            r is Ok ==> r->Ok_0 == pending_reward(*old(self), *old(position), now) && *final(self)
                == deposited_pool(*old(self), amount, now) && *final(position)
                == deposited_position(*old(self), *old(position), amount, now),
            r is Err ==> Some(r->Err_0) == deposit_error(*old(self), *old(position), amount, now)
                && *final(self) == *old(self) && *final(position) == *old(position),
            final(self).wf(),
            final(self).reward_per_token_stored >= old(self).reward_per_token_stored,
            now > old(self).period_end ==> r == Err::<u64, ErrorCode>(ErrorCode::PeriodEnded),
            old(position).reward_debt * PRECISION <= old(position).staked_amount * old(
                self,
            ).reward_per_token_stored ==> r != Err::<u64, ErrorCode>(
                ErrorCode::ArithmeticUnderflow,
            ),
    {
        if now > self.period_end {
            return Err(ErrorCode::PeriodEnded);
        }
        let mut pool: StakingConfig = *self;
        let pos: UserInfo = *position;
        match pool.advance(now) {
            Err(e) => {
                return Err(e);
            },
            Ok(()) => {},
        }
        proof {
            lemma_u64_mul_fits(pos.staked_amount, pool.reward_per_token_stored);
            if old(position).reward_debt * PRECISION <= old(position).staked_amount * old(
                self,
            ).reward_per_token_stored {
                lemma_entitlement_monotone(
                    pos.staked_amount,
                    old(self).reward_per_token_stored,
                    pool.reward_per_token_stored,
                );
                lemma_debt_le_entitlement(
                    pos.reward_debt,
                    pos.staked_amount,
                    old(self).reward_per_token_stored,
                );
            }
        }
        let ent_wide: u128 = (pos.staked_amount as u128) * (pool.reward_per_token_stored as u128)
            / (PRECISION as u128);
        if ent_wide > (u64::MAX as u128) {
            return Err(ErrorCode::ArithmeticOverflow);
        }
        let reward_before_debt: u64 = ent_wide as u64;
        if reward_before_debt < pos.reward_debt {
            return Err(ErrorCode::ArithmeticUnderflow);
        }
        let pending: u64 = reward_before_debt - pos.reward_debt;
        if amount > u64::MAX - pos.staked_amount {
            return Err(ErrorCode::ArithmeticOverflow);
        }
        let new_staked: u64 = pos.staked_amount + amount;
        if amount > u64::MAX - pool.total_staked {
            return Err(ErrorCode::ArithmeticOverflow);
        }
        let new_total: u64 = pool.total_staked + amount;
        proof {
            lemma_u64_mul_fits(new_staked, pool.reward_per_token_stored);
        }
        let debt_wide: u128 = (new_staked as u128) * (pool.reward_per_token_stored as u128) / (
        PRECISION as u128);
        if debt_wide > (u64::MAX as u128) {
            return Err(ErrorCode::ArithmeticOverflow);
        }
        let new_debt: u64 = debt_wide as u64;
        if pending > u64::MAX - pos.reward_claimed {
            return Err(ErrorCode::ArithmeticOverflow);
        }
        let new_claimed: u64 = pos.reward_claimed + pending;
        pool.total_staked = new_total;
        *self = pool;
        *position = UserInfo {
            user: pos.user,
            staked_amount: new_staked,
            reward_claimed: new_claimed,
            last_updated: now,
            reward_debt: new_debt,
        };
        Ok(pending)
    }
}

} // verus!
