//! System-wide laws of the accrual engine, proved over the same spec
//! functions that the executable contracts use.
//!
//! A [`Ledger`] is the ghost view of one pool together with all of its
//! positions; [`PoolOp`] and [`apply_ops`] replay any sequence of
//! accumulator advances and deposits exactly as the executable `advance` and
//! `deposit` perform them (their `ensures` pin each step to the same spec
//! functions). On top of that machine this module proves conservation of
//! value and monotonicity of the accumulator.

use vstd::arithmetic::div_mod::lemma_fundamental_div_mod;
use vstd::arithmetic::div_mod::lemma_mod_bound;
use vstd::arithmetic::mul::lemma_mul_inequality;
use vstd::arithmetic::mul::lemma_mul_is_associative;
use vstd::arithmetic::mul::lemma_mul_is_commutative;
use vstd::arithmetic::mul::lemma_mul_is_distributive_add;
use vstd::arithmetic::mul::lemma_mul_is_distributive_add_other_way;
use vstd::arithmetic::mul::lemma_mul_is_distributive_sub;
use vstd::arithmetic::mul::lemma_mul_is_distributive_sub_other_way;
use vstd::arithmetic::mul::lemma_mul_nonnegative;
use vstd::prelude::*;

use crate::accrual::accrual_delta;
use crate::accrual::advance_overflows;
use crate::accrual::advanced;
use crate::accrual::deposit_error;
use crate::accrual::deposited_pool;
use crate::accrual::deposited_position;
use crate::accrual::elapsed_time;
use crate::accrual::entitlement;
use crate::accrual::interval_emission;
use crate::accrual::lemma_div_mul_bounds;
use crate::accrual::pending_reward;
use crate::constants::PRECISION;
use crate::pubkey::Pubkey;
use crate::staking_config::StakingConfig;
use crate::user_info::UserInfo;

verus! {

/// The ghost view of one pool together with all of its positions.
pub struct Ledger {
    pub pool: StakingConfig,
    pub positions: Seq<UserInfo>,
}

/// One operation against a pool: an accumulator advance, or a deposit into
/// the position at `idx` (`idx == positions.len()` opens a new position for
/// `user`).
pub enum PoolOp {
    Advance { now: u64 },
    Deposit { idx: int, user: Pubkey, amount: u64, now: u64 },
}

/// The position a deposit settles: an existing one, or the empty position a
/// first deposit starts from.
pub open spec fn target(l: Ledger, idx: int, user: Pubkey) -> UserInfo {
    if idx < l.positions.len() {
        l.positions[idx]
    } else {
        UserInfo::fresh(user)
    }
}

/// When an operation runs without error, exactly as the executable
/// functions report it.
pub open spec fn op_enabled(l: Ledger, op: PoolOp) -> bool {
    match op {
        PoolOp::Advance { now } => !advance_overflows(l.pool, now),
        PoolOp::Deposit { idx, user, amount, now } => {
            &&& 0 <= idx <= l.positions.len()
            &&& amount > 0
            &&& deposit_error(l.pool, target(l, idx, user), amount, now) is None
        },
    }
}

/// The ledger after one successful operation.
pub open spec fn op_step(l: Ledger, op: PoolOp) -> Ledger {
    match op {
        PoolOp::Advance { now } => Ledger { pool: advanced(l.pool, now), positions: l.positions },
        PoolOp::Deposit { idx, user, amount, now } => {
            let pos1 = deposited_position(l.pool, target(l, idx, user), amount, now);
            Ledger {
                pool: deposited_pool(l.pool, amount, now),
                positions: if idx < l.positions.len() {
                    l.positions.update(idx, pos1)
                } else {
                    l.positions.push(pos1)
                },
            }
        },
    }
}

/// Every operation of the sequence runs without error from `l` on.
pub open spec fn ops_enabled(l: Ledger, ops: Seq<PoolOp>) -> bool
    decreases ops.len(),
{
    ops.len() == 0 || (op_enabled(l, ops[0]) && ops_enabled(op_step(l, ops[0]), ops.drop_first()))
}

/// The ledger after the whole sequence.
pub open spec fn apply_ops(l: Ledger, ops: Seq<PoolOp>) -> Ledger
    decreases ops.len(),
{
    if ops.len() == 0 {
        l
    } else {
        apply_ops(op_step(l, ops[0]), ops.drop_first())
    }
}

/// How many of the operations are deposits.
pub open spec fn count_deposits(ops: Seq<PoolOp>) -> int
    decreases ops.len(),
{
    if ops.len() == 0 {
        0
    } else {
        (if ops[0] is Deposit {
            1int
        } else {
            0int
        }) + count_deposits(ops.drop_first())
    }
}

/// Total principal staked across the positions.
pub open spec fn sum_staked(ps: Seq<UserInfo>) -> int
    decreases ps.len(),
{
    if ps.len() == 0 {
        0
    } else {
        ps[0].staked_amount + sum_staked(ps.drop_first())
    }
}

/// Total reward paid out across the positions.
pub open spec fn sum_claimed(ps: Seq<UserInfo>) -> int
    decreases ps.len(),
{
    if ps.len() == 0 {
        0
    } else {
        ps[0].reward_claimed + sum_claimed(ps.drop_first())
    }
}

/// Total reward debt across the positions.
pub open spec fn sum_debt(ps: Seq<UserInfo>) -> int
    decreases ps.len(),
{
    if ps.len() == 0 {
        0
    } else {
        ps[0].reward_debt + sum_debt(ps.drop_first())
    }
}

/// A position's debt never exceeds its scaled entitlement against the
/// accumulator; settlement establishes this and accumulator growth keeps it.
pub open spec fn pos_settled(rpts: u64, p: UserInfo) -> bool {
    p.reward_debt * PRECISION <= p.staked_amount * rpts
}

/// The ledger invariant: a well-formed pool, `total_staked` really is the
/// sum of the stakes, and every position's debt is covered.
pub open spec fn ledger_inv(l: Ledger) -> bool {
    &&& l.pool.wf()
    &&& sum_staked(l.positions) == l.pool.total_staked
    &&& forall|i: int|
        0 <= i < l.positions.len() ==> pos_settled(
            l.pool.reward_per_token_stored,
            #[trigger] l.positions[i],
        )
}

/// Everything paid out plus every position's scaled pending entitlement, in
/// scaled reward units.
pub open spec fn payout_measure(l: Ledger) -> int {
    PRECISION * sum_claimed(l.positions) + l.pool.reward_per_token_stored * sum_staked(l.positions)
        - PRECISION * sum_debt(l.positions)
}

/// The scaled emission the pool has released up to its accrual clock.
pub open spec fn released_budget(pool: StakingConfig) -> int {
    pool.reward_per_second * PRECISION * (pool.last_updated - pool.period_start)
}

/// A pool as `start_staking` opens it, with no positions yet.
pub open spec fn fresh_ledger(l: Ledger) -> bool {
    &&& l.pool.wf()
    &&& l.pool.last_updated == l.pool.period_start
    &&& l.pool.total_staked == 0
    &&& l.pool.reward_per_token_stored == 0
    &&& l.positions.len() == 0
}

proof fn lemma_sums_update(ps: Seq<UserInfo>, i: int, v: UserInfo)
    requires
        0 <= i < ps.len(),
    ensures
        sum_staked(ps.update(i, v)) == sum_staked(ps) - ps[i].staked_amount + v.staked_amount,
        sum_claimed(ps.update(i, v)) == sum_claimed(ps) - ps[i].reward_claimed + v.reward_claimed,
        sum_debt(ps.update(i, v)) == sum_debt(ps) - ps[i].reward_debt + v.reward_debt,
    decreases ps.len(),
{
    if i == 0 {
        assert(ps.update(0, v).drop_first() =~= ps.drop_first());
        assert(ps.update(0, v)[0] == v);
    } else {
        assert(ps.update(i, v).drop_first() =~= ps.drop_first().update(i - 1, v));
        assert(ps.update(i, v)[0] == ps[0]);
        assert(ps.drop_first()[i - 1] == ps[i]);
        lemma_sums_update(ps.drop_first(), i - 1, v);
    }
}

proof fn lemma_sums_push(ps: Seq<UserInfo>, v: UserInfo)
    ensures
        sum_staked(ps.push(v)) == sum_staked(ps) + v.staked_amount,
        sum_claimed(ps.push(v)) == sum_claimed(ps) + v.reward_claimed,
        sum_debt(ps.push(v)) == sum_debt(ps) + v.reward_debt,
    decreases ps.len(),
{
    let whole = ps.push(v);
    assert(whole.len() == ps.len() + 1);
    assert(sum_staked(whole) == whole[0].staked_amount + sum_staked(whole.drop_first()));
    assert(sum_claimed(whole) == whole[0].reward_claimed + sum_claimed(whole.drop_first()));
    assert(sum_debt(whole) == whole[0].reward_debt + sum_debt(whole.drop_first()));
    if ps.len() == 0 {
        assert(whole.drop_first() =~= Seq::<UserInfo>::empty());
        assert(whole[0] == v);
        assert(sum_staked(Seq::<UserInfo>::empty()) == 0);
        assert(sum_claimed(Seq::<UserInfo>::empty()) == 0);
        assert(sum_debt(Seq::<UserInfo>::empty()) == 0);
    } else {
        assert(whole.drop_first() =~= ps.drop_first().push(v));
        assert(whole[0] == ps[0]);
        lemma_sums_push(ps.drop_first(), v);
    }
}

proof fn lemma_settled_sums(ps: Seq<UserInfo>, rpts: u64)
    requires
        forall|i: int| 0 <= i < ps.len() ==> pos_settled(rpts, #[trigger] ps[i]),
    ensures
        PRECISION * sum_debt(ps) <= rpts * sum_staked(ps),
    decreases ps.len(),
{
    if ps.len() > 0 {
        let rest = ps.drop_first();
        assert forall|i: int| 0 <= i < rest.len() implies pos_settled(rpts, #[trigger] rest[i]) by {
            assert(rest[i] == ps[i + 1]);
        }
        lemma_settled_sums(rest, rpts);
        assert(pos_settled(rpts, ps[0]));
        lemma_mul_is_distributive_add(
            rpts as int,
            ps[0].staked_amount as int,
            sum_staked(rest),
        );
        lemma_mul_is_commutative(ps[0].reward_debt as int, PRECISION as int);
        lemma_mul_is_commutative(ps[0].staked_amount as int, rpts as int);
    }
}

proof fn lemma_advance_step(l: Ledger, now: u64)
    requires
        ledger_inv(l),
        !advance_overflows(l.pool, now),
    ensures
        ledger_inv(op_step(l, PoolOp::Advance { now })),
        payout_measure(op_step(l, PoolOp::Advance { now })) - released_budget(
            advanced(l.pool, now),
        ) <= payout_measure(l) - released_budget(l.pool),
        advanced(l.pool, now).reward_per_token_stored >= l.pool.reward_per_token_stored,
        advanced(l.pool, now).total_reward == l.pool.total_reward,
        advanced(l.pool, now).period_start == l.pool.period_start,
        advanced(l.pool, now).period_end == l.pool.period_end,
        advanced(l.pool, now).reward_per_second == l.pool.reward_per_second,
{
    let pool = l.pool;
    let adv = advanced(pool, now);
    let rate = pool.reward_per_second as int * PRECISION as int;
    lemma_mul_nonnegative(pool.reward_per_second as int, PRECISION as int);
    if elapsed_time(pool, now) > 0 {
        let e = elapsed_time(pool, now);
        lemma_mul_is_distributive_sub(
            rate,
            adv.last_updated - pool.period_start,
            pool.last_updated - pool.period_start,
        );
        lemma_mul_nonnegative(rate, e);
        if pool.total_staked == 0 {
            assert(accrual_delta(pool, now) == 0);
        } else {
            let emitted = interval_emission(pool, now);
            let delta = accrual_delta(pool, now);
            lemma_div_mul_bounds(emitted, pool.total_staked as int);
            lemma_mul_is_commutative(pool.total_staked as int, delta);
            lemma_mul_is_distributive_sub_other_way(
                sum_staked(l.positions),
                adv.reward_per_token_stored as int,
                pool.reward_per_token_stored as int,
            );
            lemma_mul_is_commutative(delta, sum_staked(l.positions));
        }
    }
    assert forall|i: int|
        0 <= i < l.positions.len() implies pos_settled(
        adv.reward_per_token_stored,
        #[trigger] l.positions[i],
    ) by {
        lemma_mul_inequality(
            pool.reward_per_token_stored as int,
            adv.reward_per_token_stored as int,
            l.positions[i].staked_amount as int,
        );
        lemma_mul_is_commutative(
            l.positions[i].staked_amount as int,
            pool.reward_per_token_stored as int,
        );
        lemma_mul_is_commutative(
            l.positions[i].staked_amount as int,
            adv.reward_per_token_stored as int,
        );
    }
}

proof fn lemma_deposit_step(l: Ledger, idx: int, user: Pubkey, amount: u64, now: u64)
    requires
        ledger_inv(l),
        0 <= idx <= l.positions.len(),
        amount > 0,
        deposit_error(l.pool, target(l, idx, user), amount, now) is None,
    ensures
        ledger_inv(op_step(l, PoolOp::Deposit { idx, user, amount, now })),
        payout_measure(op_step(l, PoolOp::Deposit { idx, user, amount, now })) - released_budget(
            op_step(l, PoolOp::Deposit { idx, user, amount, now }).pool,
        ) <= payout_measure(l) - released_budget(l.pool) + (PRECISION - 1),
        op_step(l, PoolOp::Deposit { idx, user, amount, now }).pool.reward_per_token_stored
            >= l.pool.reward_per_token_stored,
        op_step(l, PoolOp::Deposit { idx, user, amount, now }).pool.total_reward
            == l.pool.total_reward,
        op_step(l, PoolOp::Deposit { idx, user, amount, now }).pool.period_start
            == l.pool.period_start,
        op_step(l, PoolOp::Deposit { idx, user, amount, now }).pool.period_end
            == l.pool.period_end,
        op_step(l, PoolOp::Deposit { idx, user, amount, now }).pool.reward_per_second
            == l.pool.reward_per_second,
{
    lemma_advance_step(l, now);
    let pool = l.pool;
    let adv = advanced(pool, now);
    let rpts = adv.reward_per_token_stored;
    let pos0 = target(l, idx, user);
    let s0 = pos0.staked_amount as int;
    let d0 = pos0.reward_debt as int;
    let c0 = pos0.reward_claimed as int;
    let e0 = s0 * rpts as int;
    let e1 = (s0 + amount) * rpts as int;
    let pos1 = deposited_position(pool, pos0, amount, now);
    let l1 = op_step(l, PoolOp::Deposit { idx, user, amount, now });

    // the error tests that came back clean, spelled out
    assert(entitlement(pos0.staked_amount, rpts) == e0 / PRECISION as int);
    assert(e0 / PRECISION as int <= u64::MAX);
    assert(d0 <= e0 / PRECISION as int);
    assert(s0 + amount <= u64::MAX);
    assert(pool.total_staked + amount <= u64::MAX);
    assert(entitlement((pos0.staked_amount + amount) as u64, rpts) == e1 / PRECISION as int);
    assert(e1 / PRECISION as int <= u64::MAX);

    lemma_fundamental_div_mod(e0, PRECISION as int);
    lemma_fundamental_div_mod(e1, PRECISION as int);
    lemma_mul_nonnegative(s0, rpts as int);
    lemma_mul_nonnegative(s0 + amount, rpts as int);
    lemma_mod_bound(e0, PRECISION as int);
    lemma_mod_bound(e1, PRECISION as int);
    lemma_mul_is_distributive_add_other_way(rpts as int, s0, amount as int);
    lemma_mul_is_commutative(amount as int, rpts as int);

    assert(pos1.staked_amount == s0 + amount);
    assert(pos1.reward_debt == e1 / PRECISION as int);
    assert(pos1.reward_claimed == c0 + (e0 / PRECISION as int - d0));

    if idx < l.positions.len() {
        lemma_sums_update(l.positions, idx, pos1);
    } else {
        lemma_sums_push(l.positions, pos1);
    }
    lemma_mul_is_distributive_add(rpts as int, sum_staked(l.positions), amount as int);

    assert(payout_measure(l1) - payout_measure(
        Ledger { pool: adv, positions: l.positions },
    ) == e1 % PRECISION as int - e0 % PRECISION as int);

    // the invariant carries to the new position set
    assert forall|i: int|
        0 <= i < l1.positions.len() implies pos_settled(rpts, #[trigger] l1.positions[i]) by {
        if i < l.positions.len() && l1.positions[i] == l.positions[i] {
            lemma_mul_inequality(
                pool.reward_per_token_stored as int,
                rpts as int,
                l.positions[i].staked_amount as int,
            );
            lemma_mul_is_commutative(
                l.positions[i].staked_amount as int,
                pool.reward_per_token_stored as int,
            );
            lemma_mul_is_commutative(
                l.positions[i].staked_amount as int,
                rpts as int,
            );
        } else {
            assert(l1.positions[i] == pos1);
            lemma_mul_is_commutative(pos1.reward_debt as int, PRECISION as int);
        }
    }
}

proof fn lemma_ops_bound(l: Ledger, ops: Seq<PoolOp>)
    requires
        ledger_inv(l),
        ops_enabled(l, ops),
    ensures
        ledger_inv(apply_ops(l, ops)),
        payout_measure(apply_ops(l, ops)) - released_budget(apply_ops(l, ops).pool)
            <= payout_measure(l) - released_budget(l.pool) + (PRECISION - 1) * count_deposits(ops),
        apply_ops(l, ops).pool.total_reward == l.pool.total_reward,
        apply_ops(l, ops).pool.period_start == l.pool.period_start,
        apply_ops(l, ops).pool.period_end == l.pool.period_end,
        apply_ops(l, ops).pool.reward_per_second == l.pool.reward_per_second,
        apply_ops(l, ops).pool.reward_per_token_stored >= l.pool.reward_per_token_stored,
        count_deposits(ops) >= 0,
    decreases ops.len(),
{
    if ops.len() > 0 {
        let l1 = op_step(l, ops[0]);
        match ops[0] {
            PoolOp::Advance { now } => lemma_advance_step(l, now),
            PoolOp::Deposit { idx, user, amount, now } => lemma_deposit_step(
                l,
                idx,
                user,
                amount,
                now,
            ),
        }
        lemma_ops_bound(l1, ops.drop_first());
    }
}

/// Conservation up to rounding dust: from a freshly opened pool, any
/// sequence of successful advances and deposits pays out in total at most
/// the committed `total_reward`, plus at most one reward unit of
/// floor-rounding dust per deposit. (Equality of the dust-free bound needs
/// the idealized no-rounding-loss case.)
pub proof fn lemma_conservation(l0: Ledger, ops: Seq<PoolOp>)
    requires
        fresh_ledger(l0),
        ops_enabled(l0, ops),
    ensures
        sum_claimed(apply_ops(l0, ops).positions) <= l0.pool.total_reward + count_deposits(ops),
{
    lemma_ops_bound(l0, ops);
    let lf = apply_ops(l0, ops);
    let n = count_deposits(ops);
    let pool = lf.pool;
    let rate = pool.reward_per_second as int * PRECISION as int;
    let dur = l0.pool.period_end - l0.pool.period_start;

    lemma_settled_sums(lf.positions, pool.reward_per_token_stored);
    assert(PRECISION * sum_claimed(lf.positions) <= payout_measure(lf));

    // the budget released so far is at most the whole period's emission,
    // which the committed reward covers
    lemma_mul_nonnegative(pool.reward_per_second as int, PRECISION as int);
    lemma_mul_inequality(pool.last_updated - pool.period_start, dur, rate);
    lemma_mul_is_commutative(pool.last_updated - pool.period_start, rate);
    lemma_mul_is_commutative(dur, rate);
    lemma_div_mul_bounds(l0.pool.total_reward as int, dur);
    lemma_mul_is_commutative(pool.reward_per_second as int, PRECISION as int);
    lemma_mul_is_associative(PRECISION as int, pool.reward_per_second as int, dur);
    assert(rate * dur == PRECISION * (pool.reward_per_second as int * dur));
    lemma_mul_is_commutative(pool.reward_per_second as int, dur);
    assert(pool.reward_per_second as int * dur <= l0.pool.total_reward);
    assert(released_budget(pool) <= PRECISION * l0.pool.total_reward as int);

    assert(PRECISION * sum_claimed(lf.positions) <= PRECISION * l0.pool.total_reward as int + (
    PRECISION - 1) * n);
}

/// Monotonicity: the reward-per-token accumulator never decreases across
/// any enabled sequence of operations.
pub proof fn lemma_monotonicity(l: Ledger, ops: Seq<PoolOp>)
    requires
        ledger_inv(l),
        ops_enabled(l, ops),
    ensures
        apply_ops(l, ops).pool.reward_per_token_stored >= l.pool.reward_per_token_stored,
{
    lemma_ops_bound(l, ops);
}

/// Idempotence under no time advance: once a pool has been advanced to
/// `now`, advancing it to the same `now` again changes nothing, and cannot
/// overflow.
pub proof fn lemma_advance_idempotent(pool: StakingConfig, now: u64)
    requires
        pool.wf(),
    ensures
        advanced(advanced(pool, now), now) == advanced(pool, now),
        !advance_overflows(advanced(pool, now), now),
{
}

/// Single-staker full-period capture: with one position holding the whole
/// stake, a zero accumulator and no debt, the pending reward for the
/// elapsed interval is the interval's full emission, short of strictly
/// less than `total_staked + PRECISION` units of scaled rounding dust.
pub proof fn lemma_single_staker_capture(pool: StakingConfig, pos: UserInfo, now: u64)
    requires
        pool.wf(),
        pool.reward_per_token_stored == 0,
        pool.total_staked == pos.staked_amount,
        pos.staked_amount > 0,
        pos.reward_debt == 0,
        pool.last_updated < now <= pool.period_end,
        !advance_overflows(pool, now),
    ensures
        pending_reward(pool, pos, now) <= pool.reward_per_second * (now - pool.last_updated),
        pending_reward(pool, pos, now) * PRECISION + pool.total_staked + PRECISION
            > pool.reward_per_second * PRECISION * (now - pool.last_updated),
{
    let s = pos.staked_amount as int;
    let e = now - pool.last_updated;
    let emitted = interval_emission(pool, now);
    let delta = accrual_delta(pool, now);
    let rpts = advanced(pool, now).reward_per_token_stored;

    assert(elapsed_time(pool, now) == e);
    assert(rpts == delta);
    assert(pending_reward(pool, pos, now) == s * delta / PRECISION as int);

    lemma_mul_nonnegative(pool.reward_per_second as int, PRECISION as int);
    lemma_mul_nonnegative(pool.reward_per_second as int * PRECISION as int, e);
    lemma_div_mul_bounds(emitted, s);
    lemma_mul_is_commutative(s, delta);
    lemma_mul_nonnegative(s, delta);
    lemma_div_mul_bounds(s * delta, PRECISION as int);

    // upper bound: the emission of the interval, unscaled
    vstd::arithmetic::div_mod::lemma_div_is_ordered(s * delta, emitted, PRECISION as int);
    lemma_mul_is_commutative(
        pool.reward_per_second as int * PRECISION as int,
        e,
    );
    lemma_mul_is_associative(e, pool.reward_per_second as int, PRECISION as int);
    lemma_mul_is_commutative(e, pool.reward_per_second as int);
    assert(emitted == (pool.reward_per_second as int * e) * PRECISION as int);
    vstd::arithmetic::div_mod::lemma_div_by_multiple(
        pool.reward_per_second as int * e,
        PRECISION as int,
    );

    // lower bound: at most the stake's worth of scaled dust, plus the final
    // unscaling step's unit
    lemma_mul_is_commutative(PRECISION as int, s * delta / PRECISION as int);
}

} // verus!
