//! Behavioral tests of the accrual engine on concrete scenarios.

use late_staking::ErrorCode;
use late_staking::Pubkey;
use late_staking::StakingConfig;
use late_staking::UserInfo;

fn open_pool(period_end: u64, total_reward: u64, now: u64) -> StakingConfig {
    let owner = Pubkey::new(1);
    let mint = Pubkey::new(2);
    StakingConfig::start_staking(owner, mint, period_end, total_reward, now).unwrap()
}

#[test]
fn single_staker_full_period_capture() {
    let mut pool = open_pool(100, 100_000, 0);
    assert_eq!(pool.reward_per_second, 1_000);
    let mut a = UserInfo::new(Pubkey::new(3));
    assert_eq!(pool.deposit(&mut a, 10_000, 0).unwrap(), 0);
    // settling at period_end captures the whole emission, exactly here
    let pending = pool.deposit(&mut a, 1, 100).unwrap();
    assert_eq!(pending, 100_000);
    assert_eq!(a.reward_claimed, 100_000);
    assert_eq!(a.staked_amount, 10_001);
    assert_eq!(pool.total_staked, 10_001);
    assert_eq!(pool.reward_per_token_stored, 10_000_000_000);
}

#[test]
fn sole_staker_interval_is_exact() {
    let mut pool = open_pool(100, 100_000, 0);
    let mut a = UserInfo::new(Pubkey::new(3));
    pool.deposit(&mut a, 10_000, 0).unwrap();
    // reward_per_second = 1_000 and A was the sole staker for ten seconds
    let pending = pool.deposit(&mut a, 1, 10).unwrap();
    assert_eq!(pending, 10_000);
}

#[test]
fn two_staker_proportionality() {
    let mut pool = open_pool(100, 100_000, 0);
    let mut a = UserInfo::new(Pubkey::new(3));
    let mut b = UserInfo::new(Pubkey::new(4));
    pool.deposit(&mut a, 10_000, 0).unwrap();
    // B joins at t=10; the interval before that is still A's alone
    assert_eq!(pool.deposit(&mut b, 5_000, 10).unwrap(), 0);
    assert_eq!(pool.reward_per_token_stored, 1_000_000_000);
    assert_eq!(b.reward_debt, 5_000);
    assert_eq!(pool.total_staked, 15_000);
    // both settle at t=20: A's share covers the sole interval in full,
    // the rest splits 2:1 with B, up to floor rounding
    let pa = pool.deposit(&mut a, 1, 20).unwrap();
    let pb = pool.deposit(&mut b, 1, 20).unwrap();
    assert_eq!(pool.reward_per_token_stored, 1_666_666_666);
    assert_eq!(pa, 16_666);
    assert_eq!(pb, 3_333);
    // conservation: nothing paid beyond the committed reward
    assert!(a.reward_claimed + b.reward_claimed <= pool.total_reward);
}

#[test]
fn late_deposit_rejected_unchanged() {
    let mut pool = open_pool(100, 100_000, 0);
    let mut a = UserInfo::new(Pubkey::new(3));
    pool.deposit(&mut a, 10_000, 0).unwrap();
    let pool_before = pool;
    let a_before = a;
    let r = pool.deposit(&mut a, 1, 101);
    assert_eq!(r, Err(ErrorCode::PeriodEnded));
    assert_eq!(pool, pool_before);
    assert_eq!(a, a_before);
}

#[test]
fn no_stake_interval_dropped() {
    let mut pool = open_pool(100, 100_000, 0);
    // nobody staked for the first fifty seconds
    let mut a = UserInfo::new(Pubkey::new(3));
    assert_eq!(pool.deposit(&mut a, 1_000, 50).unwrap(), 0);
    assert_eq!(pool.reward_per_token_stored, 0);
    assert_eq!(pool.last_updated, 50);
    // only the second half's emission is ever paid
    let pending = pool.deposit(&mut a, 1, 100).unwrap();
    assert_eq!(pending, 50_000);
}

#[test]
fn advance_idempotent_same_now() {
    let mut pool = open_pool(100, 100_000, 0);
    let mut a = UserInfo::new(Pubkey::new(3));
    pool.deposit(&mut a, 10_000, 0).unwrap();
    pool.advance(37).unwrap();
    let snapshot = pool;
    pool.advance(37).unwrap();
    assert_eq!(pool, snapshot);
}

#[test]
fn advance_clamps_to_period_end() {
    let mut pool = open_pool(100, 100_000, 0);
    let mut a = UserInfo::new(Pubkey::new(3));
    pool.deposit(&mut a, 10_000, 0).unwrap();
    pool.advance(1_000).unwrap();
    assert_eq!(pool.last_updated, 100);
    assert_eq!(pool.reward_per_token_stored, 10_000_000_000);
    let snapshot = pool;
    pool.advance(2_000).unwrap();
    assert_eq!(pool, snapshot);
}

#[test]
fn advance_without_stake_only_moves_clock() {
    let mut pool = open_pool(100, 100_000, 0);
    pool.advance(30).unwrap();
    assert_eq!(pool.last_updated, 30);
    assert_eq!(pool.reward_per_token_stored, 0);
}

#[test]
fn accumulator_never_decreases() {
    let mut pool = open_pool(100, 100_000, 0);
    let mut a = UserInfo::new(Pubkey::new(3));
    let mut last = pool.reward_per_token_stored;
    pool.deposit(&mut a, 123, 0).unwrap();
    assert!(pool.reward_per_token_stored >= last);
    last = pool.reward_per_token_stored;
    for t in [7u64, 7, 19, 64, 64, 99, 150] {
        pool.advance(t).unwrap();
        assert!(pool.reward_per_token_stored >= last);
        last = pool.reward_per_token_stored;
    }
}

#[test]
fn accumulator_overflow_reported() {
    // an enormous rate against a single staked unit blows the accumulator
    let mut pool = open_pool(100, u64::MAX, 0);
    let mut a = UserInfo::new(Pubkey::new(3));
    pool.deposit(&mut a, 1, 0).unwrap();
    let pool_before = pool;
    let a_before = a;
    let r = pool.deposit(&mut a, 1, 100);
    assert_eq!(r, Err(ErrorCode::ArithmeticOverflow));
    assert_eq!(pool, pool_before);
    assert_eq!(a, a_before);
}

#[test]
fn stake_addition_overflow_reported() {
    let mut pool = open_pool(100, 100, 0);
    let mut a = UserInfo::new(Pubkey::new(3));
    pool.deposit(&mut a, u64::MAX, 0).unwrap();
    let r = pool.deposit(&mut a, 1, 0);
    assert_eq!(r, Err(ErrorCode::ArithmeticOverflow));
}

#[test]
fn inconsistent_debt_reported_as_underflow() {
    let mut pool = open_pool(100, 100_000, 0);
    // a corrupted position: debt with no matching entitlement
    let mut bad = UserInfo {
        user: Pubkey::new(3),
        staked_amount: 0,
        reward_claimed: 0,
        last_updated: 0,
        reward_debt: 5,
    };
    let pool_before = pool;
    let r = pool.deposit(&mut bad, 10, 0);
    assert_eq!(r, Err(ErrorCode::ArithmeticUnderflow));
    assert_eq!(pool, pool_before);
    assert_eq!(bad.reward_debt, 5);
}

#[test]
fn rounding_dust_bounded_by_deposit_count() {
    // joining while the accumulator has a large fractional entitlement
    // grants each joiner strictly less than one unit of rounding dust;
    // the total payout stays within total_reward plus one unit per deposit
    let mut pool = open_pool(2, 20, 0);
    assert_eq!(pool.reward_per_second, 10);
    let mut a = UserInfo::new(Pubkey::new(3));
    let mut b = UserInfo::new(Pubkey::new(4));
    let mut c = UserInfo::new(Pubkey::new(5));
    let mut d = UserInfo::new(Pubkey::new(6));
    pool.deposit(&mut a, 3, 0).unwrap();
    pool.deposit(&mut b, 3, 1).unwrap();
    pool.deposit(&mut c, 3, 1).unwrap();
    pool.deposit(&mut d, 3, 1).unwrap();
    // 3 * 3_333_333_333 scaled units floor to a debt of 9, worth 9.999...
    assert_eq!(pool.reward_per_token_stored, 3_333_333_333);
    assert_eq!(b.reward_debt, 9);
    pool.deposit(&mut a, 1, 2).unwrap();
    pool.deposit(&mut b, 1, 2).unwrap();
    pool.deposit(&mut c, 1, 2).unwrap();
    pool.deposit(&mut d, 1, 2).unwrap();
    let claimed = a.reward_claimed + b.reward_claimed + c.reward_claimed + d.reward_claimed;
    // one unit over the committed reward: dust, not double payment
    assert_eq!(claimed, 21);
    let deposits = 8;
    assert!(claimed <= pool.total_reward + deposits);
}

#[test]
fn deposit_resets_debt_to_cover_new_stake() {
    let mut pool = open_pool(100, 100_000, 0);
    let mut a = UserInfo::new(Pubkey::new(3));
    pool.deposit(&mut a, 10_000, 0).unwrap();
    pool.deposit(&mut a, 5_000, 10).unwrap();
    // accumulator is 1e9 after ten sole-staker seconds; the debt covers
    // the whole enlarged stake so nothing is owed twice
    assert_eq!(pool.reward_per_token_stored, 1_000_000_000);
    assert_eq!(a.reward_debt, 15_000);
    assert_eq!(a.staked_amount, 15_000);
    assert_eq!(a.last_updated, 10);
    let pending_again = pool.deposit(&mut a, 1, 10).unwrap();
    assert_eq!(pending_again, 0);
}
