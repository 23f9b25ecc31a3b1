//! Tests of the record constructors and their field-level contracts.

use late_staking::ErrorCode;
use late_staking::ProtocolConfig;
use late_staking::Pubkey;
use late_staking::StakingConfig;
use late_staking::UserInfo;
use late_staking::Whitelist;
use late_staking::PRECISION;
use late_staking::PROTOCOL_FEE;

#[test]
fn init_protocol_defaults_recipient_to_owner() {
    let owner = Pubkey::new(7);
    let mint = Pubkey::new(8);
    let c = ProtocolConfig::init_protocol(owner, mint, Pubkey::default());
    assert_eq!(c.owner, owner);
    assert_eq!(c.staking_fee_recipient, owner);
    assert_eq!(c.staking_fee, PROTOCOL_FEE);
    assert_eq!(c.token_mint, mint);
}

#[test]
fn init_protocol_keeps_explicit_recipient() {
    let owner = Pubkey::new(7);
    let mint = Pubkey::new(8);
    let recipient = Pubkey::new(9);
    let c = ProtocolConfig::init_protocol(owner, mint, recipient);
    assert_eq!(c.staking_fee_recipient, recipient);
}

#[test]
fn protocol_fee_is_five_percent_scaled() {
    assert_eq!(PRECISION, 1_000_000_000);
    assert_eq!(PROTOCOL_FEE * 20, PRECISION);
}

#[test]
fn start_staking_fixes_schedule_and_rate() {
    let owner = Pubkey::new(1);
    let mint = Pubkey::new(2);
    let pool = StakingConfig::start_staking(owner, mint, 310, 1_000, 10).unwrap();
    assert_eq!(pool.owner, owner);
    assert_eq!(pool.token_mint, mint);
    assert_eq!(pool.period_start, 10);
    assert_eq!(pool.period_end, 310);
    assert_eq!(pool.last_updated, 10);
    assert_eq!(pool.total_staked, 0);
    assert_eq!(pool.total_reward, 1_000);
    // floor division: the remainder of 1_000 / 300 stays unemitted
    assert_eq!(pool.reward_per_second, 3);
    assert_eq!(pool.reward_per_token_stored, 0);
}

#[test]
fn start_staking_zero_duration_rejected() {
    let owner = Pubkey::new(1);
    let mint = Pubkey::new(2);
    let r = StakingConfig::start_staking(owner, mint, 50, 1_000, 50);
    assert_eq!(r, Err(ErrorCode::InvalidPeriod));
    let r = StakingConfig::start_staking(owner, mint, 49, 1_000, 50);
    assert_eq!(r, Err(ErrorCode::InvalidPeriod));
}

#[test]
fn set_values_rejects_empty_window() {
    let owner = Pubkey::new(1);
    let mint = Pubkey::new(2);
    let mut pool = StakingConfig::start_staking(owner, mint, 100, 1_000, 0).unwrap();
    let before = pool;
    let r = pool.set_values(owner, 60, 60, 0, 60, 1_000, mint, 0, 0);
    assert_eq!(r, Err(ErrorCode::InvalidPeriod));
    assert_eq!(pool, before);
}

#[test]
fn set_values_overwrites_every_field() {
    let owner = Pubkey::new(1);
    let mint = Pubkey::new(2);
    let other = Pubkey::new(5);
    let mut pool = StakingConfig::start_staking(owner, mint, 100, 1_000, 0).unwrap();
    pool.set_values(other, 5, 25, 7, 6, 40, mint, 2, 9).unwrap();
    assert_eq!(pool.owner, other);
    assert_eq!(pool.period_start, 5);
    assert_eq!(pool.period_end, 25);
    assert_eq!(pool.total_staked, 7);
    assert_eq!(pool.last_updated, 6);
    assert_eq!(pool.total_reward, 40);
    assert_eq!(pool.reward_per_second, 2);
    assert_eq!(pool.reward_per_token_stored, 9);
}

#[test]
fn new_position_is_empty() {
    let user = Pubkey::new(11);
    let p = UserInfo::new(user);
    assert_eq!(p.user, user);
    assert_eq!(p.staked_amount, 0);
    assert_eq!(p.reward_claimed, 0);
    assert_eq!(p.reward_debt, 0);
    assert_eq!(p.last_updated, 0);
}

#[test]
fn whitelist_pairs_creator_with_mint() {
    let creator = Pubkey::new(12);
    let mint = Pubkey::new(13);
    let w = Whitelist::new(creator, mint);
    assert_eq!(w.creator, creator);
    assert_eq!(w.token_mint, mint);
}
