//! A time-weighted staking reward ledger.
//!
//! Stakers deposit a fungible asset into a shared pool for a fixed emission
//! period. The pool accrues a fixed-point "reward per staked unit"
//! accumulator; each position's claimable reward depends only on how much it
//! staked and for how long. The accrual and debt-accounting engine here is
//! pure integer arithmetic over plain records: the clock, the asset-transfer
//! primitive and the persistent keyed store are external collaborators that
//! hand values in and carry values out.

pub mod accrual;
pub mod constants;
pub mod errors;
pub mod laws;
pub mod protocol_config;
pub mod pubkey;
pub mod staking_config;
pub mod user_info;
pub mod whitelist;

pub use constants::PRECISION;
pub use constants::PROTOCOL_FEE;
pub use errors::ErrorCode;
pub use protocol_config::ProtocolConfig;
pub use pubkey::Pubkey;
pub use staking_config::StakingConfig;
pub use user_info::UserInfo;
pub use whitelist::Whitelist;
