//! The singleton protocol configuration record.
//!
//! Consumed only for bootstrapping; the accrual engine never mutates it.

use vstd::prelude::*;

use crate::constants::PROTOCOL_FEE;
use crate::pubkey::Pubkey;

verus! {

/// Global protocol configuration: owner, fee recipient, fee fraction and the
/// canonical asset identity.
#[derive(Clone, Copy, Debug, PartialEq, Eq, Structural)]
pub struct ProtocolConfig {
    pub owner: Pubkey,
    pub staking_fee: u64,
    pub staking_fee_recipient: Pubkey,
    pub token_mint: Pubkey,
}

impl ProtocolConfig {
    /// Builds the protocol configuration.
    ///
    /// A zero `fee_recipient` means "unset": fees then go to the owner.
    /// The fee fraction is fixed at [`PROTOCOL_FEE`].
    pub fn init_protocol(owner: Pubkey, token_mint: Pubkey, fee_recipient: Pubkey) -> (c:
        ProtocolConfig)
        ensures
            c.owner == owner,
            c.token_mint == token_mint,
            c.staking_fee == PROTOCOL_FEE,
            fee_recipient.is_zero() ==> c.staking_fee_recipient == owner,
            !fee_recipient.is_zero() ==> c.staking_fee_recipient == fee_recipient,
    {
        let recipient = if fee_recipient.id == 0 {
            owner
        } else {
            fee_recipient
        };
        ProtocolConfig { owner, staking_fee: PROTOCOL_FEE, staking_fee_recipient: recipient, token_mint }
    }
}

} // verus!
