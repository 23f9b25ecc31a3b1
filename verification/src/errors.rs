//! Error kinds surfaced by the engine.
//!
//! Every error aborts the whole operation with no partial state change; the
//! verified functions below return these instead of panicking.

use vstd::prelude::*;

verus! {

/// The error kinds of the staking engine.
#[derive(Clone, Copy, Debug, PartialEq, Eq, Structural)]
pub enum ErrorCode {
    /// An addition, multiplication or scaling exceeded the representable
    /// range. Fatal to the operation; nothing is committed.
    ArithmeticOverflow,
    /// A subtraction that the record invariants promise to be non-negative
    /// went negative: an internal-consistency violation, not a user error.
    ArithmeticUnderflow,
    /// A pool was opened with a non-positive emission duration.
    InvalidPeriod,
    /// A deposit was attempted after the pool's emission window closed.
    PeriodEnded,
    /// The asset-transfer primitive reported an insufficient balance.
    InsufficientFunds,
    /// The caller is not the expected signer or authority.
    Unauthorized,
}

} // verus!
