//! Fixed-point scaling constants shared by the whole engine.

use vstd::prelude::*;

verus! {

/// Fixed-point precision factor: the reward-per-token accumulator and the
/// reward debt computations are scaled by this constant so that integer
/// division keeps per-second rounding error small.
pub const PRECISION: u64 = 1_000_000_000;

/// Protocol fee fraction, scaled by [`PRECISION`]: five percent.
pub const PROTOCOL_FEE: u64 = 50_000_000;

} // verus!
