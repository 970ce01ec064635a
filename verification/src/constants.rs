//! Fixed parameters of the protocol.

use vstd::prelude::*;

verus! {

/// Scale of fixed-point odds and multipliers: `10000` stands for 1.0.
pub const ODDS_SCALE: u64 = 10000;

/// Number of basis points in a whole.
pub const BPS_DENOMINATOR: u64 = 10000;

/// Share of a payout that goes to a bounty claimer, in basis points.
pub const BOUNTY_BPS: u64 = 1000;

/// Seconds after the end of a round during which only the bettor may claim.
pub const CLAIM_WINDOW: i64 = 86400;

/// Most that a single bet can pay.
pub const MAX_PAYOUT_PER_BET: u64 = 100000;

/// Most that a round can pay over all its bets.
pub const MAX_ROUND_PAYOUTS: u64 = 1000000;

} // verus!
