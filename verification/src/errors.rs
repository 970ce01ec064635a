//! The reasons for which an operation is rejected.

use vstd::prelude::*;

verus! {

/// Why a claim or a finalization was rejected. A rejected operation leaves
/// every account as it was.
#[derive(Clone, Copy, Debug, PartialEq, Eq, Structural)]
pub enum SportsbookError {
    /// The round has not been settled yet.
    RoundNotSettled,
    /// The bet has been claimed before.
    BetAlreadyClaimed,
    /// Someone other than the bettor claimed inside the claim window.
    NotBettor,
    /// The payout is below the minimum that the caller asked for.
    PayoutBelowMinimum,
    /// A leg of the bet refers to a match whose odds are not locked.
    OddsNotLocked,
    /// An amount or a time does not fit its integer type.
    CalculationOverflow,
    /// The payout would take the round over its payout cap.
    RoundPayoutLimitReached,
    /// The pool holds less than the payout.
    InsufficientProtocolLiquidity,
    /// The revenue of the round has been distributed before.
    RevenueAlreadyDistributed,
    /// Reserved winnings are still unclaimed.
    RevenueDistributedBeforeClaims,
}

} // verus!
