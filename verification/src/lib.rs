//! Settlement and accounting core of a parlay sportsbook.
//!
//! A bet is a list of legs, each a prediction on one match of a round. Once the
//! round is settled a bet can be claimed: the payout is computed from the odds
//! and the multiplier that were locked when the bet was placed, the round's
//! books are updated, and the amounts to transfer are handed back to the
//! caller. When every reserved winning has been claimed, the funds left in the
//! pool are split between the protocol and the season reward pool.
//!
//! Every function here is verified: it cannot panic or overflow, and its
//! contract states its result and its effect on the accounts for every input.

pub mod constants;
pub mod errors;
pub mod math;
pub mod state;
pub mod instructions;
