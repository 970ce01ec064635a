//! The operations on the accounts: claiming a bet and finalizing the revenue
//! of a round.

pub mod claim_winnings;
pub mod finalize_revenue;
