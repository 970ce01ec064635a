//! The accounts that the operations read and change, and their mathematical
//! views.

use crate::constants::MAX_ROUND_PAYOUTS;
use vstd::prelude::*;

verus! {

/// The identity of a participant: the 32 bytes of a public key.
#[derive(Clone, Copy, Debug, PartialEq, Eq, Hash)]
pub struct Identity {
    pub bytes: [u8; 32],
}

impl View for Identity {
    type V = Seq<u8>;

    open spec fn view(&self) -> Seq<u8> {
        self.bytes@
    }
}

impl Identity {
    /// Whether two identities are the same key.
    pub fn same_as(&self, other: &Identity) -> (same: bool)
        ensures
            same == (self@ == other@),
    {
        let mut i: usize = 0;
        while i < 32
            invariant
                i <= 32,
                forall|j: int| 0 <= j < i ==> self.bytes@[j] == other.bytes@[j],
            decreases 32 - i,
        {
            if self.bytes[i] != other.bytes[i] {
                return false;
            }
            i += 1;
        }
        assert(self.bytes@ =~= other.bytes@);
        true
    }
}

/// The result of a match, or the side that a leg predicts.
#[derive(Clone, Copy, Debug, PartialEq, Eq, Structural)]
pub enum MatchOutcome {
    /// The match has no result.
    Pending,
    HomeWin,
    AwayWin,
    Draw,
}

impl MatchOutcome {
    /// The outcome that a stored code stands for.
    pub open spec fn decoded(code: u8) -> MatchOutcome {
        if code == 1 {
            MatchOutcome::HomeWin
        } else if code == 2 {
            MatchOutcome::AwayWin
        } else if code == 3 {
            MatchOutcome::Draw
        } else {
            MatchOutcome::Pending
        }
    }

    /// Decodes a stored outcome: 1 is a home win, 2 an away win, 3 a draw, and
    /// every other code is pending.
    pub fn from_code(code: u8) -> (outcome: MatchOutcome)
        ensures
            outcome == Self::decoded(code),
    {
        match code {
            1 => MatchOutcome::HomeWin,
            2 => MatchOutcome::AwayWin,
            3 => MatchOutcome::Draw,
            _ => MatchOutcome::Pending,
        }
    }
}

/// One leg of a bet: a prediction on one match of the round.
#[derive(Clone, Copy, Debug, PartialEq, Eq, Structural)]
pub struct Prediction {
    /// Position of the match in the round.
    pub match_index: u8,
    pub predicted_outcome: MatchOutcome,
    /// Stake that this leg placed in the pool of its outcome.
    pub amount_in_pool: u64,
}

/// The odds of one match, as fixed-point rates over `ODDS_SCALE`.
#[derive(Clone, Copy, Debug, PartialEq, Eq, Structural)]
pub struct LockedOdds {
    /// Set once the odds are final. Only locked odds pay.
    pub locked: bool,
    pub home_odds: u64,
    pub away_odds: u64,
    pub draw_odds: u64,
}

impl LockedOdds {
    /// The rate paid on an outcome. A pending outcome pays nothing.
    pub open spec fn odds_for(self, outcome: MatchOutcome) -> nat {
        match outcome {
            MatchOutcome::HomeWin => self.home_odds as nat,
            MatchOutcome::AwayWin => self.away_odds as nat,
            MatchOutcome::Draw => self.draw_odds as nat,
            MatchOutcome::Pending => 0,
        }
    }

    /// The rate paid on an outcome.
    pub fn get_odds(&self, outcome: MatchOutcome) -> (odds: u64)
        ensures
            odds == self.odds_for(outcome),
    {
        match outcome {
            MatchOutcome::HomeWin => self.home_odds,
            MatchOutcome::AwayWin => self.away_odds,
            MatchOutcome::Draw => self.draw_odds,
            MatchOutcome::Pending => 0,
        }
    }
}

/// A parlay bet: legs on matches of one round, placed by one bettor.
#[derive(Clone, Debug, PartialEq, Eq)]
pub struct Bet {
    pub id: u64,
    pub bettor: Identity,
    pub round_id: u64,
    /// The legs, in the order in which they were placed.
    pub predictions: Vec<Prediction>,
    /// Fixed-point factor over `ODDS_SCALE`, applied to the sum of the legs.
    pub locked_multiplier: u64,
    pub claimed: bool,
    pub settled: bool,
    /// End of the bettor's claim window; 0 until the first successful claim
    /// fixes it.
    pub claim_deadline: i64,
    /// Who claimed the bet for a bounty, if anyone did.
    pub bounty_claimer: Option<Identity>,
}

/// What a [`Bet`] holds, as mathematical values.
pub struct BetView {
    pub id: nat,
    pub bettor: Seq<u8>,
    pub round_id: nat,
    pub predictions: Seq<Prediction>,
    pub locked_multiplier: nat,
    pub claimed: bool,
    pub settled: bool,
    pub claim_deadline: int,
    pub bounty_claimer: Option<Seq<u8>>,
}

impl View for Bet {
    type V = BetView;

    open spec fn view(&self) -> BetView {
        BetView {
            id: self.id as nat,
            bettor: self.bettor@,
            round_id: self.round_id as nat,
            predictions: self.predictions@,
            locked_multiplier: self.locked_multiplier as nat,
            claimed: self.claimed,
            settled: self.settled,
            claim_deadline: self.claim_deadline as int,
            bounty_claimer: match self.bounty_claimer {
                Some(claimer) => Some(claimer@),
                None => None,
            },
        }
    }
}

/// The books of one round: its results, its locked odds and its totals.
#[derive(Clone, Debug, PartialEq, Eq)]
pub struct RoundAccounting {
    pub round_id: u64,
    /// Result of each match of the round.
    pub match_results: Vec<MatchOutcome>,
    /// Odds of each match of the round.
    pub locked_odds: Vec<LockedOdds>,
    pub settled: bool,
    pub round_end_time: i64,
    pub total_user_deposits: u64,
    pub protocol_fee_collected: u64,
    pub total_bet_volume: u64,
    pub protocol_seed_amount: u64,
    /// What the round expects to owe to its winning bets.
    pub total_reserved_for_winners: u64,
    pub total_claimed: u64,
    pub total_paid_out: u64,
    pub revenue_distributed: bool,
    pub protocol_revenue_share: u64,
    pub season_revenue_share: u64,
}

/// What a [`RoundAccounting`] holds, as mathematical values.
pub struct RoundAccountingView {
    pub round_id: nat,
    pub match_results: Seq<MatchOutcome>,
    pub locked_odds: Seq<LockedOdds>,
    pub settled: bool,
    pub round_end_time: int,
    pub total_user_deposits: nat,
    pub protocol_fee_collected: nat,
    pub total_bet_volume: nat,
    pub protocol_seed_amount: nat,
    pub total_reserved_for_winners: nat,
    pub total_claimed: nat,
    pub total_paid_out: nat,
    pub revenue_distributed: bool,
    pub protocol_revenue_share: nat,
    pub season_revenue_share: nat,
}

impl View for RoundAccounting {
    type V = RoundAccountingView;

    open spec fn view(&self) -> RoundAccountingView {
        RoundAccountingView {
            round_id: self.round_id as nat,
            match_results: self.match_results@,
            locked_odds: self.locked_odds@,
            settled: self.settled,
            round_end_time: self.round_end_time as int,
            total_user_deposits: self.total_user_deposits as nat,
            protocol_fee_collected: self.protocol_fee_collected as nat,
            total_bet_volume: self.total_bet_volume as nat,
            protocol_seed_amount: self.protocol_seed_amount as nat,
            total_reserved_for_winners: self.total_reserved_for_winners as nat,
            total_claimed: self.total_claimed as nat,
            total_paid_out: self.total_paid_out as nat,
            revenue_distributed: self.revenue_distributed,
            protocol_revenue_share: self.protocol_revenue_share as nat,
            season_revenue_share: self.season_revenue_share as nat,
        }
    }
}

impl RoundAccountingView {
    /// What holds of the books of a round after every operation: the round
    /// has paid no more than its cap, and its revenue is distributed only
    /// once it is settled and every reserved winning has been claimed.
    pub open spec fn books_in_order(self) -> bool {
        &&& self.total_paid_out <= MAX_ROUND_PAYOUTS
        &&& self.revenue_distributed ==> self.settled && self.total_claimed
            >= self.total_reserved_for_winners
    }
}

/// The pool that takes the bets and holds the liquidity of every round.
#[derive(Clone, Debug, PartialEq, Eq)]
pub struct BettingPool {
    /// Who may finalize the revenue of a round.
    pub authority: Identity,
    /// Share of the users' bets that goes to the season pool, in basis points.
    pub season_pool_share_bps: u16,
    /// What the season pool has gathered so far. The funds stay in the pool.
    pub season_reward_pool: u64,
}

/// What a [`BettingPool`] holds, as mathematical values.
pub struct BettingPoolView {
    pub authority: Seq<u8>,
    pub season_pool_share_bps: nat,
    pub season_reward_pool: nat,
}

impl View for BettingPool {
    type V = BettingPoolView;

    open spec fn view(&self) -> BettingPoolView {
        BettingPoolView {
            authority: self.authority@,
            season_pool_share_bps: self.season_pool_share_bps as nat,
            season_reward_pool: self.season_reward_pool as nat,
        }
    }
}

} // verus!
