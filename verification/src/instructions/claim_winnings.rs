//! Claiming a bet: what the bet pays, who may claim it and when, and what the
//! claim does to the bet and to the books of its round.

use crate::constants::{
    BOUNTY_BPS, BPS_DENOMINATOR, CLAIM_WINDOW, MAX_PAYOUT_PER_BET, MAX_ROUND_PAYOUTS, ODDS_SCALE,
};
use crate::errors::SportsbookError;
use crate::math::{checked_mul_div, mul_div_floor};
use crate::state::{
    Bet, BetView, Identity, Prediction, RoundAccounting, RoundAccountingView,
};
use vstd::prelude::*;

verus! {

/// The leg names a match for which the round holds a result and odds.
pub open spec fn leg_in_range(leg: Prediction, round: RoundAccountingView) -> bool {
    leg.match_index < round.match_results.len() && leg.match_index < round.locked_odds.len()
}

/// The leg predicted the result of its match.
pub open spec fn leg_correct(leg: Prediction, round: RoundAccountingView) -> bool {
    round.match_results[leg.match_index as int] == leg.predicted_outcome
}

/// Every one of the legs predicted the result of its match.
pub open spec fn all_legs_correct(legs: Seq<Prediction>, round: RoundAccountingView) -> bool {
    forall|i: int| 0 <= i < legs.len() ==> leg_correct(#[trigger] legs[i], round)
}

/// The odds of the leg's match are locked.
pub open spec fn leg_locked(leg: Prediction, round: RoundAccountingView) -> bool {
    round.locked_odds[leg.match_index as int].locked
}

/// The odds of the match of every one of the legs are locked.
pub open spec fn all_legs_locked(legs: Seq<Prediction>, round: RoundAccountingView) -> bool {
    forall|i: int| 0 <= i < legs.len() ==> leg_locked(#[trigger] legs[i], round)
}

/// What one leg pays: its stake at the odds of its outcome, rounded down.
pub open spec fn leg_payout(leg: Prediction, round: RoundAccountingView) -> nat {
    mul_div_floor(
        leg.amount_in_pool as nat,
        round.locked_odds[leg.match_index as int].odds_for(leg.predicted_outcome),
        ODDS_SCALE as nat,
    )
}

/// The sum of what the legs pay.
pub open spec fn legs_sum(legs: Seq<Prediction>, round: RoundAccountingView) -> nat
    decreases legs.len(),
{
    if legs.len() == 0 {
        0
    } else {
        legs_sum(legs.drop_last(), round) + leg_payout(legs.last(), round)
    }
}

/// One walk over the legs in order, in which the first event decides. A
/// wrong leg ends the walk with the bet lost: `Ok(None)`. A correct leg on
/// odds that are not locked ends it with `OddsNotLocked`, and a correct leg
/// with which the sum of what the legs pay no longer fits in 64 bits ends it
/// with `CalculationOverflow`. A walk that no leg ends gives the sum:
/// `Ok(Some(sum))`.
pub open spec fn legs_walk(legs: Seq<Prediction>, round: RoundAccountingView) -> Result<
    Option<nat>,
    SportsbookError,
>
    decreases legs.len(),
{
    if legs.len() == 0 {
        Ok(Some(0))
    } else {
        match legs_walk(legs.drop_last(), round) {
            Err(e) => Err(e),
            Ok(None) => Ok(None),
            Ok(Some(sum)) => if !leg_correct(legs.last(), round) {
                Ok(None)
            } else if !leg_locked(legs.last(), round) {
                Err(SportsbookError::OddsNotLocked)
            } else if sum + leg_payout(legs.last(), round) > u64::MAX {
                Err(SportsbookError::CalculationOverflow)
            } else {
                Ok(Some(sum + leg_payout(legs.last(), round)))
            },
        }
    }
}

/// The walk over the legs gets as far as the leg at `i`: no leg before it
/// ends the walk.
pub open spec fn leg_reached(legs: Seq<Prediction>, round: RoundAccountingView, i: int) -> bool {
    legs_walk(legs.take(i), round) matches Ok(Some(_))
}

/// Every leg that the walk over the legs of the bet gets to names a match for
/// which the round holds a result and odds. The legs behind the one that
/// ends the walk are not read, and may name anything.
pub open spec fn legs_readable(bet: BetView, round: RoundAccountingView) -> bool {
    forall|i: int|
        0 <= i < bet.predictions.len() && #[trigger] leg_reached(bet.predictions, round, i)
            ==> leg_in_range(bet.predictions[i], round)
}

/// The base payout under the bet's multiplier, rounded down and capped at
/// the most that one bet can pay.
pub open spec fn capped_payout(base_payout: nat, multiplier: nat) -> nat {
    let scaled = mul_div_floor(base_payout, multiplier, ODDS_SCALE as nat);
    if scaled > MAX_PAYOUT_PER_BET {
        MAX_PAYOUT_PER_BET as nat
    } else {
        scaled
    }
}

/// What the bet is worth against the results of its round: whether it won,
/// its base payout and its final payout. The legs are taken in order and the
/// first event decides: a bet whose walk ends on a wrong leg has lost and
/// pays nothing, and one whose walk ends on unlocked odds or on an overflow
/// is worth nothing that could be stated.
pub open spec fn payout_of(bet: BetView, round: RoundAccountingView) -> Result<
    (bool, nat, nat),
    SportsbookError,
> {
    match legs_walk(bet.predictions, round) {
        Err(e) => Err(e),
        Ok(None) => Ok((false, 0, 0)),
        Ok(Some(base_payout)) => Ok(
            (true, base_payout, capped_payout(base_payout, bet.locked_multiplier)),
        ),
    }
}

/// A computed payout as mathematical values.
pub open spec fn payout_view(res: Result<(bool, u64, u64), SportsbookError>) -> Result<
    (bool, nat, nat),
    SportsbookError,
> {
    match res {
        Ok((won, base_payout, final_payout)) => Ok((won, base_payout as nat, final_payout as nat)),
        Err(e) => Err(e),
    }
}

/// The end of a walk over the legs as mathematical values.
pub open spec fn walk_view(walk: Result<Option<u64>, SportsbookError>) -> Result<
    Option<nat>,
    SportsbookError,
> {
    match walk {
        Ok(Some(sum)) => Ok(Some(sum as nat)),
        Ok(None) => Ok(None),
        Err(e) => Err(e),
    }
}

/// A walk that has ended stays as it ended, whatever legs follow.
proof fn lemma_walk_stays_ended(legs: Seq<Prediction>, round: RoundAccountingView, n: int, m: int)
    requires
        0 <= n <= m <= legs.len(),
        !leg_reached(legs, round, n),
    ensures
        legs_walk(legs.take(m), round) == legs_walk(legs.take(n), round),
    decreases m - n,
{
    if n < m {
        assert(legs.take(m).drop_last() =~= legs.take(m - 1));
        lemma_walk_stays_ended(legs, round, n, m - 1);
    }
}

/// Where the walk has ended within the first `n` legs, the whole walk ends
/// as it did there, and no leg from `n` on is reached.
proof fn lemma_walk_ended(legs: Seq<Prediction>, round: RoundAccountingView, n: int)
    requires
        0 <= n <= legs.len(),
        !leg_reached(legs, round, n),
    ensures
        legs_walk(legs, round) == legs_walk(legs.take(n), round),
        forall|m: int| n <= m <= legs.len() ==> !#[trigger] leg_reached(legs, round, m),
{
    lemma_walk_stays_ended(legs, round, n, legs.len() as int);
    assert(legs.take(legs.len() as int) =~= legs);
    assert forall|m: int| n <= m <= legs.len() implies !#[trigger] leg_reached(
        legs,
        round,
        m,
    ) by {
        lemma_walk_stays_ended(legs, round, n, m);
    }
}

/// Walks over the legs of the bet. `None` where the walk gets to a leg that
/// names no match of the round.
fn walk_legs(bet: &Bet, round_accounting: &RoundAccounting) -> (res: Option<
    Result<Option<u64>, SportsbookError>,
>)
    ensures
        res is Some <==> legs_readable(bet@, round_accounting@),
        res matches Some(walk) ==> walk_view(walk) == legs_walk(
            bet@.predictions,
            round_accounting@,
        ),
{
    let ghost legs = bet@.predictions;
    let ghost round = round_accounting@;
    let mut total_base_payout: u64 = 0;
    let mut i: usize = 0;
    while i < bet.predictions.len()
        invariant
            i <= bet.predictions.len(),
            legs == bet@.predictions,
            round == round_accounting@,
            forall|j: int| 0 <= j < i ==> leg_in_range(#[trigger] legs[j], round),
            legs_walk(legs.take(i as int), round) == Ok::<Option<nat>, SportsbookError>(
                Some(total_base_payout as nat),
            ),
        decreases bet.predictions.len() - i,
    {
        let leg = &bet.predictions[i];
        let index = leg.match_index as usize;
        proof {
            assert(legs.take(i + 1).drop_last() =~= legs.take(i as int));
            assert(legs.take(i + 1).last() == legs[i as int]);
        }
        if index >= round_accounting.match_results.len() || index
            >= round_accounting.locked_odds.len() {
            assert(leg_reached(legs, round, i as int));
            return None;
        }
        if round_accounting.match_results[index] != leg.predicted_outcome {
            proof {
                lemma_walk_ended(legs, round, i + 1);
            }
            return Some(Ok(None));
        }
        let odds = &round_accounting.locked_odds[index];
        if !odds.locked {
            proof {
                lemma_walk_ended(legs, round, i + 1);
            }
            return Some(Err(SportsbookError::OddsNotLocked));
        }
        let rate = odds.get_odds(leg.predicted_outcome);
        let sum = match checked_mul_div(leg.amount_in_pool, rate, ODDS_SCALE) {
            Some(match_payout) => total_base_payout.checked_add(match_payout),
            None => None,
        };
        match sum {
            Some(sum) => {
                total_base_payout = sum;
            },
            None => {
                proof {
                    lemma_walk_ended(legs, round, i + 1);
                }
                return Some(Err(SportsbookError::CalculationOverflow));
            },
        }
        i += 1;
    }
    assert(legs.take(i as int) =~= legs);
    Some(Ok(Some(total_base_payout)))
}

/// Whether the payout of the bet can be computed: whether every leg that the
/// walk over its legs gets to names a match of the round.
pub fn can_calculate_payout(bet: &Bet, round_accounting: &RoundAccounting) -> (ok: bool)
    ensures
        ok == legs_readable(bet@, round_accounting@),
{
    walk_legs(bet, round_accounting).is_some()
}

/// Computes what a bet is worth against the results of its round.
///
/// The legs are taken in order, and the first event decides. A wrong leg
/// means that the bet has lost: the result is `(false, 0, 0)`. A correct leg
/// on odds that are not locked is rejected with `OddsNotLocked`, and a correct
/// leg with which the sum of the legs passes 64 bits with
/// `CalculationOverflow`. A bet whose legs are all correct, on locked odds,
/// has won: its base payout is the sum over its legs of
/// `amount_in_pool * odds / ODDS_SCALE`, each rounded down, and its final
/// payout is `base_payout * locked_multiplier / ODDS_SCALE`, rounded down and
/// capped at `MAX_PAYOUT_PER_BET`. The legs are not compounded.
pub fn calculate_bet_payout(bet: &Bet, round_accounting: &RoundAccounting) -> (res: Result<
    (bool, u64, u64),
    SportsbookError,
>)
    requires
        legs_readable(bet@, round_accounting@),
    ensures
        payout_view(res) == payout_of(bet@, round_accounting@),
{
    match walk_legs(bet, round_accounting).unwrap() {
        Err(e) => Err(e),
        Ok(None) => Ok((false, 0, 0)),
        Ok(Some(total_base_payout)) => {
            // A scaled payout that does not fit in 64 bits is over the cap as well.
            let final_payout = match checked_mul_div(
                total_base_payout,
                bet.locked_multiplier,
                ODDS_SCALE,
            ) {
                Some(scaled) => if scaled > MAX_PAYOUT_PER_BET {
                    MAX_PAYOUT_PER_BET
                } else {
                    scaled
                },
                None => MAX_PAYOUT_PER_BET,
            };
            Ok((true, total_base_payout, final_payout))
        },
    }
}

/// The accounts of one claim.
#[derive(Clone, Debug, PartialEq, Eq)]
pub struct ClaimWinnings {
    /// The books of the round of the bet.
    pub round_accounting: RoundAccounting,
    pub bet: Bet,
    /// What the pool holds when the claim is made. Winnings are paid from it.
    pub pool_balance: u64,
    /// Who makes the claim: the bettor, or after the claim window anyone.
    pub claimer: Identity,
}

/// What a [`ClaimWinnings`] holds, as mathematical values.
pub struct ClaimWinningsView {
    pub round_accounting: RoundAccountingView,
    pub bet: BetView,
    pub pool_balance: nat,
    pub claimer: Seq<u8>,
}

impl View for ClaimWinnings {
    type V = ClaimWinningsView;

    open spec fn view(&self) -> ClaimWinningsView {
        ClaimWinningsView {
            round_accounting: self.round_accounting@,
            bet: self.bet@,
            pool_balance: self.pool_balance as nat,
            claimer: self.claimer@,
        }
    }
}

/// What a successful claim found and what is to be transferred for it.
#[derive(Clone, Copy, Debug, PartialEq, Eq, Structural)]
pub struct ClaimResult {
    pub won: bool,
    pub base_payout: u64,
    pub final_payout: u64,
    /// The claim was made for a bounty: after the claim window, by someone
    /// other than the bettor.
    pub bounty_claim: bool,
    /// To be transferred from the pool to the bettor.
    pub bettor_share: u64,
    /// To be transferred from the pool to the claimer.
    pub bounty: u64,
}

/// What a [`ClaimResult`] holds, as mathematical values.
pub struct ClaimResultView {
    pub won: bool,
    pub base_payout: nat,
    pub final_payout: nat,
    pub bounty_claim: bool,
    pub bettor_share: nat,
    pub bounty: nat,
}

impl View for ClaimResult {
    type V = ClaimResultView;

    open spec fn view(&self) -> ClaimResultView {
        ClaimResultView {
            won: self.won,
            base_payout: self.base_payout as nat,
            final_payout: self.final_payout as nat,
            bounty_claim: self.bounty_claim,
            bettor_share: self.bettor_share as nat,
            bounty: self.bounty as nat,
        }
    }
}

/// The result of a claim as mathematical values.
pub open spec fn claim_view(res: Result<ClaimResult, SportsbookError>) -> Result<
    ClaimResultView,
    SportsbookError,
> {
    match res {
        Ok(result) => Ok(result@),
        Err(e) => Err(e),
    }
}

/// The bounty on a payout: `BOUNTY_BPS` basis points of it, rounded down.
pub open spec fn bounty_of(final_payout: nat) -> nat {
    mul_div_floor(final_payout, BOUNTY_BPS as nat, BPS_DENOMINATOR as nat)
}

impl ClaimWinningsView {
    /// The end of the bettor's claim window.
    pub open spec fn claim_deadline(self) -> int {
        self.round_accounting.round_end_time + CLAIM_WINDOW
    }

    /// The claimer is the bettor.
    pub open spec fn is_bettor(self) -> bool {
        self.claimer == self.bet.bettor
    }

    /// The claim is made for a bounty: after the claim window, by someone
    /// other than the bettor.
    pub open spec fn is_bounty_claim(self, now: int) -> bool {
        now > self.claim_deadline() && !self.is_bettor()
    }

    /// Why a claim made at `now` is turned away before the bet is looked at,
    /// if it is. The checks are made in the order in which they stand here,
    /// and the first that fails decides the error.
    pub open spec fn admission(self, now: int) -> Option<SportsbookError> {
        if !self.round_accounting.settled {
            Some(SportsbookError::RoundNotSettled)
        } else if self.bet.claimed {
            Some(SportsbookError::BetAlreadyClaimed)
        } else if self.claim_deadline() > i64::MAX {
            Some(SportsbookError::CalculationOverflow)
        } else if now <= self.claim_deadline() && !self.is_bettor() {
            Some(SportsbookError::NotBettor)
        } else {
            None
        }
    }

    /// A claim made at `now` can be decided: if it is admitted, every leg
    /// that the payout reads names a match of the round.
    pub open spec fn can_be_decided(self, now: int) -> bool {
        self.admission(now) is None ==> legs_readable(self.bet, self.round_accounting)
    }

    /// What a claim made at `now` returns. A claim that is admitted is
    /// decided by the payout of the bet and then by the checks that follow,
    /// in the order in which they stand here: the first that fails decides
    /// the error.
    pub open spec fn outcome(self, min_payout: nat, now: int) -> Result<
        ClaimResultView,
        SportsbookError,
    > {
        let round = self.round_accounting;
        match self.admission(now) {
            Some(e) => Err(e),
            None => match payout_of(self.bet, round) {
                Err(e) => Err(e),
                Ok((won, base_payout, final_payout)) => if final_payout < min_payout {
                    Err(SportsbookError::PayoutBelowMinimum)
                } else if !won || final_payout == 0 {
                    Ok(
                        ClaimResultView {
                            won,
                            base_payout,
                            final_payout,
                            bounty_claim: self.is_bounty_claim(now),
                            bettor_share: 0,
                            bounty: 0,
                        },
                    )
                } else if round.total_paid_out + final_payout > MAX_ROUND_PAYOUTS {
                    Err(SportsbookError::RoundPayoutLimitReached)
                } else if round.total_claimed + final_payout > u64::MAX {
                    Err(SportsbookError::CalculationOverflow)
                } else if self.pool_balance < final_payout {
                    Err(SportsbookError::InsufficientProtocolLiquidity)
                } else {
                    let bounty = if self.is_bounty_claim(now) {
                        bounty_of(final_payout)
                    } else {
                        0
                    };
                    Ok(
                        ClaimResultView {
                            won,
                            base_payout,
                            final_payout,
                            bounty_claim: self.is_bounty_claim(now),
                            bettor_share: (final_payout - bounty) as nat,
                            bounty,
                        },
                    )
                },
            },
        }
    }

    /// The accounts after a claim made at `now`. A rejected claim leaves them
    /// as they were. A successful one marks the bet as claimed and settled,
    /// fixes its claim deadline if that was unset, adds what it pays to the
    /// totals of the round and, where it pays a bounty claim, records the
    /// claimer on the bet.
    pub open spec fn after_claim(self, min_payout: nat, now: int) -> ClaimWinningsView {
        match self.outcome(min_payout, now) {
            Err(_) => self,
            Ok(result) => {
                let paid = result.bettor_share + result.bounty;
                ClaimWinningsView {
                    bet: BetView {
                        claimed: true,
                        settled: true,
                        claim_deadline: if self.bet.claim_deadline == 0 {
                            self.claim_deadline()
                        } else {
                            self.bet.claim_deadline
                        },
                        bounty_claimer: if paid > 0 && self.is_bounty_claim(now) {
                            Some(self.claimer)
                        } else {
                            self.bet.bounty_claimer
                        },
                        ..self.bet
                    },
                    round_accounting: RoundAccountingView {
                        total_claimed: self.round_accounting.total_claimed + paid,
                        total_paid_out: self.round_accounting.total_paid_out + paid,
                        ..self.round_accounting
                    },
                    ..self
                }
            },
        }
    }
}

impl ClaimWinnings {
    /// Lets in a claim made at `current_time` or turns it away. An admitted
    /// claim comes with the end of the claim window and with whether it is
    /// made for a bounty.
    fn check_admission(&self, current_time: i64) -> (res: Result<(i64, bool), SportsbookError>)
        ensures
            match res {
                Ok((claim_deadline, bounty_claim)) => {
                    &&& self@.admission(current_time as int) is None
                    &&& claim_deadline == self@.claim_deadline()
                    &&& bounty_claim == self@.is_bounty_claim(current_time as int)
                },
                Err(e) => self@.admission(current_time as int) == Some(e),
            },
    {
        if !self.round_accounting.settled {
            return Err(SportsbookError::RoundNotSettled);
        }
        if self.bet.claimed {
            return Err(SportsbookError::BetAlreadyClaimed);
        }
        let claim_deadline = match self.round_accounting.round_end_time.checked_add(CLAIM_WINDOW) {
            Some(deadline) => deadline,
            None => {
                return Err(SportsbookError::CalculationOverflow);
            },
        };
        let is_bettor = self.claimer.same_as(&self.bet.bettor);
        if current_time <= claim_deadline && !is_bettor {
            return Err(SportsbookError::NotBettor);
        }
        Ok((claim_deadline, current_time > claim_deadline && !is_bettor))
    }

    /// Whether a claim made at `current_time` can be decided: whether, if it
    /// is admitted, every leg that the payout reads names a match of the
    /// round.
    pub fn can_be_decided(&self, current_time: i64) -> (ok: bool)
        ensures
            ok == self@.can_be_decided(current_time as int),
    {
        match self.check_admission(current_time) {
            Ok(_) => can_calculate_payout(&self.bet, &self.round_accounting),
            Err(_) => true,
        }
    }
}

/// Splits a payout between the bettor and the claimer. A bounty claim gives
/// the claimer `BOUNTY_BPS` basis points of it, rounded down, and the bettor
/// the rest; any other claim gives the bettor all of it.
pub fn split_payout(final_payout: u64, bounty_claim: bool) -> (shares: (u64, u64))
    ensures
        shares.1 == if bounty_claim {
            bounty_of(final_payout as nat)
        } else {
            0
        },
        shares.0 + shares.1 == final_payout,
{
    if bounty_claim {
        // The bounty is a part of the payout, so it fits in 64 bits as the payout does.
        let bounty = checked_mul_div(final_payout, BOUNTY_BPS, BPS_DENOMINATOR).unwrap();
        (final_payout.saturating_sub(bounty), bounty)
    } else {
        (final_payout, 0)
    }
}

/// Claims a bet at `current_time`, for the claimer named in the accounts.
///
/// Until the claim window has passed, `CLAIM_WINDOW` seconds after the end of
/// the round, only the bettor may claim. After it anyone may: a claimer other
/// than the bettor earns a bounty out of the payout. A claim whose payout is
/// below `min_payout` is rejected. A successful claim returns the amounts
/// that the caller is to transfer from the pool; a rejected one changes
/// nothing.
pub fn handler(ctx: &mut ClaimWinnings, min_payout: u64, current_time: i64) -> (res: Result<
    ClaimResult,
    SportsbookError,
>)
    requires
        old(ctx)@.can_be_decided(current_time as int),
    ensures
        claim_view(res) == old(ctx)@.outcome(min_payout as nat, current_time as int),
        final(ctx)@ == old(ctx)@.after_claim(min_payout as nat, current_time as int),
        res is Err ==> *final(ctx) == *old(ctx),
        final(ctx).round_accounting.total_claimed >= old(ctx).round_accounting.total_claimed,
        final(ctx).round_accounting.total_paid_out >= old(ctx).round_accounting.total_paid_out,
        old(ctx)@.round_accounting.books_in_order()
            ==> final(ctx)@.round_accounting.books_in_order(),
{
    let (claim_deadline, is_bounty_claim) = match ctx.check_admission(current_time) {
        Ok(terms) => terms,
        Err(e) => {
            return Err(e);
        },
    };
    let (won, base_payout, final_payout) = match calculate_bet_payout(
        &ctx.bet,
        &ctx.round_accounting,
    ) {
        Ok(payout) => payout,
        Err(e) => {
            return Err(e);
        },
    };
    if final_payout < min_payout {
        return Err(SportsbookError::PayoutBelowMinimum);
    }
    let mut result = ClaimResult {
        won,
        base_payout,
        final_payout,
        bounty_claim: is_bounty_claim,
        bettor_share: 0,
        bounty: 0,
    };
    if won && final_payout > 0 {
        if ctx.round_accounting.total_paid_out > MAX_ROUND_PAYOUTS || final_payout
            > MAX_ROUND_PAYOUTS - ctx.round_accounting.total_paid_out {
            return Err(SportsbookError::RoundPayoutLimitReached);
        }
        let total_claimed = match ctx.round_accounting.total_claimed.checked_add(final_payout) {
            Some(total) => total,
            None => {
                return Err(SportsbookError::CalculationOverflow);
            },
        };
        if ctx.pool_balance < final_payout {
            return Err(SportsbookError::InsufficientProtocolLiquidity);
        }
        let (bettor_share, bounty) = split_payout(final_payout, is_bounty_claim);
        result.bettor_share = bettor_share;
        result.bounty = bounty;
        ctx.round_accounting.total_claimed = total_claimed;
        ctx.round_accounting.total_paid_out = ctx.round_accounting.total_paid_out + final_payout;
        if is_bounty_claim {
            ctx.bet.bounty_claimer = Some(ctx.claimer);
        }
    }
    if ctx.bet.claim_deadline == 0 {
        ctx.bet.claim_deadline = claim_deadline;
    }
    ctx.bet.claimed = true;
    ctx.bet.settled = true;
    Ok(result)
}

/// Where the walk over the legs ends. It gives a sum exactly when every leg
/// is correct, the odds of each are locked and the sum of what the legs pay
/// fits in 64 bits, and the sum is then that sum. It ends with the bet lost
/// only where a leg is wrong. It ends with no other error than unlocked odds
/// and overflow.
pub proof fn lemma_legs_walk(legs: Seq<Prediction>, round: RoundAccountingView)
    ensures
        legs_walk(legs, round) matches Ok(Some(_)) <==> all_legs_correct(legs, round)
            && all_legs_locked(legs, round) && legs_sum(legs, round) <= u64::MAX,
        legs_walk(legs, round) matches Ok(Some(sum)) ==> sum == legs_sum(legs, round),
        legs_walk(legs, round) == Ok::<Option<nat>, SportsbookError>(None) ==> !all_legs_correct(
            legs,
            round,
        ),
        legs_walk(legs, round) matches Err(e) ==> e == SportsbookError::OddsNotLocked || e
            == SportsbookError::CalculationOverflow,
    decreases legs.len(),
{
    if legs.len() > 0 {
        let front = legs.drop_last();
        lemma_legs_walk(front, round);
        assert forall|i: int| 0 <= i < front.len() implies front[i] == legs[i] by {}
        if all_legs_correct(legs, round) {
            assert forall|i: int| 0 <= i < front.len() implies leg_correct(
                #[trigger] front[i],
                round,
            ) by {
                assert(leg_correct(legs[i], round));
            }
            assert(leg_correct(legs[legs.len() - 1], round));
        }
        if all_legs_locked(legs, round) {
            assert forall|i: int| 0 <= i < front.len() implies leg_locked(
                #[trigger] front[i],
                round,
            ) by {
                assert(leg_locked(legs[i], round));
            }
            assert(leg_locked(legs[legs.len() - 1], round));
        }
        if legs_walk(legs, round) matches Ok(Some(_)) {
            assert forall|i: int| 0 <= i < legs.len() implies leg_correct(
                #[trigger] legs[i],
                round,
            ) by {
                if i < front.len() {
                    assert(leg_correct(front[i], round));
                }
            }
            assert forall|i: int| 0 <= i < legs.len() implies leg_locked(
                #[trigger] legs[i],
                round,
            ) by {
                if i < front.len() {
                    assert(leg_locked(front[i], round));
                }
            }
        }
        if legs_walk(front, round) == Ok::<Option<nat>, SportsbookError>(None) {
            let i = choose|i: int| 0 <= i < front.len() && !leg_correct(#[trigger] front[i], round);
            assert(!leg_correct(legs[i], round));
        }
    }
}

/// The first event decides. Where the legs before the leg at `k` are all
/// correct, on locked odds, and their sum fits in 64 bits, the leg at `k`
/// decides what the bet is worth unless it adds to the sum: if it is wrong
/// the bet has lost and pays nothing, if it is correct on odds that are not
/// locked the payout is rejected with `OddsNotLocked`, and if the sum passes
/// 64 bits with it the payout is rejected with `CalculationOverflow`. The
/// legs behind it change nothing.
pub proof fn lemma_first_event_decides(bet: BetView, round: RoundAccountingView, k: int)
    requires
        0 <= k < bet.predictions.len(),
        all_legs_correct(bet.predictions.take(k), round),
        all_legs_locked(bet.predictions.take(k), round),
        legs_sum(bet.predictions.take(k), round) <= u64::MAX,
    ensures
        !leg_correct(bet.predictions[k], round) ==> payout_of(bet, round) == Ok::<
            (bool, nat, nat),
            SportsbookError,
        >((false, 0, 0)),
        leg_correct(bet.predictions[k], round) && !leg_locked(bet.predictions[k], round)
            ==> payout_of(bet, round) == Err::<(bool, nat, nat), SportsbookError>(
            SportsbookError::OddsNotLocked,
        ),
        leg_correct(bet.predictions[k], round) && leg_locked(bet.predictions[k], round) && legs_sum(
            bet.predictions.take(k),
            round,
        ) + leg_payout(bet.predictions[k], round) > u64::MAX ==> payout_of(bet, round) == Err::<
            (bool, nat, nat),
            SportsbookError,
        >(SportsbookError::CalculationOverflow),
{
    let legs = bet.predictions;
    lemma_legs_walk(legs.take(k), round);
    assert(legs.take(k + 1).drop_last() =~= legs.take(k));
    assert(legs.take(k + 1).last() == legs[k]);
    if !leg_reached(legs, round, k + 1) {
        lemma_walk_ended(legs, round, k + 1);
    }
}

/// Over correct legs whose sum fits in 64 bits the walk gives the sum, or
/// ends on unlocked odds if the odds of a leg are not locked.
proof fn lemma_walk_within_bounds(legs: Seq<Prediction>, round: RoundAccountingView)
    requires
        all_legs_correct(legs, round),
        legs_sum(legs, round) <= u64::MAX,
    ensures
        all_legs_locked(legs, round) ==> legs_walk(legs, round) == Ok::<
            Option<nat>,
            SportsbookError,
        >(Some(legs_sum(legs, round))),
        !all_legs_locked(legs, round) ==> legs_walk(legs, round) == Err::<
            Option<nat>,
            SportsbookError,
        >(SportsbookError::OddsNotLocked),
    decreases legs.len(),
{
    lemma_legs_walk(legs, round);
    if legs.len() > 0 {
        let front = legs.drop_last();
        assert forall|i: int| 0 <= i < front.len() implies leg_correct(
            #[trigger] front[i],
            round,
        ) by {
            assert(leg_correct(legs[i], round));
        }
        assert(leg_correct(legs[legs.len() - 1], round));
        lemma_walk_within_bounds(front, round);
        lemma_legs_walk(front, round);
    }
}

/// Unlocked odds are rejected. Where a leg is on odds that are not locked,
/// and it and the legs before it are all correct and the sum of those before
/// it fits in 64 bits, the payout is rejected with `OddsNotLocked`, whatever
/// the legs behind it hold.
pub proof fn lemma_unlocked_odds_rejected(bet: BetView, round: RoundAccountingView, k: int)
    requires
        0 <= k < bet.predictions.len(),
        all_legs_correct(bet.predictions.take(k + 1), round),
        !leg_locked(bet.predictions[k], round),
        legs_sum(bet.predictions.take(k), round) <= u64::MAX,
    ensures
        payout_of(bet, round) == Err::<(bool, nat, nat), SportsbookError>(
            SportsbookError::OddsNotLocked,
        ),
{
    let legs = bet.predictions;
    assert forall|i: int| 0 <= i < k implies leg_correct(#[trigger] legs.take(k)[i], round) by {
        assert(leg_correct(legs.take(k + 1)[i], round));
    }
    assert(leg_correct(legs.take(k + 1)[k], round));
    lemma_walk_within_bounds(legs.take(k), round);
    assert(legs.take(k + 1).drop_last() =~= legs.take(k));
    assert(legs.take(k + 1).last() == legs[k]);
    if leg_reached(legs, round, k) {
        lemma_walk_ended(legs, round, k + 1);
    } else {
        lemma_walk_ended(legs, round, k);
    }
}

/// The payout formula. A bet whose legs are all correct is worth something
/// exactly when the odds of each leg are locked and the sum of the legs fits
/// in 64 bits; it has then won, its base payout is the sum over its legs of
/// `floor(amount_in_pool * odds / ODDS_SCALE)`, and its final payout is
/// `min(floor(base_payout * locked_multiplier / ODDS_SCALE), MAX_PAYOUT_PER_BET)`.
/// A bet with a wrong leg has not won: whenever it is worth anything it has
/// lost and pays nothing. No bet wins on odds that are not locked. A bet is
/// worth nothing only where the odds of a leg are not locked or the sum
/// overflows.
pub proof fn lemma_payout_formula(bet: BetView, round: RoundAccountingView)
    ensures
        all_legs_correct(bet.predictions, round) ==> (payout_of(bet, round) is Ok
            <==> all_legs_locked(bet.predictions, round) && legs_sum(bet.predictions, round)
            <= u64::MAX),
        all_legs_correct(bet.predictions, round) ==> (payout_of(bet, round) matches Ok(
            (won, base_payout, final_payout),
        ) ==> {
            &&& won
            &&& base_payout == legs_sum(bet.predictions, round)
            &&& final_payout == if base_payout * bet.locked_multiplier / (ODDS_SCALE as nat)
                > MAX_PAYOUT_PER_BET {
                MAX_PAYOUT_PER_BET as nat
            } else {
                base_payout * bet.locked_multiplier / (ODDS_SCALE as nat)
            }
        }),
        !all_legs_correct(bet.predictions, round) && payout_of(bet, round) is Ok ==> payout_of(
            bet,
            round,
        ) == Ok::<(bool, nat, nat), SportsbookError>((false, 0, 0)),
        payout_of(bet, round) matches Ok((won, _, _)) ==> won == all_legs_correct(
            bet.predictions,
            round,
        ),
        payout_of(bet, round) matches Ok((won, _, _)) ==> (won ==> all_legs_locked(
            bet.predictions,
            round,
        )),
        payout_of(bet, round) matches Err(e) ==> e == SportsbookError::OddsNotLocked || e
            == SportsbookError::CalculationOverflow,
        forall|i: int|
            0 <= i < bet.predictions.len() ==> leg_payout(#[trigger] bet.predictions[i], round)
                == bet.predictions[i].amount_in_pool * round.locked_odds[bet.predictions[i].match_index as int].odds_for(
                bet.predictions[i].predicted_outcome,
            ) / (ODDS_SCALE as int),
{
    lemma_legs_walk(bet.predictions, round);
}

/// A bet is claimed once. After a successful claim, every further claim on
/// the bet is rejected as already claimed, whoever makes it and whenever,
/// and changes nothing.
pub proof fn lemma_claim_is_final(
    first: ClaimWinningsView,
    min_payout: nat,
    now: int,
    later_claimer: Seq<u8>,
    later_balance: nat,
    later_min_payout: nat,
    later: int,
)
    requires
        first.outcome(min_payout, now) is Ok,
    ensures
        ({
            let second = ClaimWinningsView {
                claimer: later_claimer,
                pool_balance: later_balance,
                ..first.after_claim(min_payout, now)
            };
            &&& second.outcome(later_min_payout, later) == Err::<
                ClaimResultView,
                SportsbookError,
            >(SportsbookError::BetAlreadyClaimed)
            &&& second.after_claim(later_min_payout, later) == second
        }),
{
}

/// A claim on a bet of a settled round that is marked as claimed is rejected
/// as already claimed and changes nothing.
pub proof fn lemma_claimed_bet_is_rejected(accounts: ClaimWinningsView, min_payout: nat, now: int)
    requires
        accounts.round_accounting.settled,
        accounts.bet.claimed,
    ensures
        accounts.outcome(min_payout, now) == Err::<ClaimResultView, SportsbookError>(
            SportsbookError::BetAlreadyClaimed,
        ),
        accounts.after_claim(min_payout, now) == accounts,
{
}

/// The claim window. Until `CLAIM_WINDOW` seconds after the end of the round
/// a claim by anyone but the bettor is rejected as not the bettor's, so a
/// claim that succeeds is the bettor's and pays the bettor everything. After
/// that no claim is rejected for its claimer: the bettor is paid everything,
/// and with any other claimer the payout is split between the claimer's
/// bounty and the bettor.
pub proof fn lemma_claim_window(accounts: ClaimWinningsView, min_payout: nat, now: int)
    requires
        accounts.round_accounting.settled,
        !accounts.bet.claimed,
        accounts.round_accounting.round_end_time + CLAIM_WINDOW <= i64::MAX,
    ensures
        now <= accounts.round_accounting.round_end_time + CLAIM_WINDOW && accounts.claimer
            != accounts.bet.bettor ==> accounts.outcome(min_payout, now) == Err::<
            ClaimResultView,
            SportsbookError,
        >(SportsbookError::NotBettor),
        now <= accounts.round_accounting.round_end_time + CLAIM_WINDOW ==> (accounts.outcome(
            min_payout,
            now,
        ) matches Ok(result) ==> {
            &&& accounts.claimer == accounts.bet.bettor
            &&& result.bounty == 0
            &&& result.bettor_share == result.final_payout
        }),
        now > accounts.round_accounting.round_end_time + CLAIM_WINDOW ==> accounts.outcome(
            min_payout,
            now,
        ) != Err::<ClaimResultView, SportsbookError>(SportsbookError::NotBettor),
        now > accounts.round_accounting.round_end_time + CLAIM_WINDOW ==> (accounts.outcome(
            min_payout,
            now,
        ) matches Ok(result) ==> {
            &&& accounts.claimer == accounts.bet.bettor ==> result.bounty == 0
                && result.bettor_share == result.final_payout
            &&& accounts.claimer != accounts.bet.bettor ==> result.bounty == bounty_of(
                result.final_payout,
            ) && result.bettor_share == result.final_payout - result.bounty
        }),
{
    lemma_payout_formula(accounts.bet, accounts.round_accounting);
}

/// After the claim window a claim succeeds for one claimer exactly when it
/// succeeds for any other, and finds the same payout.
pub proof fn lemma_late_claim_open_to_all(
    accounts: ClaimWinningsView,
    other_claimer: Seq<u8>,
    min_payout: nat,
    now: int,
)
    requires
        now > accounts.round_accounting.round_end_time + CLAIM_WINDOW,
    ensures
        ({
            let other = ClaimWinningsView { claimer: other_claimer, ..accounts };
            &&& accounts.outcome(min_payout, now) is Ok <==> other.outcome(min_payout, now) is Ok
            &&& accounts.outcome(min_payout, now) is Err ==> other.outcome(min_payout, now)
                == accounts.outcome(min_payout, now)
            &&& accounts.outcome(min_payout, now) is Ok ==> {
                &&& other.outcome(min_payout, now)->Ok_0.won == accounts.outcome(
                    min_payout,
                    now,
                )->Ok_0.won
                &&& other.outcome(min_payout, now)->Ok_0.final_payout == accounts.outcome(
                    min_payout,
                    now,
                )->Ok_0.final_payout
            }
        }),
{
}

/// The split of a payout is exact. Whatever a successful claim pays goes to
/// the bettor and the claimer with nothing lost: a bet that lost, or is worth
/// nothing, pays nothing, and the two shares of any other add up to the final
/// payout. In a bounty claim the bounty is `floor(final_payout * 1000 / 10000)`
/// and the bettor's share is the rest.
pub proof fn lemma_bounty_split_exact(accounts: ClaimWinningsView, min_payout: nat, now: int)
    requires
        accounts.outcome(min_payout, now) is Ok,
    ensures
        ({
            let result = accounts.outcome(min_payout, now)->Ok_0;
            &&& result.bettor_share + result.bounty == result.final_payout
            &&& !result.won ==> result.final_payout == 0
            &&& result.final_payout <= MAX_PAYOUT_PER_BET
            &&& accounts.is_bounty_claim(now) ==> {
                &&& result.bounty == result.final_payout * 1000 / 10000
                &&& result.bettor_share == result.final_payout - result.bounty
            }
            &&& !accounts.is_bounty_claim(now) ==> result.bounty == 0
        }),
{
    lemma_payout_formula(accounts.bet, accounts.round_accounting);
}

/// A claim keeps what was claimed within what is reserved for winners
/// exactly when what it pays fits in what is still reserved.
pub proof fn lemma_claim_within_reservation(accounts: ClaimWinningsView, min_payout: nat, now: int)
    requires
        accounts.outcome(min_payout, now) is Ok,
        accounts.round_accounting.total_claimed
            <= accounts.round_accounting.total_reserved_for_winners,
    ensures
        ({
            let after = accounts.after_claim(min_payout, now).round_accounting;
            let result = accounts.outcome(min_payout, now)->Ok_0;
            &&& after.total_reserved_for_winners
                == accounts.round_accounting.total_reserved_for_winners
            &&& after.total_claimed <= after.total_reserved_for_winners <==> result.final_payout
                <= accounts.round_accounting.total_reserved_for_winners
                - accounts.round_accounting.total_claimed
        }),
{
    lemma_bounty_split_exact(accounts, min_payout, now);
}

/// One claim among those made on a round, each on a bet of its own.
pub struct ClaimAttempt {
    pub bet: BetView,
    pub claimer: Seq<u8>,
    pub pool_balance: nat,
    pub min_payout: nat,
    pub now: int,
}

/// The books of a round after the claims were made on it one after another,
/// the rejected ones among them too.
pub open spec fn round_after_claims(
    round: RoundAccountingView,
    attempts: Seq<ClaimAttempt>,
) -> RoundAccountingView
    decreases attempts.len(),
{
    if attempts.len() == 0 {
        round
    } else {
        let attempt = attempts.last();
        ClaimWinningsView {
            round_accounting: round_after_claims(round, attempts.drop_last()),
            bet: attempt.bet,
            pool_balance: attempt.pool_balance,
            claimer: attempt.claimer,
        }.after_claim(attempt.min_payout, attempt.now).round_accounting
    }
}

/// Over any sequence of claims on a round, what was claimed and what was
/// paid out never decrease from one claim to a later one, and a round that
/// has paid no more than `MAX_ROUND_PAYOUTS` never comes to pay more. No
/// claim distributes the revenue of the round.
pub proof fn lemma_claims_keep_books(
    round: RoundAccountingView,
    attempts: Seq<ClaimAttempt>,
    earlier: int,
    later: int,
)
    requires
        0 <= earlier <= later <= attempts.len(),
    ensures
        round_after_claims(round, attempts.take(earlier)).total_claimed <= round_after_claims(
            round,
            attempts.take(later),
        ).total_claimed,
        round_after_claims(round, attempts.take(earlier)).total_paid_out <= round_after_claims(
            round,
            attempts.take(later),
        ).total_paid_out,
        round.total_paid_out <= MAX_ROUND_PAYOUTS ==> round_after_claims(
            round,
            attempts.take(later),
        ).total_paid_out <= MAX_ROUND_PAYOUTS,
        round.books_in_order() ==> round_after_claims(
            round,
            attempts.take(later),
        ).books_in_order(),
        round_after_claims(round, attempts.take(later)).revenue_distributed
            == round.revenue_distributed,
    decreases later,
{
    if later == 0 {
        assert(attempts.take(0) =~= Seq::<ClaimAttempt>::empty());
    } else {
        assert(attempts.take(later).drop_last() =~= attempts.take(later - 1));
        let before = round_after_claims(round, attempts.take(later - 1));
        let attempt = attempts.take(later).last();
        let accounts = ClaimWinningsView {
            round_accounting: before,
            bet: attempt.bet,
            pool_balance: attempt.pool_balance,
            claimer: attempt.claimer,
        };
        if accounts.outcome(attempt.min_payout, attempt.now) is Ok {
            lemma_bounty_split_exact(accounts, attempt.min_payout, attempt.now);
        }
        if earlier < later {
            lemma_claims_keep_books(round, attempts, earlier, later - 1);
        } else {
            lemma_claims_keep_books(round, attempts, later - 1, later - 1);
        }
    }
}

} // verus!
