//! Finalizing the revenue of a round: once every reserved winning has been
//! claimed, what the pool still holds is split between the season reward pool
//! and the protocol, and the round is closed.

use crate::constants::BPS_DENOMINATOR;
use crate::errors::SportsbookError;
use crate::math::mul_div_floor;
use crate::state::{
    BettingPool, BettingPoolView, Identity, RoundAccounting, RoundAccountingView,
};
use vstd::prelude::*;

verus! {

/// The accounts of one finalization.
#[derive(Clone, Debug, PartialEq, Eq)]
pub struct FinalizeRoundRevenue {
    pub betting_pool: BettingPool,
    pub round_accounting: RoundAccounting,
    /// What the pool still holds when the round is finalized.
    pub pool_balance: u64,
    /// Who asks for the finalization.
    pub authority: Identity,
}

/// What a [`FinalizeRoundRevenue`] holds, as mathematical values.
pub struct FinalizeRoundRevenueView {
    pub betting_pool: BettingPoolView,
    pub round_accounting: RoundAccountingView,
    pub pool_balance: nat,
    pub authority: Seq<u8>,
}

impl View for FinalizeRoundRevenue {
    type V = FinalizeRoundRevenueView;

    open spec fn view(&self) -> FinalizeRoundRevenueView {
        FinalizeRoundRevenueView {
            betting_pool: self.betting_pool@,
            round_accounting: self.round_accounting@,
            pool_balance: self.pool_balance as nat,
            authority: self.authority@,
        }
    }
}

/// How the funds left in the pool were split.
#[derive(Clone, Copy, Debug, PartialEq, Eq, Structural)]
pub struct RevenueResult {
    /// What the protocol keeps.
    pub protocol_profit: u64,
    /// What was added to the season reward pool.
    pub season_share: u64,
}

/// What a [`RevenueResult`] holds, as mathematical values.
pub struct RevenueResultView {
    pub protocol_profit: nat,
    pub season_share: nat,
}

impl View for RevenueResult {
    type V = RevenueResultView;

    open spec fn view(&self) -> RevenueResultView {
        RevenueResultView {
            protocol_profit: self.protocol_profit as nat,
            season_share: self.season_share as nat,
        }
    }
}

/// The result of a finalization as mathematical values.
pub open spec fn revenue_view(res: Result<RevenueResult, SportsbookError>) -> Result<
    RevenueResultView,
    SportsbookError,
> {
    match res {
        Ok(result) => Ok(result@),
        Err(e) => Err(e),
    }
}

/// The season pool's share of what is left: `share_bps` basis points of what
/// the users bet before fees, rounded down, and no more than is left.
pub open spec fn season_share_of(user_bets_before_fee: nat, share_bps: nat, remaining: nat) -> nat {
    let share = mul_div_floor(user_bets_before_fee, share_bps, BPS_DENOMINATOR as nat);
    if share > remaining {
        remaining
    } else {
        share
    }
}

impl FinalizeRoundRevenueView {
    /// The finalization is asked for by the authority of the pool.
    pub open spec fn authorized(self) -> bool {
        self.authority == self.betting_pool.authority
    }

    /// What the users of the round bet before fees were taken.
    pub open spec fn user_bets_before_fee(self) -> nat {
        self.round_accounting.total_user_deposits + self.round_accounting.protocol_fee_collected
    }

    /// What the season pool gets of what is left in the pool.
    pub open spec fn season_share(self) -> nat {
        season_share_of(
            self.user_bets_before_fee(),
            self.betting_pool.season_pool_share_bps,
            self.pool_balance,
        )
    }

    /// What a finalization returns. The checks are made in the order in which
    /// they stand here, and the first that fails decides the error.
    pub open spec fn outcome(self) -> Result<RevenueResultView, SportsbookError> {
        let round = self.round_accounting;
        if !round.settled {
            Err(SportsbookError::RoundNotSettled)
        } else if round.revenue_distributed {
            Err(SportsbookError::RevenueAlreadyDistributed)
        } else if round.total_claimed < round.total_reserved_for_winners {
            Err(SportsbookError::RevenueDistributedBeforeClaims)
        } else if self.betting_pool.season_reward_pool + self.season_share() > u64::MAX {
            Err(SportsbookError::CalculationOverflow)
        } else {
            Ok(
                RevenueResultView {
                    protocol_profit: (self.pool_balance - self.season_share()) as nat,
                    season_share: self.season_share(),
                },
            )
        }
    }

    /// The accounts after a finalization. A rejected one leaves them as they
    /// were. A successful one adds the season share to the season reward
    /// pool, records both shares on the round and marks its revenue as
    /// distributed.
    pub open spec fn after_finalize(self) -> FinalizeRoundRevenueView {
        match self.outcome() {
            Err(_) => self,
            Ok(result) => FinalizeRoundRevenueView {
                betting_pool: BettingPoolView {
                    season_reward_pool: self.betting_pool.season_reward_pool + result.season_share,
                    ..self.betting_pool
                },
                round_accounting: RoundAccountingView {
                    protocol_revenue_share: result.protocol_profit,
                    season_revenue_share: result.season_share,
                    revenue_distributed: true,
                    ..self.round_accounting
                },
                ..self
            },
        }
    }
}

impl FinalizeRoundRevenue {
    /// Whether the finalization is asked for by the authority of the pool.
    pub fn is_authorized(&self) -> (ok: bool)
        ensures
            ok == self@.authorized(),
    {
        self.authority.same_as(&self.betting_pool.authority)
    }

    /// What the season pool gets of what is left in the pool.
    fn season_share(&self) -> (share: u64)
        ensures
            share == self@.season_share(),
    {
        let user_bets_before_fee: u128 = self.round_accounting.total_user_deposits as u128
            + self.round_accounting.protocol_fee_collected as u128;
        let share_bps: u128 = self.betting_pool.season_pool_share_bps as u128;
        assert(user_bets_before_fee * share_bps <= 2 * u64::MAX * u16::MAX) by (nonlinear_arith)
            requires
                user_bets_before_fee <= 2 * u64::MAX,
                share_bps <= u16::MAX,
        ;
        let share: u128 = user_bets_before_fee * share_bps / (BPS_DENOMINATOR as u128);
        if share > self.pool_balance as u128 {
            self.pool_balance
        } else {
            share as u64
        }
    }
}

/// Finalizes the revenue of a round, for the authority of the pool.
///
/// The round must be settled, its revenue not yet distributed, and every
/// reserved winning claimed. The season pool gets its share of what the pool
/// still holds, the protocol keeps the rest, and the round is closed: a
/// second finalization is rejected. A rejected finalization changes nothing.
pub fn handler(ctx: &mut FinalizeRoundRevenue) -> (res: Result<RevenueResult, SportsbookError>)
    requires
        old(ctx)@.authorized(),
    ensures
        revenue_view(res) == old(ctx)@.outcome(),
        final(ctx)@ == old(ctx)@.after_finalize(),
        res is Err ==> *final(ctx) == *old(ctx),
        old(ctx)@.round_accounting.books_in_order()
            ==> final(ctx)@.round_accounting.books_in_order(),
{
    if !ctx.round_accounting.settled {
        return Err(SportsbookError::RoundNotSettled);
    }
    if ctx.round_accounting.revenue_distributed {
        return Err(SportsbookError::RevenueAlreadyDistributed);
    }
    if ctx.round_accounting.total_claimed < ctx.round_accounting.total_reserved_for_winners {
        return Err(SportsbookError::RevenueDistributedBeforeClaims);
    }
    let season_share = ctx.season_share();
    let protocol_profit = ctx.pool_balance.saturating_sub(season_share);
    let season_reward_pool = match ctx.betting_pool.season_reward_pool.checked_add(season_share) {
        Some(total) => total,
        None => {
            return Err(SportsbookError::CalculationOverflow);
        },
    };
    ctx.betting_pool.season_reward_pool = season_reward_pool;
    ctx.round_accounting.protocol_revenue_share = protocol_profit;
    ctx.round_accounting.season_revenue_share = season_share;
    ctx.round_accounting.revenue_distributed = true;
    Ok(RevenueResult { protocol_profit, season_share })
}

/// When a round can be finalized. While reserved winnings are unclaimed, the
/// finalization of a settled round whose revenue is not distributed is
/// rejected as coming before the claims. Once they are all claimed it
/// succeeds, unless the season reward pool would overflow, and marks the
/// revenue of the round as distributed.
pub proof fn lemma_finalize_gating(accounts: FinalizeRoundRevenueView)
    requires
        accounts.round_accounting.settled,
        !accounts.round_accounting.revenue_distributed,
    ensures
        accounts.round_accounting.total_claimed
            < accounts.round_accounting.total_reserved_for_winners ==> accounts.outcome() == Err::<
            RevenueResultView,
            SportsbookError,
        >(SportsbookError::RevenueDistributedBeforeClaims),
        accounts.round_accounting.total_claimed
            >= accounts.round_accounting.total_reserved_for_winners ==> (accounts.outcome() is Ok
            <==> accounts.betting_pool.season_reward_pool + accounts.season_share() <= u64::MAX),
        accounts.outcome() matches Err(e) ==> e == SportsbookError::RevenueDistributedBeforeClaims
            || e == SportsbookError::CalculationOverflow,
        accounts.outcome() is Ok ==> {
            &&& accounts.after_finalize().round_accounting.revenue_distributed
            &&& accounts.after_finalize().round_accounting.settled
            &&& accounts.after_finalize().round_accounting.total_claimed
                >= accounts.after_finalize().round_accounting.total_reserved_for_winners
        },
{
}

/// The revenue of a round is distributed once. After a successful
/// finalization, every further one on the round is rejected as already
/// distributed, whatever the pool then holds, and changes nothing.
pub proof fn lemma_finalize_is_final(
    first: FinalizeRoundRevenueView,
    later_balance: nat,
    later_authority: Seq<u8>,
)
    requires
        first.outcome() is Ok,
    ensures
        ({
            let second = FinalizeRoundRevenueView {
                pool_balance: later_balance,
                authority: later_authority,
                ..first.after_finalize()
            };
            &&& second.outcome() == Err::<RevenueResultView, SportsbookError>(
                SportsbookError::RevenueAlreadyDistributed,
            )
            &&& second.after_finalize() == second
        }),
{
}

/// The revenue split. With `R` left in the pool, `D` the deposits and fees of
/// the round and `B` the season share in basis points, a successful
/// finalization gives the season pool `min(floor(D * B / 10000), R)` and the
/// protocol the rest of `R`, with nothing lost. With nothing left, both get
/// nothing.
pub proof fn lemma_revenue_split(accounts: FinalizeRoundRevenueView)
    requires
        accounts.outcome() is Ok,
    ensures
        ({
            let result = accounts.outcome()->Ok_0;
            let remaining = accounts.pool_balance;
            let deposits_and_fees = accounts.round_accounting.total_user_deposits
                + accounts.round_accounting.protocol_fee_collected;
            let share = deposits_and_fees * accounts.betting_pool.season_pool_share_bps / 10000;
            &&& result.season_share == if share > remaining {
                remaining
            } else {
                share
            }
            &&& result.protocol_profit == remaining - result.season_share
            &&& result.season_share + result.protocol_profit == remaining
            &&& remaining == 0 ==> result.season_share == 0 && result.protocol_profit == 0
            &&& accounts.after_finalize().round_accounting.season_revenue_share
                == result.season_share
            &&& accounts.after_finalize().round_accounting.protocol_revenue_share
                == result.protocol_profit
            &&& accounts.after_finalize().betting_pool.season_reward_pool
                == accounts.betting_pool.season_reward_pool + result.season_share
        }),
{
}

} // verus!
