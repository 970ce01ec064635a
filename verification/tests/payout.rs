use sportsbook::constants::{
    BOUNTY_BPS, BPS_DENOMINATOR, CLAIM_WINDOW, MAX_PAYOUT_PER_BET, MAX_ROUND_PAYOUTS, ODDS_SCALE,
};
use sportsbook::errors::SportsbookError;
use sportsbook::instructions::claim_winnings::{
    calculate_bet_payout, can_calculate_payout, split_payout,
};
use sportsbook::math::checked_mul_div;
use sportsbook::state::{Bet, Identity, LockedOdds, MatchOutcome, Prediction, RoundAccounting};

fn key(tag: u8) -> Identity {
    Identity { bytes: [tag; 32] }
}

fn leg(match_index: u8, predicted_outcome: MatchOutcome, amount_in_pool: u64) -> Prediction {
    Prediction { match_index, predicted_outcome, amount_in_pool }
}

fn odds(locked: bool, home_odds: u64, away_odds: u64, draw_odds: u64) -> LockedOdds {
    LockedOdds { locked, home_odds, away_odds, draw_odds }
}

fn bet_of(predictions: Vec<Prediction>, locked_multiplier: u64) -> Bet {
    Bet {
        id: 7,
        bettor: key(1),
        round_id: 3,
        predictions,
        locked_multiplier,
        claimed: false,
        settled: false,
        claim_deadline: 0,
        bounty_claimer: None,
    }
}

fn round_of(match_results: Vec<MatchOutcome>, locked_odds: Vec<LockedOdds>) -> RoundAccounting {
    RoundAccounting {
        round_id: 3,
        match_results,
        locked_odds,
        settled: true,
        round_end_time: 1_000_000,
        total_user_deposits: 0,
        protocol_fee_collected: 0,
        total_bet_volume: 0,
        protocol_seed_amount: 0,
        total_reserved_for_winners: 0,
        total_claimed: 0,
        total_paid_out: 0,
        revenue_distributed: false,
        protocol_revenue_share: 0,
        season_revenue_share: 0,
    }
}

fn three_matches() -> RoundAccounting {
    round_of(
        vec![MatchOutcome::HomeWin, MatchOutcome::Draw, MatchOutcome::AwayWin],
        vec![
            odds(true, 20000, 30000, 35000),
            odds(true, 18000, 40000, 15000),
            odds(true, 12000, 25000, 31000),
        ],
    )
}

#[test]
fn constants_have_their_values() {
    assert_eq!(ODDS_SCALE, 10000);
    assert_eq!(BPS_DENOMINATOR, 10000);
    assert_eq!(BOUNTY_BPS, 1000);
    assert_eq!(CLAIM_WINDOW, 86400);
    assert_eq!(MAX_PAYOUT_PER_BET, 100000);
    assert_eq!(MAX_ROUND_PAYOUTS, 1000000);
}

#[test]
fn mul_div_rounds_down() {
    assert_eq!(checked_mul_div(100, 20000, 10000), Some(200));
    assert_eq!(checked_mul_div(1, 9999, 10000), Some(0));
    assert_eq!(checked_mul_div(3, 15000, 10000), Some(4));
    assert_eq!(checked_mul_div(0, u64::MAX, 1), Some(0));
}

#[test]
fn mul_div_holds_the_product_in_128_bits() {
    assert_eq!(checked_mul_div(u64::MAX, u64::MAX, u64::MAX), Some(u64::MAX));
    assert_eq!(checked_mul_div(u64::MAX, 10000, 10000), Some(u64::MAX));
    assert_eq!(checked_mul_div(1 << 40, 1 << 40, 1 << 20), Some(1 << 60));
}

#[test]
fn mul_div_reports_a_quotient_over_64_bits() {
    assert_eq!(checked_mul_div(u64::MAX, 10001, 10000), None);
    assert_eq!(checked_mul_div(u64::MAX, 2, 1), None);
    assert_eq!(checked_mul_div(u64::MAX, u64::MAX, 1), None);
}

#[test]
fn mul_div_by_zero_has_no_quotient() {
    assert_eq!(checked_mul_div(5, 7, 0), None);
    assert_eq!(checked_mul_div(0, 0, 0), None);
}

#[test]
fn outcome_codes_decode() {
    assert_eq!(MatchOutcome::from_code(1), MatchOutcome::HomeWin);
    assert_eq!(MatchOutcome::from_code(2), MatchOutcome::AwayWin);
    assert_eq!(MatchOutcome::from_code(3), MatchOutcome::Draw);
    assert_eq!(MatchOutcome::from_code(0), MatchOutcome::Pending);
    assert_eq!(MatchOutcome::from_code(4), MatchOutcome::Pending);
    assert_eq!(MatchOutcome::from_code(255), MatchOutcome::Pending);
}

#[test]
fn odds_are_picked_by_outcome() {
    let o = odds(true, 11, 22, 33);
    assert_eq!(o.get_odds(MatchOutcome::HomeWin), 11);
    assert_eq!(o.get_odds(MatchOutcome::AwayWin), 22);
    assert_eq!(o.get_odds(MatchOutcome::Draw), 33);
    assert_eq!(o.get_odds(MatchOutcome::Pending), 0);
}

#[test]
fn identities_compare_by_their_bytes() {
    let a = key(5);
    let mut b = key(5);
    assert!(a.same_as(&b));
    b.bytes[31] = 6;
    assert!(!a.same_as(&b));
    let mut c = key(5);
    c.bytes[0] = 0;
    assert!(!a.same_as(&c));
    assert!(!c.same_as(&a));
}

#[test]
fn two_leg_parlay_pays_sum_times_multiplier() {
    let round = round_of(
        vec![MatchOutcome::HomeWin, MatchOutcome::Draw],
        vec![odds(true, 20000, 0, 0), odds(true, 0, 0, 15000)],
    );
    let bet = bet_of(
        vec![leg(0, MatchOutcome::HomeWin, 100), leg(1, MatchOutcome::Draw, 100)],
        12000,
    );
    assert_eq!(calculate_bet_payout(&bet, &round), Ok((true, 350, 420)));
}

#[test]
fn legs_are_summed_not_compounded() {
    let round = three_matches();
    let bet = bet_of(
        vec![
            leg(0, MatchOutcome::HomeWin, 1000),
            leg(1, MatchOutcome::Draw, 1000),
            leg(2, MatchOutcome::AwayWin, 1000),
        ],
        10000,
    );
    // 2000 + 1500 + 2500, where compounding would give 7500.
    assert_eq!(calculate_bet_payout(&bet, &round), Ok((true, 6000, 6000)));
}

#[test]
fn each_leg_is_rounded_down_before_the_sum() {
    let round = round_of(
        vec![MatchOutcome::HomeWin, MatchOutcome::HomeWin],
        vec![odds(true, 15000, 0, 0), odds(true, 15000, 0, 0)],
    );
    let bet = bet_of(
        vec![leg(0, MatchOutcome::HomeWin, 1), leg(1, MatchOutcome::HomeWin, 1)],
        10000,
    );
    // floor(1.5) + floor(1.5) = 2, where rounding the sum would give 3.
    assert_eq!(calculate_bet_payout(&bet, &round), Ok((true, 2, 2)));
}

#[test]
fn multiplier_is_rounded_down() {
    let round = round_of(vec![MatchOutcome::AwayWin], vec![odds(true, 0, 10000, 0)]);
    let bet = bet_of(vec![leg(0, MatchOutcome::AwayWin, 3)], 15000);
    assert_eq!(calculate_bet_payout(&bet, &round), Ok((true, 3, 4)));
}

#[test]
fn one_wrong_leg_voids_the_bet() {
    let round = three_matches();
    let bet = bet_of(
        vec![
            leg(0, MatchOutcome::HomeWin, 1000),
            leg(1, MatchOutcome::HomeWin, 1000),
            leg(2, MatchOutcome::AwayWin, 1000),
        ],
        12000,
    );
    assert_eq!(calculate_bet_payout(&bet, &round), Ok((false, 0, 0)));
}

#[test]
fn wrong_last_leg_voids_the_bet() {
    let round = three_matches();
    let bet = bet_of(
        vec![leg(0, MatchOutcome::HomeWin, 1000), leg(2, MatchOutcome::Draw, 1000)],
        12000,
    );
    assert_eq!(calculate_bet_payout(&bet, &round), Ok((false, 0, 0)));
}

#[test]
fn unlocked_odds_ahead_of_a_wrong_leg_are_rejected() {
    let round = round_of(
        vec![MatchOutcome::HomeWin, MatchOutcome::Draw],
        vec![odds(false, 20000, 0, 0), odds(true, 0, 0, 15000)],
    );
    let bet = bet_of(
        vec![leg(0, MatchOutcome::HomeWin, 100), leg(1, MatchOutcome::AwayWin, 100)],
        12000,
    );
    assert_eq!(calculate_bet_payout(&bet, &round), Err(SportsbookError::OddsNotLocked));
}

#[test]
fn overflow_ahead_of_a_wrong_leg_is_rejected() {
    let round = round_of(
        vec![MatchOutcome::HomeWin, MatchOutcome::Draw],
        vec![odds(true, u64::MAX, 0, 0), odds(true, 0, 0, 15000)],
    );
    let bet = bet_of(
        vec![leg(0, MatchOutcome::HomeWin, u64::MAX), leg(1, MatchOutcome::AwayWin, 100)],
        12000,
    );
    assert_eq!(calculate_bet_payout(&bet, &round), Err(SportsbookError::CalculationOverflow));
}

#[test]
fn wrong_leg_ahead_of_unlocked_odds_voids_the_bet() {
    let round = round_of(
        vec![MatchOutcome::HomeWin, MatchOutcome::Draw],
        vec![odds(true, 20000, 0, 0), odds(false, 0, 0, 15000)],
    );
    let bet = bet_of(
        vec![leg(0, MatchOutcome::AwayWin, 100), leg(1, MatchOutcome::Draw, 100)],
        12000,
    );
    assert_eq!(calculate_bet_payout(&bet, &round), Ok((false, 0, 0)));
}

#[test]
fn wrong_leg_on_unlocked_odds_voids_the_bet() {
    let round = round_of(
        vec![MatchOutcome::HomeWin, MatchOutcome::Draw],
        vec![odds(true, 20000, 0, 0), odds(false, 0, 0, 15000)],
    );
    let bet = bet_of(
        vec![leg(0, MatchOutcome::HomeWin, 100), leg(1, MatchOutcome::HomeWin, 100)],
        12000,
    );
    assert_eq!(calculate_bet_payout(&bet, &round), Ok((false, 0, 0)));
}

#[test]
fn wrong_leg_ahead_of_an_overflow_voids_the_bet() {
    let round = round_of(
        vec![MatchOutcome::HomeWin, MatchOutcome::Draw],
        vec![odds(true, 20000, 0, 0), odds(true, 0, 0, u64::MAX)],
    );
    let bet = bet_of(
        vec![leg(0, MatchOutcome::Draw, 100), leg(1, MatchOutcome::Draw, u64::MAX)],
        12000,
    );
    assert_eq!(calculate_bet_payout(&bet, &round), Ok((false, 0, 0)));
}

#[test]
fn legs_behind_the_deciding_one_are_not_read() {
    let round = round_of(
        vec![MatchOutcome::HomeWin, MatchOutcome::Draw],
        vec![odds(true, 20000, 0, 0), odds(false, 0, 0, 15000)],
    );
    let lost = bet_of(
        vec![leg(0, MatchOutcome::Draw, 100), leg(200, MatchOutcome::Draw, 100)],
        12000,
    );
    assert!(can_calculate_payout(&lost, &round));
    assert_eq!(calculate_bet_payout(&lost, &round), Ok((false, 0, 0)));
    let unlocked = bet_of(
        vec![leg(1, MatchOutcome::Draw, 100), leg(2, MatchOutcome::Draw, 100)],
        12000,
    );
    assert!(can_calculate_payout(&unlocked, &round));
    assert_eq!(calculate_bet_payout(&unlocked, &round), Err(SportsbookError::OddsNotLocked));
}

#[test]
fn pending_result_is_a_wrong_leg() {
    let round = round_of(vec![MatchOutcome::Pending], vec![odds(true, 20000, 20000, 20000)]);
    let bet = bet_of(vec![leg(0, MatchOutcome::HomeWin, 100)], 10000);
    assert_eq!(calculate_bet_payout(&bet, &round), Ok((false, 0, 0)));
}

#[test]
fn pending_prediction_on_pending_match_pays_nothing() {
    let round = round_of(vec![MatchOutcome::Pending], vec![odds(true, 20000, 20000, 20000)]);
    let bet = bet_of(vec![leg(0, MatchOutcome::Pending, 100)], 10000);
    assert_eq!(calculate_bet_payout(&bet, &round), Ok((true, 0, 0)));
}

#[test]
fn bet_without_legs_wins_nothing() {
    let round = three_matches();
    let bet = bet_of(vec![], 12000);
    assert_eq!(calculate_bet_payout(&bet, &round), Ok((true, 0, 0)));
}

#[test]
fn unlocked_odds_are_rejected() {
    let round = round_of(
        vec![MatchOutcome::HomeWin, MatchOutcome::Draw],
        vec![odds(true, 20000, 0, 0), odds(false, 0, 0, 15000)],
    );
    let bet = bet_of(
        vec![leg(0, MatchOutcome::HomeWin, 100), leg(1, MatchOutcome::Draw, 100)],
        12000,
    );
    assert_eq!(calculate_bet_payout(&bet, &round), Err(SportsbookError::OddsNotLocked));
}

#[test]
fn leg_over_64_bits_overflows() {
    let round = round_of(vec![MatchOutcome::HomeWin], vec![odds(true, 20000, 0, 0)]);
    let bet = bet_of(vec![leg(0, MatchOutcome::HomeWin, u64::MAX)], 10000);
    assert_eq!(calculate_bet_payout(&bet, &round), Err(SportsbookError::CalculationOverflow));
}

#[test]
fn sum_over_64_bits_overflows() {
    let round = round_of(
        vec![MatchOutcome::HomeWin, MatchOutcome::HomeWin],
        vec![odds(true, 10000, 0, 0), odds(true, 10000, 0, 0)],
    );
    let bet = bet_of(
        vec![leg(0, MatchOutcome::HomeWin, u64::MAX), leg(1, MatchOutcome::HomeWin, 1)],
        10000,
    );
    assert_eq!(calculate_bet_payout(&bet, &round), Err(SportsbookError::CalculationOverflow));
    let bet = bet_of(
        vec![leg(0, MatchOutcome::HomeWin, u64::MAX - 1), leg(1, MatchOutcome::HomeWin, 1)],
        0,
    );
    assert_eq!(calculate_bet_payout(&bet, &round), Ok((true, u64::MAX, 0)));
}

#[test]
fn first_faulty_leg_decides_the_error() {
    let round = round_of(
        vec![MatchOutcome::HomeWin, MatchOutcome::HomeWin],
        vec![odds(true, 20000, 0, 0), odds(false, 10000, 0, 0)],
    );
    let overflow_first = bet_of(
        vec![leg(0, MatchOutcome::HomeWin, u64::MAX), leg(1, MatchOutcome::HomeWin, 1)],
        10000,
    );
    assert_eq!(
        calculate_bet_payout(&overflow_first, &round),
        Err(SportsbookError::CalculationOverflow)
    );
    let unlocked_first = bet_of(
        vec![leg(1, MatchOutcome::HomeWin, 1), leg(0, MatchOutcome::HomeWin, u64::MAX)],
        10000,
    );
    assert_eq!(
        calculate_bet_payout(&unlocked_first, &round),
        Err(SportsbookError::OddsNotLocked)
    );
}

#[test]
fn payout_is_capped_per_bet() {
    let round = round_of(vec![MatchOutcome::HomeWin], vec![odds(true, 20000, 0, 0)]);
    let bet = bet_of(vec![leg(0, MatchOutcome::HomeWin, 50_000)], 10001);
    assert_eq!(calculate_bet_payout(&bet, &round), Ok((true, 100_000, 100_000)));
    let bet = bet_of(vec![leg(0, MatchOutcome::HomeWin, 50_000)], 10000);
    assert_eq!(calculate_bet_payout(&bet, &round), Ok((true, 100_000, 100_000)));
    let bet = bet_of(vec![leg(0, MatchOutcome::HomeWin, 49_999)], 10000);
    assert_eq!(calculate_bet_payout(&bet, &round), Ok((true, 99_998, 99_998)));
}

#[test]
fn cap_applies_where_the_scaled_payout_exceeds_64_bits() {
    let round = round_of(vec![MatchOutcome::HomeWin], vec![odds(true, 10000, 0, 0)]);
    let bet = bet_of(vec![leg(0, MatchOutcome::HomeWin, u64::MAX)], u64::MAX);
    assert_eq!(calculate_bet_payout(&bet, &round), Ok((true, u64::MAX, MAX_PAYOUT_PER_BET)));
}

#[test]
fn leg_that_is_read_must_name_a_match() {
    let round = three_matches();
    assert!(can_calculate_payout(&bet_of(vec![leg(2, MatchOutcome::AwayWin, 1)], 1), &round));
    assert!(can_calculate_payout(&bet_of(vec![], 1), &round));
    assert!(!can_calculate_payout(&bet_of(vec![leg(3, MatchOutcome::Draw, 1)], 1), &round));
    assert!(!can_calculate_payout(
        &bet_of(vec![leg(0, MatchOutcome::HomeWin, 1), leg(3, MatchOutcome::Draw, 1)], 1),
        &round
    ));
}

#[test]
fn leg_that_is_read_needs_a_result_and_odds() {
    let no_odds = round_of(vec![MatchOutcome::Draw], vec![]);
    assert!(!can_calculate_payout(&bet_of(vec![leg(0, MatchOutcome::Draw, 1)], 1), &no_odds));
    assert!(!can_calculate_payout(&bet_of(vec![leg(0, MatchOutcome::HomeWin, 1)], 1), &no_odds));
    let no_result = round_of(vec![], vec![odds(true, 1, 1, 1)]);
    assert!(!can_calculate_payout(&bet_of(vec![leg(0, MatchOutcome::Draw, 1)], 1), &no_result));
}

#[test]
fn bounty_is_a_tenth_rounded_down() {
    assert_eq!(split_payout(420, true), (378, 42));
    assert_eq!(split_payout(9, true), (9, 0));
    assert_eq!(split_payout(10, true), (9, 1));
    assert_eq!(split_payout(19, true), (18, 1));
    assert_eq!(split_payout(100_000, true), (90_000, 10_000));
    assert_eq!(split_payout(0, true), (0, 0));
    assert_eq!(split_payout(u64::MAX, true), (u64::MAX - u64::MAX / 10, u64::MAX / 10));
}

#[test]
fn bettor_takes_all_without_a_bounty() {
    assert_eq!(split_payout(420, false), (420, 0));
    assert_eq!(split_payout(u64::MAX, false), (u64::MAX, 0));
}
