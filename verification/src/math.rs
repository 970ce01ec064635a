//! Checked fixed-point arithmetic.

use vstd::prelude::*;

verus! {

/// `floor(value * numerator / denominator)` over the mathematical integers.
pub open spec fn mul_div_floor(value: nat, numerator: nat, denominator: nat) -> nat
    recommends
        denominator > 0,
{
    (value * numerator) / denominator
}

/// Multiplies, then divides with truncation, holding the product in 128 bits
/// so that it cannot overflow. `None` when the denominator is zero or the
/// quotient does not fit in 64 bits.
pub fn checked_mul_div(value: u64, numerator: u64, denominator: u64) -> (res: Option<u64>)
    ensures
        res == if denominator == 0 || mul_div_floor(
            value as nat,
            numerator as nat,
            denominator as nat,
        ) > u64::MAX {
            None
        } else {
            Some(mul_div_floor(value as nat, numerator as nat, denominator as nat) as u64)
        },
{
    if denominator == 0 {
        return None;
    }
    assert(value * numerator <= u64::MAX * u64::MAX) by (nonlinear_arith)
        requires
            value <= u64::MAX,
            numerator <= u64::MAX,
    ;
    let product: u128 = (value as u128) * (numerator as u128);
    let quotient: u128 = product / (denominator as u128);
    if quotient > u64::MAX as u128 {
        None
    } else {
        Some(quotient as u64)
    }
}

} // verus!
