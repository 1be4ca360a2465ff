use vstd::prelude::*;

use crate::errors::CollateralVaultError;

verus! {

/// Basis points in one whole (100%).
pub const BASIS_POINTS_DENOMINATOR: u128 = 10_000;

/// The withdrawal fee applied to any collateral that leaves the vault: 0.5%.
pub const WITHDRAWAL_FEE_BASIS_POINTS: u16 = 50;

/// A price reported by an oracle: `price * 10^exponent`, published at `publish_time`.
pub struct OraclePrice {
    pub price: u128,
    pub exponent: i32,
    pub publish_time: u128,
}

/// `percentage_basis_points` basis points of `amount`, rounded down.
pub open spec fn spec_percentage_of(amount: int, percentage_basis_points: int) -> int {
    (amount * percentage_basis_points) / 10_000
}

/// `amount` plus its fee of `fee_basis_points` basis points (the fee rounded down).
pub open spec fn spec_amount_with_fee(amount: int, fee_basis_points: int) -> int {
    amount + spec_percentage_of(amount, fee_basis_points)
}

/// The largest part of `amount` that, with a fee of `fee_basis_points` basis points
/// on it, still fits in `amount` (computed as `amount * 10_000 / (10_000 + fee)`).
pub open spec fn spec_amount_before_fee(amount: int, fee_basis_points: int) -> int {
    (amount * 10_000) / (fee_basis_points + 10_000)
}

/// Whether `amount_with_fee(amount, fee_basis_points)` runs without overflow.
pub open spec fn amount_with_fee_fits(amount: u128, fee_basis_points: u128) -> bool {
    &&& amount * fee_basis_points <= u128::MAX
    &&& spec_amount_with_fee(amount as int, fee_basis_points as int) <= u128::MAX
}

/// Whether `amount_before_fee(amount, fee_basis_points)` runs without overflow.
pub open spec fn amount_before_fee_fits(amount: u128, fee_basis_points: u128) -> bool {
    &&& amount * 10_000 <= u128::MAX
    &&& fee_basis_points + 10_000 <= u128::MAX
}

/// Returns `amount * percentage_basis_points / 10_000`, rounded down.
pub fn percentage_of(amount: u128, percentage_basis_points: u128) -> (r: Result<u128, CollateralVaultError>)
    requires
        amount * percentage_basis_points <= u128::MAX,
    ensures
        r == Ok::<u128, CollateralVaultError>(
            spec_percentage_of(amount as int, percentage_basis_points as int) as u128,
        ),
{
    let result = amount * percentage_basis_points;
    let finalized = result / BASIS_POINTS_DENOMINATOR;
    Ok(finalized)
}

/// Returns `amount` plus `fee_basis_points` basis points of it.
pub fn amount_with_fee(amount: u128, fee_basis_points: u128) -> (r: Result<u128, CollateralVaultError>)
    requires
        amount_with_fee_fits(amount, fee_basis_points),
    ensures
        r == Ok::<u128, CollateralVaultError>(
            spec_amount_with_fee(amount as int, fee_basis_points as int) as u128,
        ),
{
    let fee = match percentage_of(amount, fee_basis_points) {
        Ok(fee) => fee,
        Err(e) => return Err(e),
    };
    Ok(amount + fee)
}

/// Returns `amount * 10_000 / (fee_basis_points + 10_000)`: the part of `amount`
/// that is left once a fee of `fee_basis_points` on that part is taken out.
pub fn amount_before_fee(amount: u128, fee_basis_points: u128) -> (r: Result<u128, CollateralVaultError>)
    requires
        amount_before_fee_fits(amount, fee_basis_points),
    ensures
        r == Ok::<u128, CollateralVaultError>(
            spec_amount_before_fee(amount as int, fee_basis_points as int) as u128,
        ),
{
    let value = (amount * BASIS_POINTS_DENOMINATOR) / (fee_basis_points + BASIS_POINTS_DENOMINATOR);
    Ok(value)
}

/// A fee of at most 100% is at most the amount it is taken on, and never negative.
pub proof fn lemma_percentage_of_bounded(amount: nat, percentage_basis_points: nat)
    requires
        percentage_basis_points <= 10_000,
    ensures
        0 <= spec_percentage_of(amount as int, percentage_basis_points as int) <= amount,
{
    assert(0 <= amount * percentage_basis_points <= amount * 10_000) by (nonlinear_arith)
        requires
            percentage_basis_points <= 10_000,
    ;
    assert((amount * percentage_basis_points) / 10_000 <= (amount * 10_000) / 10_000) by (nonlinear_arith)
        requires
            0 <= amount * percentage_basis_points <= amount * 10_000,
    ;
    assert((amount * 10_000) / 10_000 == amount) by (nonlinear_arith);
}

/// Taking the part before a fee never yields more than the amount, nor less than zero.
pub proof fn lemma_amount_before_fee_bounded(amount: nat, fee_basis_points: nat)
    ensures
        0 <= spec_amount_before_fee(amount as int, fee_basis_points as int) <= amount,
{
    let d = fee_basis_points + 10_000;
    assert(0 <= amount * 10_000 <= amount * d) by (nonlinear_arith)
        requires
            d >= 10_000,
    ;
    assert((amount * 10_000) / d <= (amount * d) / d) by (nonlinear_arith)
        requires
            0 <= amount * 10_000 <= amount * d,
            d > 0,
    ;
    assert((amount * d) / d == amount) by (nonlinear_arith)
        requires
            d > 0,
    ;
    assert(0 <= (amount * 10_000) / d) by (nonlinear_arith)
        requires
            d > 0,
    ;
}

/// Adding the fee to the part before the fee never exceeds the original amount:
/// a reservation sized by `amount_before_fee` can always pay its own fee.
pub proof fn lemma_with_fee_of_before_fee(amount: nat, fee_basis_points: nat)
    ensures
        spec_amount_with_fee(spec_amount_before_fee(amount as int, fee_basis_points as int), fee_basis_points as int)
            <= amount,
{
    let d = fee_basis_points + 10_000;
    let p = spec_amount_before_fee(amount as int, fee_basis_points as int);
    lemma_amount_before_fee_bounded(amount, fee_basis_points);
    // p * d <= amount * 10_000
    assert(p * d <= amount * 10_000) by (nonlinear_arith)
        requires
            p == (amount * 10_000) / d,
            d > 0,
    ;
    // p + p * f / 10_000 <= p * d / 10_000 <= amount
    assert(p + (p * fee_basis_points) / 10_000 <= amount) by (nonlinear_arith)
        requires
            p * d <= amount * 10_000,
            d == fee_basis_points + 10_000,
            p >= 0,
            fee_basis_points >= 0,
    ;
}

/// Taking the part before the fee of an amount that includes its fee gives the
/// amount back, or one less because of the rounding of the fee.
pub proof fn lemma_before_fee_of_with_fee(amount: nat, fee_basis_points: nat)
    ensures
        ({
            let back = spec_amount_before_fee(
                spec_amount_with_fee(amount as int, fee_basis_points as int),
                fee_basis_points as int,
            );
            amount - 1 <= back <= amount
        }),
{
    let d = fee_basis_points + 10_000;
    let q = (amount * fee_basis_points) / 10_000;
    let y = amount + q;
    assert(q * 10_000 <= amount * fee_basis_points < q * 10_000 + 10_000) by (nonlinear_arith)
        requires
            q == (amount * fee_basis_points) / 10_000,
    ;
    assert(y * 10_000 <= amount * d) by (nonlinear_arith)
        requires
            y == amount + q,
            q * 10_000 <= amount * fee_basis_points,
            d == fee_basis_points + 10_000,
    ;
    assert(y * 10_000 > (amount - 1) * d) by (nonlinear_arith)
        requires
            y == amount + q,
            amount * fee_basis_points < q * 10_000 + 10_000,
            d == fee_basis_points + 10_000,
            fee_basis_points >= 0,
    ;
    assert((y * 10_000) / d <= amount) by (nonlinear_arith)
        requires
            y * 10_000 <= amount * d,
            d > 0,
    ;
    assert((y * 10_000) / d >= amount - 1) by (nonlinear_arith)
        requires
            y * 10_000 > (amount - 1) * d,
            d > 0,
    ;
}

} // verus!
