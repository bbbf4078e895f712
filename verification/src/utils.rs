//! The fee curve and the fixed-point multiplier helpers, as free functions
//! over plain numbers.
//!
//! Fees are exact rationals `num / den` on the percentage scale: `10^4`
//! units stand for one hundred percent.  The curve is total: it yields a
//! fee within the configured bounds for every balance, with no error of
//! its own.  Payouts and mints are computed from those rationals exactly
//! and rounded up to the nearest multiple of ten fixed-point units, in
//! favour of the pool.

use crate::arith::{div_round_up, lemma_staged_div_round_up, mul_quotient_remainder};
use crate::enums::Errors;
use vstd::arithmetic::div_mod::{
    lemma_div_by_multiple, lemma_div_denominator, lemma_div_is_ordered, lemma_div_pos_is_pos,
    lemma_fundamental_div_mod, lemma_mod_multiples_basic,
};
use vstd::arithmetic::mul::lemma_mul_inequality;
use vstd::prelude::*;

verus! {

/// The process-wide fixed-point scale: an integer `v` stands for the real
/// quantity `v / 10^6`.
pub const FIXED_POINTS_DECIMALS_MULTIPLIER: u64 = 1_000_000;

/// One hundred percent on the fee scale: the fixed-point scale spread over
/// a 100-point percentage range.
pub const PERCENTAGE_DIVISOR: u64 = FIXED_POINTS_DECIMALS_MULTIPLIER / 100;

/// The product of two values below the 64-bit limit stays below the square
/// of that limit, and in particular fits in 128 bits.
pub proof fn lemma_u64_mul_fits(a: int, b: int)
    by (nonlinear_arith)
    requires
        0 <= a <= u64::MAX,
        0 <= b <= u64::MAX,
    ensures
        0 <= a * b <= (u64::MAX as int) * (u64::MAX as int),
{
}

/// `a - b`, collapsing to zero instead of going negative.
pub open spec fn saturating_diff(a: int, b: int) -> int {
    if a >= b {
        a - b
    } else {
        0
    }
}

/// What `proportional` returns: the unreduced rational
/// `amount * numerator / denominator`, a unit denominator when the given
/// one is zero, and an error when the numerator product vanishes.
pub open spec fn spec_proportional(amount: int, numerator: int, denominator: int) -> Result<
    (int, int),
    Errors,
> {
    if denominator == 0 {
        Ok((amount, 1))
    } else if amount * numerator == 0 {
        Err(Errors::MultiplicationError)
    } else {
        Ok((amount * numerator, denominator))
    }
}

/// The numerator of the fee charged against a hypothetical token balance,
/// over the denominator `spec_fee_den`.  At or above the liquidity target
/// the fee floors at `min_fee`; below it, the fee falls linearly from
/// `max_fee` toward `min_fee` as the balance approaches the target, with
/// an inverted fee range saturating to zero width, so the curve is total.
pub open spec fn spec_fee_num(min_fee: int, max_fee: int, liquidity_target: int, token_amount: int)
    -> int {
    if token_amount >= liquidity_target {
        min_fee
    } else {
        max_fee * liquidity_target - saturating_diff(max_fee, min_fee) * token_amount
    }
}

/// The denominator matching `spec_fee_num`.
pub open spec fn spec_fee_den(liquidity_target: int, token_amount: int) -> int {
    if token_amount >= liquidity_target {
        1
    } else {
        liquidity_target
    }
}

/// The token payout after charging the fee `fee_num / fee_den` against
/// `amount`, rounded up to the nearest multiple of ten; a fee of one
/// hundred percent or more pays out nothing.
pub open spec fn spec_payout(amount: int, fee_num: int, fee_den: int) -> int {
    let keep = (PERCENTAGE_DIVISOR as int) * fee_den - fee_num;
    if keep <= 0 {
        0
    } else {
        10 * div_round_up(amount * keep, 10 * (PERCENTAGE_DIVISOR as int) * fee_den)
    }
}

/// The LP tokens minted for a deposit: the deposit times the ratio of the
/// current LP supply to the hypothetical total LP supply, rounded up to
/// the nearest multiple of ten.
pub open spec fn spec_minted(deposited: int, lp_supply: int, total_lp: int) -> int {
    10 * div_round_up(deposited * lp_supply, 10 * total_lp)
}

/// An exec rational result, read at the spec level.
pub open spec fn rational_view(r: Result<(u128, u128), Errors>) -> Result<(int, int), Errors> {
    match r {
        Ok(f) => Ok((f.0 as int, f.1 as int)),
        Err(e) => Err(e),
    }
}

/// Checks the construction parameters: the fee bounds must be ordered and
/// the liquidity target positive.
pub fn validate_input(min_fee: u64, max_fee: u64, liquidity_target: u64) -> (r: Result<
    (),
    Errors,
>)
    ensures
        min_fee > max_fee ==> r == Err::<(), Errors>(Errors::InvalidFeeRange),
        min_fee <= max_fee && liquidity_target == 0 ==> r == Err::<(), Errors>(
            Errors::InvalidLiquidityTarget,
        ),
        min_fee <= max_fee && liquidity_target != 0 ==> r == Ok::<(), Errors>(()),
{
    if min_fee > max_fee {
        return Err(Errors::InvalidFeeRange);
    }
    if liquidity_target == 0 {
        return Err(Errors::InvalidLiquidityTarget);
    }
    Ok(())
}

/// The exact proportional value `amount * numerator / denominator` as an
/// unreduced rational; a vanished product is reported as an error.
pub fn proportional(amount: u64, numerator: u64, denominator: u64) -> (r: Result<
    (u128, u128),
    Errors,
>)
    ensures
        rational_view(r) == spec_proportional(amount as int, numerator as int, denominator as int),
{
    if denominator == 0 {
        return Ok(((amount as u128), 1));
    }
    proof {
        lemma_u64_mul_fits(amount as int, numerator as int);
    }
    let prod = (amount as u128) * (numerator as u128);
    if prod == 0 {
        return Err(Errors::MultiplicationError);
    }
    Ok((prod, denominator as u128))
}

/// The dynamic fee for a hypothetical token balance, as the exact
/// rational `spec_fee_num / spec_fee_den`.  The curve is defined for
/// every balance: it never fails, and an inverted fee range collapses to
/// a constant fee of `max_fee` below the target.
pub fn calculate_added_liquidity_fee(
    max_fee: u64,
    min_fee: u64,
    liquidity_target: u64,
    token_amount: u64,
) -> (r: (u128, u128))
    ensures
        r.0 == spec_fee_num(
            min_fee as int,
            max_fee as int,
            liquidity_target as int,
            token_amount as int,
        ),
        r.1 == spec_fee_den(liquidity_target as int, token_amount as int),
{
    if token_amount >= liquidity_target {
        return ((min_fee as u128), 1);
    }
    let fee_range = if max_fee >= min_fee {
        max_fee - min_fee
    } else {
        0
    };
    proof {
        lemma_u64_mul_fits(max_fee as int, liquidity_target as int);
        lemma_u64_mul_fits(fee_range as int, token_amount as int);
        assert((fee_range as int) * (token_amount as int) <= (max_fee as int) * (
        liquidity_target as int)) by (nonlinear_arith)
            requires
                0 <= fee_range <= max_fee,
                0 <= token_amount <= liquidity_target,
        ;
    }
    let interpolated = (fee_range as u128) * (token_amount as u128);
    let num = (max_fee as u128) * (liquidity_target as u128) - interpolated;
    (num, liquidity_target as u128)
}

/// Applies a fee rational to a token amount and rounds the payout up to
/// the nearest multiple of ten: the exact form of the fee-multiplier step
/// shared by `swap` and `remove_liquidity`.
pub fn multiply_swap_token_amount(fee_num: u128, fee_den: u128, token_amount: u64) -> (r: u128)
    requires
        1 <= fee_den <= u64::MAX as u128,
    ensures
        r == spec_payout(token_amount as int, fee_num as int, fee_den as int),
{
    proof {
        lemma_u64_mul_fits(PERCENTAGE_DIVISOR as int, fee_den as int);
    }
    let hundred_percent = (PERCENTAGE_DIVISOR as u128) * fee_den;
    if fee_num >= hundred_percent {
        return 0;
    }
    let keep = hundred_percent - fee_num;
    proof {
        lemma_mul_inequality(PERCENTAGE_DIVISOR as int, u64::MAX as int, fee_den as int);
    }
    let qr = mul_quotient_remainder(token_amount, keep, fee_den);
    let q = qr.0 / 100000;
    let s = qr.0 % 100000;
    let carry: u128 = if s == 0 && qr.1 == 0 {
        0
    } else {
        1
    };
    proof {
        lemma_div_pos_is_pos(qr.0 as int, 100000);
        lemma_div_is_ordered(qr.0 as int, u128::MAX as int, 100000);
        lemma_staged_div_round_up(
            (token_amount as int) * (keep as int),
            fee_den as int,
            100000,
            qr.0 as int,
            qr.1 as int,
        );
    }
    10 * (q + carry)
}

/// The LP tokens minted for a deposit against the current LP supply and
/// the hypothetical total LP supply.
pub fn multiply_add_liquidity_token_amount(
    token_amount: u64,
    lp_token_amount: u64,
    total_lp_tokens: u128,
) -> (r: u128)
    requires
        1 <= total_lp_tokens,
    ensures
        r == spec_minted(token_amount as int, lp_token_amount as int, total_lp_tokens as int),
{
    proof {
        lemma_u64_mul_fits(token_amount as int, lp_token_amount as int);
    }
    let m = (token_amount as u128) * (lp_token_amount as u128);
    let t = m / total_lp_tokens;
    let rem = m % total_lp_tokens;
    let q = t / 10;
    let s = t % 10;
    let carry: u128 = if s == 0 && rem == 0 {
        0
    } else {
        1
    };
    proof {
        lemma_fundamental_div_mod(m as int, total_lp_tokens as int);
        lemma_div_pos_is_pos(m as int, total_lp_tokens as int);
        assert(m as int == (t as int) * (total_lp_tokens as int) + rem as int) by (nonlinear_arith)
            requires
                m as int == (total_lp_tokens as int) * (t as int) + rem as int,
        ;
        lemma_div_is_ordered(t as int, u128::MAX as int, 10);
        lemma_staged_div_round_up(
            m as int,
            total_lp_tokens as int,
            10,
            t as int,
            rem as int,
        );
    }
    10 * (q + carry)
}

/// The token value of a staked amount at a price, scaled back down by the
/// fixed-point multiplier, with the product kept at 64-bit width.
pub fn calculate_staked_tokens(amount: u64, price: u64) -> (r: u64)
    requires
        amount * price <= u64::MAX,
    ensures
        r as int == (amount as int) * (price as int) / (FIXED_POINTS_DECIMALS_MULTIPLIER as int),
{
    (amount * price) / FIXED_POINTS_DECIMALS_MULTIPLIER
}

/// Every payout is a multiple of ten fixed-point units.
pub proof fn lemma_payout_multiple_of_ten(amount: int, fee_num: int, fee_den: int)
    ensures
        spec_payout(amount, fee_num, fee_den) % 10 == 0,
{
    let keep = (PERCENTAGE_DIVISOR as int) * fee_den - fee_num;
    if keep > 0 {
        lemma_mod_multiples_basic(
            div_round_up(amount * keep, 10 * (PERCENTAGE_DIVISOR as int) * fee_den),
            10,
        );
    }
}

/// A payout is never negative and never exceeds the amount it is charged
/// against by more than the width of one rounding step.
pub proof fn lemma_payout_bounded(amount: int, fee_num: int, fee_den: int)
    requires
        0 <= amount,
        0 <= fee_num,
        1 <= fee_den,
    ensures
        0 <= spec_payout(amount, fee_num, fee_den) <= amount + 10,
{
    let keep = (PERCENTAGE_DIVISOR as int) * fee_den - fee_num;
    if keep > 0 {
        let d = (PERCENTAGE_DIVISOR as int) * fee_den;
        let n = amount * keep;
        assert(0 <= amount * keep && amount * keep <= amount * d) by (nonlinear_arith)
            requires
                0 <= amount,
                0 < keep,
                keep <= d,
        ;
        lemma_div_pos_is_pos(n, 10 * d);
        lemma_div_is_ordered(n, amount * d, 10 * d);
        lemma_div_denominator(amount * d, d, 10);
        lemma_div_by_multiple(amount, d);
        lemma_fundamental_div_mod(amount, 10);
    }
}

/// Every proportional mint is a multiple of ten fixed-point units.
pub proof fn lemma_minted_multiple_of_ten(deposited: int, lp_supply: int, total_lp: int)
    ensures
        spec_minted(deposited, lp_supply, total_lp) % 10 == 0,
{
    lemma_mod_multiples_basic(div_round_up(deposited * lp_supply, 10 * total_lp), 10);
}

} // verus!
