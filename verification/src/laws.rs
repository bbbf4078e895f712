//! The library's global guarantees, stated and proved once over the spec
//! transitions that the operations' contracts are pinned to.

use crate::enums::Errors;
use crate::structs::LpPool;
use crate::pool::{
    spec_add_liquidity, spec_pool_fee, spec_remove_liquidity, spec_swap, spec_total_staked_value,
    PoolBalances,
};
use crate::utils::{
    lemma_minted_multiple_of_ten, lemma_payout_multiple_of_ten, saturating_diff, spec_fee_den,
    spec_fee_num, spec_payout, FIXED_POINTS_DECIMALS_MULTIPLIER,
};
use vstd::prelude::*;

verus! {

/// The fee always lies between the two bounds: as a rational over the
/// denominator `spec_fee_den`, it is at least `min_fee` and at most
/// `max_fee` for every nonnegative hypothetical balance.
pub proof fn lemma_fee_within_bounds(
    min_fee: int,
    max_fee: int,
    liquidity_target: int,
    token_amount: int,
)
    requires
        0 <= min_fee <= max_fee,
        0 <= token_amount,
    ensures
        1 <= spec_fee_den(liquidity_target, token_amount),
        min_fee * spec_fee_den(liquidity_target, token_amount) <= spec_fee_num(
            min_fee,
            max_fee,
            liquidity_target,
            token_amount,
        ) <= max_fee * spec_fee_den(liquidity_target, token_amount),
{
    if token_amount < liquidity_target {
        let lt = liquidity_target;
        let range = saturating_diff(max_fee, min_fee);
        assert(min_fee * lt <= max_fee * lt - range * token_amount <= max_fee * lt)
            by (nonlinear_arith)
            requires
                range == max_fee - min_fee,
                0 <= min_fee <= max_fee,
                0 <= token_amount < lt,
        ;
    }
}

/// Raising the hypothetical balance never raises the fee: the curve is
/// monotonically nonincreasing toward the liquidity target, where it
/// floors at `min_fee`.
pub proof fn lemma_fee_monotone(
    min_fee: int,
    max_fee: int,
    liquidity_target: int,
    ta1: int,
    ta2: int,
)
    requires
        0 <= min_fee <= max_fee,
        0 <= ta1 <= ta2,
    ensures
        spec_fee_num(min_fee, max_fee, liquidity_target, ta1) * spec_fee_den(
            liquidity_target,
            ta2,
        ) >= spec_fee_num(min_fee, max_fee, liquidity_target, ta2) * spec_fee_den(
            liquidity_target,
            ta1,
        ),
{
    let lt = liquidity_target;
    let range = saturating_diff(max_fee, min_fee);
    lemma_fee_within_bounds(min_fee, max_fee, lt, ta1);
    lemma_fee_within_bounds(min_fee, max_fee, lt, ta2);
    if ta1 < lt && ta2 < lt {
        assert((max_fee * lt - range * ta1) * lt >= (max_fee * lt - range * ta2) * lt)
            by (nonlinear_arith)
            requires
                0 <= range,
                0 <= ta1 <= ta2 < lt,
        ;
    } else if ta1 < lt {
        // fee(ta1) >= min_fee == fee(ta2)
        assert(spec_fee_num(min_fee, max_fee, lt, ta1) * 1 >= min_fee * lt);
    }
}

/// Below the liquidity target the fee strictly decreases as the balance
/// grows, whenever the two bounds are distinct.
pub proof fn lemma_fee_strictly_decreasing(
    min_fee: int,
    max_fee: int,
    liquidity_target: int,
    ta1: int,
    ta2: int,
)
    requires
        0 <= min_fee < max_fee,
        0 <= ta1 < ta2 < liquidity_target,
    ensures
        spec_fee_num(min_fee, max_fee, liquidity_target, ta1) > spec_fee_num(
            min_fee,
            max_fee,
            liquidity_target,
            ta2,
        ),
        spec_fee_den(liquidity_target, ta1) == spec_fee_den(liquidity_target, ta2),
{
    let range = saturating_diff(max_fee, min_fee);
    assert(range * ta1 < range * ta2) by (nonlinear_arith)
        requires
            1 <= range,
            0 <= ta1 < ta2,
    ;
}

/// The first deposit in a fresh pool mints LP tokens one-to-one and sets
/// both the token reserve and the LP supply to the deposited amount.
pub proof fn lemma_bootstrap_mint(p: LpPool, amount: u64)
    requires
        p.lp_token_amount.0 == 0,
        p.token_amount.0 == 0,
    ensures
        spec_add_liquidity(p, amount).result == Ok::<int, Errors>(amount as int),
        spec_add_liquidity(p, amount).pool == (PoolBalances {
            token: amount as int,
            st_token: p.st_token_amount.0 as int,
            lp_token: amount as int,
        }),
{
}

/// A successful swap always leaves a strictly positive token reserve.
pub proof fn lemma_swap_keeps_reserve_positive(p: LpPool, amount: u64)
    ensures
        spec_swap(p, amount).result matches Ok(_) ==> spec_swap(p, amount).pool.token > 0,
{
}

/// A successful swap pays out a multiple of ten fixed-point units.
pub proof fn lemma_swap_payout_rounded(p: LpPool, amount: u64)
    ensures
        spec_swap(p, amount).result matches Ok(pay) ==> pay % 10 == 0,
{
    if amount != 0 && amount * p.price.0 <= u64::MAX {
        let eq = amount * p.price.0 / (FIXED_POINTS_DECIMALS_MULTIPLIER as int);
        let fee = spec_pool_fee(p, p.token_amount.0 - eq);
        lemma_payout_multiple_of_ten(eq, fee.0, fee.1);
    }
}

/// Every mint after the first deposit is a multiple of ten fixed-point
/// units.  (The bootstrap mint is the deposit itself, unrounded.)
pub proof fn lemma_subsequent_mint_rounded(p: LpPool, amount: u64)
    requires
        p.lp_token_amount.0 != 0,
    ensures
        spec_add_liquidity(p, amount).result matches Ok(m) ==> m % 10 == 0,
{
    match spec_total_staked_value(p) {
        Ok(total) => lemma_minted_multiple_of_ten(amount as int, p.lp_token_amount.0 as int, total),
        Err(_) => {},
    }
}

/// When the pool holds a staked reserve, the token side of a redemption
/// pays out a multiple of ten fixed-point units: zero when the staked
/// side covers the claim, and a fee-adjusted rounded amount otherwise.
/// (With no staked reserve the redemption returns the remaining reserve
/// itself, which is not rounded.)
pub proof fn lemma_remove_token_payout_rounded(p: LpPool, amount: u64)
    requires
        p.st_token_amount.0 != 0,
    ensures
        spec_remove_liquidity(p, amount).result matches Ok(out) ==> out.0 % 10 == 0,
{
    if p.st_token_amount.0 * p.price.0 <= u64::MAX {
        let eq = p.st_token_amount.0 * p.price.0 / (FIXED_POINTS_DECIMALS_MULTIPLIER as int);
        if eq <= p.token_amount.0 {
            let fee = spec_pool_fee(p, p.token_amount.0 - eq);
            let realizable = spec_payout(eq, fee.0, fee.1);
            if realizable < amount {
                let shortfall = amount - realizable;
                let fee2 = spec_pool_fee(p, shortfall);
                lemma_payout_multiple_of_ten(shortfall, fee2.0, fee2.1);
            }
        }
    }
}

/// Redeeming against a pool with no staked reserve reduces the token
/// reserve one-to-one and returns the remaining reserve alongside a zero
/// staked payout.
pub proof fn lemma_remove_without_staked_reserve(p: LpPool, amount: u64)
    requires
        p.st_token_amount.0 == 0,
        amount <= p.token_amount.0,
    ensures
        spec_remove_liquidity(p, amount).result == Ok::<(int, int), Errors>(
            (p.token_amount.0 - amount, 0int),
        ),
        spec_remove_liquidity(p, amount).pool == (PoolBalances {
            token: p.token_amount.0 - amount,
            st_token: 0,
            lp_token: p.lp_token_amount.0 as int,
        }),
{
}

} // verus!
