use lp_pool::{
    Errors, LpPool, LpTokenAmount, Percentage, Price, StakedTokenAmount, TokenAmount,
};

fn setup_pool(
    price: u64,
    min_fee: u64,
    max_fee: u64,
    liquidity_target: u64,
) -> Result<LpPool, Errors> {
    LpPool::init(
        Price(price),
        Percentage(min_fee),
        Percentage(max_fee),
        TokenAmount(liquidity_target),
    )
}

fn add_liquidity(pool: &mut LpPool, token_amount: u64) -> Result<LpTokenAmount, Errors> {
    pool.add_liquidity(TokenAmount(token_amount))
}

fn swap_tokens(pool: &mut LpPool, staked_token_amount: u64) -> Result<TokenAmount, Errors> {
    pool.swap(StakedTokenAmount(staked_token_amount))
}

fn remove_liquidity(
    pool: &mut LpPool,
    lp_token_amount: u64,
) -> Result<(TokenAmount, StakedTokenAmount), Errors> {
    pool.remove_liquidity(LpTokenAmount(lp_token_amount))
}

#[test]
fn test_init_success() {
    let pool = setup_pool(1500, 10, 900, 90000);
    assert!(pool.is_ok(), "Expected pool initialization to succeed.");
}

#[test]
fn test_init_error() {
    let pool = setup_pool(1500, 5000, 1000, 0);
    assert!(
        pool.is_err(),
        "Expected pool initialization to fail due to incorrect fee settings."
    );
}

#[test]
fn test_add_liquidity_once() {
    let mut pool = setup_pool(1500000, 10, 900, 90000000).expect("Failed to initialize pool");
    let lp_tokens = add_liquidity(&mut pool, 5000000).expect("Failed to add liquidity");

    assert_eq!(lp_tokens.0, 5000000, "Incorrect LP token amount");
    assert_eq!(pool.token_amount.0, 5000000, "Incorrect token reserve");
    assert_eq!(pool.lp_token_amount.0, 5000000, "Incorrect total LP tokens");
}

#[test]
fn test_story() {
    let mut pool = setup_pool(1500000, 10, 900, 90000000).expect("Failed to initialize pool");

    add_liquidity(&mut pool, 100000000).expect("Failed to add initial liquidity");

    let swapped_tokens = swap_tokens(&mut pool, 6000000).expect("Failed to swap staked tokens");
    assert_eq!(
        swapped_tokens.0, 8991000,
        "Incorrect token amount after swap"
    );

    let new_lp_tokens = add_liquidity(&mut pool, 10000000).expect("Failed to add liquidity");
    assert_eq!(
        new_lp_tokens.0, 9999100,
        "Incorrect LP token amount after adding liquidity"
    );

    let swapped_tokens2 =
        swap_tokens(&mut pool, 30000000).expect("Failed to swap staked tokens");
    assert_eq!(
        swapped_tokens2.0, 43442370,
        "Incorrect LP token amount after adding liquidity"
    );

    let removed = remove_liquidity(&mut pool, 109991000).expect("Error while removing tokens");
    assert_eq!(removed.0 .0, 58839960, "Error");
    assert_eq!(removed.1 .0, 36000000, "Error");
}

#[test]
fn test_init_rejects_zero_liquidity_target() {
    let pool = setup_pool(1500, 10, 900, 0);
    assert!(matches!(pool, Err(Errors::InvalidLiquidityTarget)));
}

#[test]
fn test_init_checks_fee_range_first() {
    // Both parameters are invalid; the fee range is reported.
    let pool = setup_pool(1500, 5000, 1000, 0);
    assert!(matches!(pool, Err(Errors::InvalidFeeRange)));
}

#[test]
fn test_swap_zero_amount_rejected() {
    let mut pool = setup_pool(1500000, 10, 900, 90000000).expect("init failed");
    add_liquidity(&mut pool, 5000000).expect("add failed");
    let r = swap_tokens(&mut pool, 0);
    assert!(matches!(r, Err(Errors::InvalidTokenAmount)));
    assert_eq!(pool.token_amount.0, 5000000, "Pool changed on a failed swap");
}

#[test]
fn test_swap_insufficient_liquidity() {
    let mut pool = setup_pool(1500000, 10, 900, 90000000).expect("init failed");
    add_liquidity(&mut pool, 1000).expect("add failed");
    // 667 staked tokens are worth 1000 tokens and would pay out the whole
    // reserve after the minimum fee and the round-up.
    let r = swap_tokens(&mut pool, 667);
    assert!(matches!(r, Err(Errors::InsufficientLiquidity)));
    assert_eq!(pool.token_amount.0, 1000);
    assert_eq!(pool.st_token_amount.0, 0);
}

#[test]
fn test_swap_round_up_exceeding_value_fails() {
    let mut pool = setup_pool(1500000, 10, 900, 90000000).expect("init failed");
    add_liquidity(&mut pool, 1000).expect("add failed");
    // One staked token is worth one token, but the payout rounds up to
    // ten, which the LP supply reduction cannot absorb.
    let r = swap_tokens(&mut pool, 1);
    assert!(matches!(r, Err(Errors::SubtractionOverflow)));
    assert_eq!(pool.token_amount.0, 1000, "Pool changed on a failed swap");
    assert_eq!(pool.lp_token_amount.0, 1000);
}

#[test]
fn test_swap_payouts_are_multiples_of_ten() {
    let mut pool = setup_pool(1500000, 10, 900, 90000000).expect("init failed");
    add_liquidity(&mut pool, 100000000).expect("add failed");
    let first = swap_tokens(&mut pool, 6000000).expect("swap failed");
    let second = swap_tokens(&mut pool, 30000000).expect("swap failed");
    assert_eq!(first.0 % 10, 0);
    assert_eq!(second.0 % 10, 0);
    assert!(pool.token_amount.0 > 0, "Swap drained the reserve");
}

#[test]
fn test_flat_fee_curve_applies_constant_fee() {
    // With equal fee bounds the interpolation term vanishes and the curve
    // charges the constant fee below the target as well.
    let mut pool = setup_pool(1000000, 50, 50, 90000000).expect("init failed");
    add_liquidity(&mut pool, 1000).expect("add failed");
    let first = swap_tokens(&mut pool, 10).expect("first swap failed");
    assert_eq!(first.0, 10);
    let second = swap_tokens(&mut pool, 10).expect("second swap failed");
    assert_eq!(second.0, 10);
    assert_eq!(pool.token_amount.0, 980);
    assert_eq!(pool.st_token_amount.0, 20);
    assert_eq!(pool.lp_token_amount.0, 1000);
}

#[test]
fn test_swap_value_overflow() {
    let mut pool = setup_pool(u64::MAX, 10, 900, 90000000).expect("init failed");
    add_liquidity(&mut pool, 100).expect("add failed");
    let r = swap_tokens(&mut pool, 3);
    assert!(matches!(r, Err(Errors::MultiplicationError)));
    assert_eq!(pool.token_amount.0, 100, "Pool changed on a failed swap");
}

#[test]
fn test_add_liquidity_zero_price_division_error() {
    let mut pool = setup_pool(0, 10, 900, 90000000).expect("init failed");
    add_liquidity(&mut pool, 100).expect("bootstrap add failed");
    let r = add_liquidity(&mut pool, 50);
    assert!(matches!(r, Err(Errors::DivisionByZero)));
    assert_eq!(pool.token_amount.0, 100, "Pool changed on a failed add");
}

#[test]
fn test_add_liquidity_overflow() {
    let mut pool = setup_pool(1500000, 10, 900, 90000000).expect("init failed");
    add_liquidity(&mut pool, u64::MAX).expect("bootstrap add failed");
    let r = add_liquidity(&mut pool, 1);
    assert!(matches!(r, Err(Errors::AdditionOverflow)));
    assert_eq!(pool.token_amount.0, u64::MAX, "Pool changed on a failed add");
}

#[test]
fn test_remove_liquidity_without_staked_reserve() {
    let mut pool = setup_pool(1500000, 10, 900, 90000000).expect("init failed");
    add_liquidity(&mut pool, 5000000).expect("add failed");
    let (tokens, staked) = remove_liquidity(&mut pool, 2000000).expect("remove failed");
    // The remaining total reserve is returned, not the payout.
    assert_eq!(tokens.0, 3000000);
    assert_eq!(staked.0, 0);
    assert_eq!(pool.token_amount.0, 3000000);
}

#[test]
fn test_remove_liquidity_underflow() {
    let mut pool = setup_pool(1500000, 10, 900, 90000000).expect("init failed");
    add_liquidity(&mut pool, 100).expect("add failed");
    let r = remove_liquidity(&mut pool, 200);
    assert!(matches!(r, Err(Errors::SubtractionOverflow)));
    assert_eq!(pool.token_amount.0, 100, "Pool changed on a failed remove");
}

#[test]
fn test_remove_liquidity_paid_from_staked_side() {
    let mut pool = setup_pool(1500000, 10, 900, 90000000).expect("init failed");
    add_liquidity(&mut pool, 100000000).expect("add failed");
    swap_tokens(&mut pool, 6000000).expect("swap failed");
    // A small claim is covered by the staked reserve alone: the excess of
    // the realizable value over the claim, converted at the price.
    let (tokens, staked) = remove_liquidity(&mut pool, 10).expect("remove failed");
    assert_eq!(tokens.0, 0);
    assert_eq!(staked.0, 5946586);
    assert_eq!(pool.st_token_amount.0, 53414);
    assert_eq!(pool.token_amount.0, 91009000, "Token reserve changed");
}

#[test]
fn test_validate_input_cases() {
    assert!(matches!(
        lp_pool::validate_input(5000, 1000, 90000),
        Err(Errors::InvalidFeeRange)
    ));
    assert!(matches!(
        lp_pool::validate_input(10, 900, 0),
        Err(Errors::InvalidLiquidityTarget)
    ));
    assert!(matches!(lp_pool::validate_input(10, 900, 90000), Ok(())));
}

#[test]
fn test_proportional_values() {
    assert!(matches!(
        lp_pool::proportional(890, 45000000, 90000000),
        Ok((40050000000, 90000000))
    ));
    assert!(matches!(
        lp_pool::proportional(0, 5, 9),
        Err(Errors::MultiplicationError)
    ));
    // A zero denominator falls back to the amount itself.
    assert!(matches!(lp_pool::proportional(3, 4, 0), Ok((3, 1))));
}

#[test]
fn test_fee_curve_values() {
    // At or above the liquidity target the fee floors at the minimum.
    assert_eq!(
        lp_pool::calculate_added_liquidity_fee(900, 10, 90000000, 90000000),
        (10, 1)
    );
    // Halfway to the target: 900 - 890/2 = 455, as 40950000000 / 90000000.
    assert_eq!(
        lp_pool::calculate_added_liquidity_fee(900, 10, 90000000, 45000000),
        (40950000000, 90000000)
    );
    // An empty balance pays the full maximum fee.
    assert_eq!(
        lp_pool::calculate_added_liquidity_fee(900, 10, 90000000, 0),
        (81000000000, 90000000)
    );
    // An inverted fee range saturates to zero width: the fee stays at the
    // first bound instead of failing.
    assert_eq!(
        lp_pool::calculate_added_liquidity_fee(900, 5000, 90000000, 45000000),
        (81000000000, 90000000)
    );
}

#[test]
fn test_multiplier_helpers() {
    // The mint that prices the second story deposit.
    assert_eq!(
        lp_pool::multiply_add_liquidity_token_amount(10000000, 99991000, 100000000),
        9999100
    );
    // A minimum-fee payout: 9000000 * 0.999, already a multiple of ten.
    assert_eq!(lp_pool::multiply_swap_token_amount(10, 1, 9000000), 8991000);
    // The round-up pushes a tiny payout to the next ten.
    assert_eq!(lp_pool::multiply_swap_token_amount(10, 1, 1), 10);
    // A fee of one hundred percent or more pays nothing.
    assert_eq!(lp_pool::multiply_swap_token_amount(10000, 1, 500), 0);
    assert_eq!(lp_pool::calculate_staked_tokens(6000000, 1500000), 9000000);
}

#[test]
fn test_fee_decreases_toward_target() {
    // Same denominator, falling numerator: the fee drops from 455 at half
    // the target to about 306.67 at two thirds of it.
    let halfway = lp_pool::calculate_added_liquidity_fee(900, 10, 90000000, 45000000);
    let deeper = lp_pool::calculate_added_liquidity_fee(900, 10, 90000000, 60000000);
    assert_eq!(halfway.1, deeper.1);
    assert!(halfway.0 > deeper.0);
    assert_eq!(deeper.0, 27600000000);
    // At the target and beyond, the fee floors at the minimum.
    let floor = lp_pool::calculate_added_liquidity_fee(900, 10, 90000000, 200000000);
    assert_eq!(floor, (10, 1));
}
