use vstd::prelude::*;

verus! {

/// A token quantity, fixed-point with a 10^6 scale.
pub struct TokenAmount(pub u64);

/// A staked-token quantity, fixed-point with a 10^6 scale.
pub struct StakedTokenAmount(pub u64);

/// A liquidity-provider share quantity, fixed-point with a 10^6 scale.
pub struct LpTokenAmount(pub u64);

/// The staked-token to token exchange rate, fixed-point with a 10^6 scale.
pub struct Price(pub u64);

/// A fee rate on a 100-point percentage scale, fixed-point with a 10^6
/// scale, so that 10^4 units stand for one hundred percent.
#[derive(Debug, Clone, Copy)]
pub struct Percentage(pub u64);

/// The liquidity pool ledger: immutable parameters fixed at construction
/// and the three balances that evolve through `add_liquidity`,
/// `remove_liquidity` and `swap`.
pub struct LpPool {
    pub price: Price,
    pub token_amount: TokenAmount,
    pub st_token_amount: StakedTokenAmount,
    pub lp_token_amount: LpTokenAmount,
    pub liquidity_target: TokenAmount,
    pub min_fee: Percentage,
    pub max_fee: Percentage,
}

} // verus!
