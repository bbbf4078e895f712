//! Accounting core of a single-asset liquidity pool.
//!
//! A [`LpPool`] exchanges a token for a staked-token derivative at a fixed
//! price, charging a dynamic fee that falls linearly as the pool's token
//! reserve approaches its liquidity target.  All balances are unsigned
//! 64-bit fixed-point values with a 10^6 scale; every balance update is
//! checked, and each operation either applies fully or leaves the pool
//! untouched and returns an error.

pub mod arith;
pub mod enums;
pub mod laws;
pub mod pool;
pub mod structs;
pub mod utils;

pub use enums::Errors;
pub use structs::{LpPool, LpTokenAmount, Percentage, Price, StakedTokenAmount, TokenAmount};
pub use utils::{
    calculate_added_liquidity_fee, calculate_staked_tokens, multiply_add_liquidity_token_amount,
    multiply_swap_token_amount, proportional, validate_input, FIXED_POINTS_DECIMALS_MULTIPLIER,
};
