use vstd::prelude::*;

verus! {

/// Every way an operation on a pool can fail.  Each operation's contract
/// states exactly which inputs produce which variant.
#[derive(Debug)]
pub enum Errors {
    /// Construction-time: `min_fee > max_fee`.
    InvalidFeeRange,
    /// Construction-time: the liquidity target is zero.
    InvalidLiquidityTarget,
    /// A proportional fee computation produced a zero result where a
    /// non-zero result was expected, or a product left the 64-bit range.
    MultiplicationError,
    /// A swap would leave the token reserve at zero or below.
    InsufficientLiquidity,
    /// A divisor (the price) was zero where a division was required.
    DivisionByZero,
    /// A checked balance update would fall below zero.
    SubtractionOverflow,
    /// A derived total left the representable range.
    CalculationError,
    /// A checked balance update would exceed the 64-bit range.
    AdditionOverflow,
    /// A zero amount was supplied where a positive one is required.
    InvalidTokenAmount,
}

} // verus!
