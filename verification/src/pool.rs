//! The pool ledger: the three state-transition operations and their exact
//! specifications.
//!
//! Each operation's behaviour is pinned by a spec-level transition
//! function that yields both the result and the balances the pool holds
//! afterwards.  An operation either applies fully or returns an error and
//! leaves the pool exactly as it was.

use crate::enums::Errors;
use crate::structs::{LpPool, LpTokenAmount, Percentage, Price, StakedTokenAmount, TokenAmount};
use crate::utils::{
    calculate_added_liquidity_fee, calculate_staked_tokens, lemma_minted_multiple_of_ten,
    lemma_payout_bounded, lemma_payout_multiple_of_ten, lemma_u64_mul_fits,
    multiply_add_liquidity_token_amount, multiply_swap_token_amount, saturating_diff,
    spec_fee_den, spec_fee_num, spec_minted, spec_payout, validate_input,
    FIXED_POINTS_DECIMALS_MULTIPLIER, PERCENTAGE_DIVISOR,
};
use crate::arith::mul_quotient_remainder;
use vstd::arithmetic::div_mod::{
    lemma_div_denominator, lemma_div_is_ordered, lemma_fundamental_div_mod_converse,
};
use vstd::prelude::*;

verus! {

/// The three mutable balances of a pool, as mathematical integers.
pub ghost struct PoolBalances {
    pub token: int,
    pub st_token: int,
    pub lp_token: int,
}

/// The balances a pool currently holds.
pub open spec fn pool_balances(p: LpPool) -> PoolBalances {
    PoolBalances {
        token: p.token_amount.0 as int,
        st_token: p.st_token_amount.0 as int,
        lp_token: p.lp_token_amount.0 as int,
    }
}

/// The outcome of `add_liquidity`: the minted LP amount or an error, and
/// the balances the pool holds afterwards.
pub ghost struct AddLiquidityStep {
    pub result: Result<int, Errors>,
    pub pool: PoolBalances,
}

/// The outcome of `remove_liquidity`: the token and staked-token payouts
/// or an error, and the balances the pool holds afterwards.
pub ghost struct RemoveLiquidityStep {
    pub result: Result<(int, int), Errors>,
    pub pool: PoolBalances,
}

/// The outcome of `swap`: the token payout or an error, and the balances
/// the pool holds afterwards.
pub ghost struct SwapStep {
    pub result: Result<int, Errors>,
    pub pool: PoolBalances,
}

/// The fee a pool charges against a hypothetical token balance, as the
/// exact rational the curve defines; a pool with no staked reserve pays
/// the minimum fee without consulting the curve.
pub open spec fn spec_pool_fee(p: LpPool, hypothetical: int) -> (int, int) {
    if p.st_token_amount.0 == 0 {
        (p.min_fee.0 as int, 1int)
    } else {
        (
            spec_fee_num(
                p.min_fee.0 as int,
                p.max_fee.0 as int,
                p.liquidity_target.0 as int,
                hypothetical,
            ),
            spec_fee_den(p.liquidity_target.0 as int, hypothetical),
        )
    }
}

/// The hypothetical total LP supply used to price a deposit: the staked
/// reserve's token value is unwound through the fee curve, and the part
/// the fee would keep is added to the current LP supply.
pub open spec fn spec_total_staked_value(p: LpPool) -> Result<int, Errors> {
    if p.price.0 == 0 {
        Err(Errors::DivisionByZero)
    } else if p.st_token_amount.0 * p.price.0 > u64::MAX {
        Err(Errors::MultiplicationError)
    } else {
        let eq = p.st_token_amount.0 * p.price.0 / (FIXED_POINTS_DECIMALS_MULTIPLIER as int);
        if p.st_token_amount.0 != 0 && eq > p.lp_token_amount.0 {
            Err(Errors::SubtractionOverflow)
        } else {
            let fee = spec_pool_fee(p, p.lp_token_amount.0 - eq);
            Ok((eq * fee.0) / ((PERCENTAGE_DIVISOR as int) * fee.1) + p.lp_token_amount.0)
        }
    }
}

/// What `add_liquidity` does: a first deposit mints one-to-one, later
/// deposits mint in proportion to the hypothetical total LP supply; the
/// token reserve and the LP supply both grow by the minted amount.
pub open spec fn spec_add_liquidity(p: LpPool, amount: u64) -> AddLiquidityStep {
    let minted = if p.lp_token_amount.0 == 0 {
        Ok(amount as int)
    } else {
        match spec_total_staked_value(p) {
            Err(e) => Err(e),
            Ok(total) => Ok(spec_minted(amount as int, p.lp_token_amount.0 as int, total)),
        }
    };
    match minted {
        Err(e) => AddLiquidityStep { result: Err(e), pool: pool_balances(p) },
        Ok(m) => if p.token_amount.0 + m > u64::MAX || p.lp_token_amount.0 + m > u64::MAX {
            AddLiquidityStep { result: Err(Errors::AdditionOverflow), pool: pool_balances(p) }
        } else {
            AddLiquidityStep {
                result: Ok(m),
                pool: PoolBalances {
                    token: p.token_amount.0 + m,
                    st_token: p.st_token_amount.0 as int,
                    lp_token: p.lp_token_amount.0 + m,
                },
            }
        },
    }
}

/// What `swap` does: the input is valued at the price, the fee curve is
/// read against the post-swap hypothetical reserve, the payout is rounded
/// up to the nearest ten, and the fee kept shrinks the LP supply.
pub open spec fn spec_swap(p: LpPool, amount: u64) -> SwapStep {
    if amount == 0 {
        SwapStep { result: Err(Errors::InvalidTokenAmount), pool: pool_balances(p) }
    } else if amount * p.price.0 > u64::MAX {
        SwapStep { result: Err(Errors::MultiplicationError), pool: pool_balances(p) }
    } else {
        let eq = amount * p.price.0 / (FIXED_POINTS_DECIMALS_MULTIPLIER as int);
        if p.st_token_amount.0 != 0 && eq > p.token_amount.0 {
            SwapStep { result: Err(Errors::SubtractionOverflow), pool: pool_balances(p) }
        } else {
            let fee = spec_pool_fee(p, p.token_amount.0 - eq);
            let pay = spec_payout(eq, fee.0, fee.1);
            if p.token_amount.0 <= pay {
                SwapStep { result: Err(Errors::InsufficientLiquidity), pool: pool_balances(p) }
            } else if p.st_token_amount.0 + amount > u64::MAX {
                SwapStep { result: Err(Errors::AdditionOverflow), pool: pool_balances(p) }
            } else if pay > eq || eq - pay > p.lp_token_amount.0 {
                SwapStep { result: Err(Errors::SubtractionOverflow), pool: pool_balances(p) }
            } else {
                SwapStep {
                    result: Ok(pay),
                    pool: PoolBalances {
                        token: p.token_amount.0 - pay,
                        st_token: p.st_token_amount.0 + amount,
                        lp_token: p.lp_token_amount.0 - (eq - pay),
                    },
                }
            }
        }
    }
}

/// What `remove_liquidity` does: with no staked reserve the token reserve
/// shrinks one-to-one and the remaining reserve is returned; otherwise the
/// staked side is drained first, and any shortfall is paid from the token
/// side after passing back through the fee curve.
pub open spec fn spec_remove_liquidity(p: LpPool, amount: u64) -> RemoveLiquidityStep {
    if p.st_token_amount.0 == 0 {
        if amount > p.token_amount.0 {
            RemoveLiquidityStep { result: Err(Errors::SubtractionOverflow), pool: pool_balances(p) }
        } else {
            RemoveLiquidityStep {
                result: Ok((p.token_amount.0 - amount, 0int)),
                pool: PoolBalances {
                    token: p.token_amount.0 - amount,
                    st_token: 0,
                    lp_token: p.lp_token_amount.0 as int,
                },
            }
        }
    } else if p.st_token_amount.0 * p.price.0 > u64::MAX {
        RemoveLiquidityStep { result: Err(Errors::MultiplicationError), pool: pool_balances(p) }
    } else {
        let eq = p.st_token_amount.0 * p.price.0 / (FIXED_POINTS_DECIMALS_MULTIPLIER as int);
        if eq > p.token_amount.0 {
            RemoveLiquidityStep { result: Err(Errors::SubtractionOverflow), pool: pool_balances(p) }
        } else {
            let fee = spec_pool_fee(p, p.token_amount.0 - eq);
            let realizable = spec_payout(eq, fee.0, fee.1);
            if realizable >= amount {
                if p.price.0 == 0 {
                    RemoveLiquidityStep {
                        result: Err(Errors::DivisionByZero),
                        pool: pool_balances(p),
                    }
                } else {
                    let staked_out = (realizable - amount) * (
                    FIXED_POINTS_DECIMALS_MULTIPLIER as int) / (p.price.0 as int);
                    if staked_out > p.st_token_amount.0 {
                        RemoveLiquidityStep {
                            result: Err(Errors::SubtractionOverflow),
                            pool: pool_balances(p),
                        }
                    } else {
                        RemoveLiquidityStep {
                            result: Ok((0int, staked_out)),
                            pool: PoolBalances {
                                token: p.token_amount.0 as int,
                                st_token: p.st_token_amount.0 - staked_out,
                                lp_token: p.lp_token_amount.0 as int,
                            },
                        }
                    }
                }
            } else {
                let shortfall = amount - realizable;
                let fee2 = spec_pool_fee(p, shortfall);
                let pay = spec_payout(shortfall, fee2.0, fee2.1);
                if pay > u64::MAX {
                    RemoveLiquidityStep {
                        result: Err(Errors::AdditionOverflow),
                        pool: pool_balances(p),
                    }
                } else {
                    RemoveLiquidityStep {
                        result: Ok((pay, p.st_token_amount.0 as int)),
                        pool: pool_balances(p),
                    }
                }
            }
        }
    }
}

impl LpPool {
    /// Builds a pool after validating the parameters: the fee bounds must
    /// be ordered, checked first, and the liquidity target positive; the
    /// three balances start at zero.
    pub fn init(
        price: Price,
        min_fee: Percentage,
        max_fee: Percentage,
        liquidity_target: TokenAmount,
    ) -> (r: Result<LpPool, Errors>)
        ensures
            min_fee.0 > max_fee.0 ==> (r matches Err(e) && e == Errors::InvalidFeeRange),
            min_fee.0 <= max_fee.0 && liquidity_target.0 == 0 ==> (r matches Err(e) && e
                == Errors::InvalidLiquidityTarget),
            min_fee.0 <= max_fee.0 && liquidity_target.0 != 0 ==> (r matches Ok(p) && p.price
                == price && p.min_fee == min_fee && p.max_fee == max_fee && p.liquidity_target
                == liquidity_target && p.token_amount.0 == 0 && p.st_token_amount.0 == 0
                && p.lp_token_amount.0 == 0),
    {
        let pool = LpPool {
            price,
            token_amount: TokenAmount(0),
            st_token_amount: StakedTokenAmount(0),
            lp_token_amount: LpTokenAmount(0),
            liquidity_target,
            min_fee,
            max_fee,
        };
        match validate_input(pool.min_fee.0, pool.max_fee.0, pool.liquidity_target.0) {
            Ok(_) => Ok(pool),
            Err(e) => Err(e),
        }
    }

    /// The hypothetical total LP supply backing a deposit, per
    /// `spec_total_staked_value`; never smaller than the current supply.
    fn calculate_total_staked_token_amount(&self) -> (r: Result<u128, Errors>)
        ensures
            match r {
                Ok(t) => spec_total_staked_value(*self) == Ok::<int, Errors>(t as int),
                Err(e) => spec_total_staked_value(*self) == Err::<int, Errors>(e),
            },
            r matches Ok(t) ==> t >= self.lp_token_amount.0,
    {
        if self.price.0 == 0 {
            return Err(Errors::DivisionByZero);
        }
        proof {
            lemma_u64_mul_fits(self.st_token_amount.0 as int, self.price.0 as int);
        }
        let prod = (self.st_token_amount.0 as u128) * (self.price.0 as u128);
        if prod > u64::MAX as u128 {
            return Err(Errors::MultiplicationError);
        }
        let eq = (prod / (FIXED_POINTS_DECIMALS_MULTIPLIER as u128)) as u64;
        let fee = if self.st_token_amount.0 == 0 {
            ((self.min_fee.0 as u128), 1u128)
        } else {
            if eq > self.lp_token_amount.0 {
                return Err(Errors::SubtractionOverflow);
            }
            calculate_added_liquidity_fee(
                self.max_fee.0,
                self.min_fee.0,
                self.liquidity_target.0,
                self.lp_token_amount.0 - eq,
            )
        };
        proof {
            if self.st_token_amount.0 == 0 {
                assert(fee.0 <= (u64::MAX as u128) * fee.1);
            } else {
                lemma_fee_fits(
                    self.min_fee.0,
                    self.max_fee.0,
                    self.liquidity_target.0,
                    (self.lp_token_amount.0 - eq) as u64,
                    fee,
                );
            }
        }
        let qr = mul_quotient_remainder(eq, fee.0, fee.1);
        let unscaled = qr.0 / (PERCENTAGE_DIVISOR as u128);
        proof {
            lemma_fundamental_div_mod_converse(
                (eq as int) * (fee.0 as int),
                fee.1 as int,
                qr.0 as int,
                qr.1 as int,
            );
            lemma_div_denominator(
                (eq as int) * (fee.0 as int),
                fee.1 as int,
                PERCENTAGE_DIVISOR as int,
            );
            lemma_div_is_ordered(qr.0 as int, u128::MAX as int, PERCENTAGE_DIVISOR as int);
        }
        let total = unscaled + (self.lp_token_amount.0 as u128);
        Ok(total)
    }

    /// Deposits tokens.  The first deposit mints LP tokens one-to-one;
    /// later deposits mint the deposit times the share of the current LP
    /// supply in the hypothetical total supply, rounded up to the nearest
    /// ten.  Reserve and supply grow by the minted amount, atomically.
    /// A zero deposit is accepted — only `swap` demands a positive
    /// amount — and mints nothing, leaving the balances unchanged.
    pub fn add_liquidity(&mut self, token_amount: TokenAmount) -> (r: Result<LpTokenAmount, Errors>)
        ensures
            ({
                let step = spec_add_liquidity(*old(self), token_amount.0);
                &&& final(self).price == old(self).price
                &&& final(self).min_fee == old(self).min_fee
                &&& final(self).max_fee == old(self).max_fee
                &&& final(self).liquidity_target == old(self).liquidity_target
                &&& pool_balances(*final(self)) == step.pool
                &&& match r {
                    Ok(m) => step.result == Ok::<int, Errors>(m.0 as int),
                    Err(e) => step.result == Err::<int, Errors>(e),
                }
            }),
            r matches Err(_) ==> *final(self) == *old(self),
            old(self).lp_token_amount.0 != 0 ==> (r matches Ok(m) ==> m.0 % 10 == 0),
    {
        let minted: u128 = if self.lp_token_amount.0 == 0 {
            token_amount.0 as u128
        } else {
            let total = match self.calculate_total_staked_token_amount() {
                Ok(t) => t,
                Err(e) => return Err(e),
            };
            proof {
                lemma_minted_multiple_of_ten(
                    token_amount.0 as int,
                    self.lp_token_amount.0 as int,
                    total as int,
                );
            }
            multiply_add_liquidity_token_amount(token_amount.0, self.lp_token_amount.0, total)
        };
        if minted > ((u64::MAX - self.token_amount.0) as u128) {
            return Err(Errors::AdditionOverflow);
        }
        if minted > ((u64::MAX - self.lp_token_amount.0) as u128) {
            return Err(Errors::AdditionOverflow);
        }
        let m64 = minted as u64;
        self.token_amount.0 = self.token_amount.0 + m64;
        self.lp_token_amount.0 = self.lp_token_amount.0 + m64;
        Ok(LpTokenAmount(m64))
    }

    /// Redeems LP tokens.  With no staked reserve the token reserve
    /// shrinks one-to-one and the remaining reserve is returned; otherwise
    /// the staked side is drained first — the excess of the realizable
    /// value over the claim is converted to staked units at the price —
    /// and a shortfall is paid from the token side after passing back
    /// through the fee curve, rounded up to the nearest ten.
    /// A zero redemption is accepted — only `swap` demands a positive
    /// amount; against a staked reserve it converts the whole realizable
    /// value and pays it out in staked tokens.
    pub fn remove_liquidity(&mut self, lp_token_amount: LpTokenAmount) -> (r: Result<
        (TokenAmount, StakedTokenAmount),
        Errors,
    >)
        ensures
            ({
                let step = spec_remove_liquidity(*old(self), lp_token_amount.0);
                &&& final(self).price == old(self).price
                &&& final(self).min_fee == old(self).min_fee
                &&& final(self).max_fee == old(self).max_fee
                &&& final(self).liquidity_target == old(self).liquidity_target
                &&& pool_balances(*final(self)) == step.pool
                &&& match r {
                    Ok(out) => step.result == Ok::<(int, int), Errors>(
                        (out.0.0 as int, out.1.0 as int),
                    ),
                    Err(e) => step.result == Err::<(int, int), Errors>(e),
                }
            }),
            r matches Err(_) ==> *final(self) == *old(self),
            old(self).st_token_amount.0 != 0 ==> (r matches Ok(out) ==> out.0.0 % 10 == 0),
    {
        if self.st_token_amount.0 == 0 {
            if lp_token_amount.0 > self.token_amount.0 {
                return Err(Errors::SubtractionOverflow);
            }
            self.token_amount.0 = self.token_amount.0 - lp_token_amount.0;
            return Ok((TokenAmount(self.token_amount.0), StakedTokenAmount(0)));
        }
        proof {
            lemma_u64_mul_fits(self.st_token_amount.0 as int, self.price.0 as int);
        }
        let prod = (self.st_token_amount.0 as u128) * (self.price.0 as u128);
        if prod > u64::MAX as u128 {
            return Err(Errors::MultiplicationError);
        }
        let eq = (prod / (FIXED_POINTS_DECIMALS_MULTIPLIER as u128)) as u64;
        if eq > self.token_amount.0 {
            return Err(Errors::SubtractionOverflow);
        }
        let fee = calculate_added_liquidity_fee(
            self.max_fee.0,
            self.min_fee.0,
            self.liquidity_target.0,
            self.token_amount.0 - eq,
        );
        proof {
            lemma_fee_fits(
                self.min_fee.0,
                self.max_fee.0,
                self.liquidity_target.0,
                (self.token_amount.0 - eq) as u64,
                fee,
            );
            lemma_payout_bounded(eq as int, fee.0 as int, fee.1 as int);
        }
        let realizable = multiply_swap_token_amount(fee.0, fee.1, eq);
        if realizable >= (lp_token_amount.0 as u128) {
            let excess = realizable - (lp_token_amount.0 as u128);
            if self.price.0 == 0 {
                return Err(Errors::DivisionByZero);
            }
            let staked_out = excess * (FIXED_POINTS_DECIMALS_MULTIPLIER as u128) / (
            self.price.0 as u128);
            if staked_out > (self.st_token_amount.0 as u128) {
                return Err(Errors::SubtractionOverflow);
            }
            let so64 = staked_out as u64;
            self.st_token_amount.0 = self.st_token_amount.0 - so64;
            return Ok((TokenAmount(0), StakedTokenAmount(so64)));
        }
        let shortfall = lp_token_amount.0 - (realizable as u64);
        let fee2 = calculate_added_liquidity_fee(
            self.max_fee.0,
            self.min_fee.0,
            self.liquidity_target.0,
            shortfall,
        );
        proof {
            lemma_fee_fits(
                self.min_fee.0,
                self.max_fee.0,
                self.liquidity_target.0,
                shortfall,
                fee2,
            );
            lemma_payout_multiple_of_ten(shortfall as int, fee2.0 as int, fee2.1 as int);
        }
        let pay = multiply_swap_token_amount(fee2.0, fee2.1, shortfall);
        if pay > (u64::MAX as u128) {
            return Err(Errors::AdditionOverflow);
        }
        Ok((TokenAmount(pay as u64), StakedTokenAmount(self.st_token_amount.0)))
    }

    /// Swaps staked tokens for tokens.  The input is valued at the price,
    /// the fee curve is read against the post-swap hypothetical reserve,
    /// and the payout, rounded up to the nearest ten, must leave a
    /// strictly positive reserve; the fee kept shrinks the LP supply.
    pub fn swap(&mut self, staked_token_amount: StakedTokenAmount) -> (r: Result<
        TokenAmount,
        Errors,
    >)
        ensures
            ({
                let step = spec_swap(*old(self), staked_token_amount.0);
                &&& final(self).price == old(self).price
                &&& final(self).min_fee == old(self).min_fee
                &&& final(self).max_fee == old(self).max_fee
                &&& final(self).liquidity_target == old(self).liquidity_target
                &&& pool_balances(*final(self)) == step.pool
                &&& match r {
                    Ok(t) => step.result == Ok::<int, Errors>(t.0 as int),
                    Err(e) => step.result == Err::<int, Errors>(e),
                }
            }),
            r matches Err(_) ==> *final(self) == *old(self),
            r matches Ok(t) ==> t.0 % 10 == 0 && final(self).token_amount.0 > 0,
            staked_token_amount.0 == 0 ==> (r matches Err(e) && e == Errors::InvalidTokenAmount),
    {
        if staked_token_amount.0 == 0 {
            return Err(Errors::InvalidTokenAmount);
        }
        proof {
            lemma_u64_mul_fits(staked_token_amount.0 as int, self.price.0 as int);
        }
        let prod = (staked_token_amount.0 as u128) * (self.price.0 as u128);
        if prod > u64::MAX as u128 {
            return Err(Errors::MultiplicationError);
        }
        let eq = calculate_staked_tokens(staked_token_amount.0, self.price.0);
        let fee = if self.st_token_amount.0 == 0 {
            ((self.min_fee.0 as u128), 1u128)
        } else {
            if eq > self.token_amount.0 {
                return Err(Errors::SubtractionOverflow);
            }
            calculate_added_liquidity_fee(
                self.max_fee.0,
                self.min_fee.0,
                self.liquidity_target.0,
                self.token_amount.0 - eq,
            )
        };
        proof {
            if self.st_token_amount.0 != 0 {
                lemma_fee_fits(
                    self.min_fee.0,
                    self.max_fee.0,
                    self.liquidity_target.0,
                    (self.token_amount.0 - eq) as u64,
                    fee,
                );
            }
            lemma_payout_multiple_of_ten(eq as int, fee.0 as int, fee.1 as int);
        }
        let pay = multiply_swap_token_amount(fee.0, fee.1, eq);
        if (self.token_amount.0 as u128) <= pay {
            return Err(Errors::InsufficientLiquidity);
        }
        let pay64 = pay as u64;
        if staked_token_amount.0 > u64::MAX - self.st_token_amount.0 {
            return Err(Errors::AdditionOverflow);
        }
        if pay64 > eq {
            return Err(Errors::SubtractionOverflow);
        }
        let fee_kept = eq - pay64;
        if fee_kept > self.lp_token_amount.0 {
            return Err(Errors::SubtractionOverflow);
        }
        self.st_token_amount.0 = self.st_token_amount.0 + staked_token_amount.0;
        self.token_amount.0 = self.token_amount.0 - pay64;
        self.lp_token_amount.0 = self.lp_token_amount.0 - fee_kept;
        Ok(TokenAmount(pay64))
    }
}

/// A fee returned by the curve has its denominator in the 64-bit range
/// and its numerator at most `u64::MAX` times the denominator, so the
/// staged divisions' preconditions hold.
proof fn lemma_fee_fits(
    min_fee: u64,
    max_fee: u64,
    liquidity_target: u64,
    token_amount: u64,
    fee: (u128, u128),
)
    requires
        fee.0 as int == spec_fee_num(
            min_fee as int,
            max_fee as int,
            liquidity_target as int,
            token_amount as int,
        ),
        fee.1 as int == spec_fee_den(liquidity_target as int, token_amount as int),
    ensures
        1 <= fee.1 <= u64::MAX as u128,
        fee.0 <= (u64::MAX as u128) * fee.1,
{
    if token_amount >= liquidity_target {
        assert(fee.0 as int <= (u64::MAX as int) * (fee.1 as int)) by (nonlinear_arith)
            requires
                fee.0 as int <= u64::MAX as int,
                fee.1 as int == 1,
        ;
    } else {
        let range = saturating_diff(max_fee as int, min_fee as int);
        let ta = token_amount as int;
        let lt = liquidity_target as int;
        assert(fee.0 as int == (max_fee as int) * lt - range * ta && fee.1 as int == lt);
        assert(fee.0 as int <= (u64::MAX as int) * (fee.1 as int)) by (nonlinear_arith)
            requires
                fee.0 as int == (max_fee as int) * lt - range * ta,
                fee.1 as int == lt,
                0 <= range,
                0 <= ta,
                0 <= max_fee as int <= u64::MAX as int,
                1 <= lt,
        ;
    }
}

} // verus!
