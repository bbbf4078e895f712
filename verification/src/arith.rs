//! Exact integer division helpers.
//!
//! The fee and payout formulas are rationals whose numerators do not always
//! fit in 128 bits.  The helpers here evaluate their floors and ceilings
//! exactly by dividing in stages and carrying remainders, so that every
//! intermediate value stays within `u128`.

use vstd::arithmetic::div_mod::{
    lemma_div_is_ordered, lemma_div_multiples_vanish, lemma_div_pos_is_pos,
    lemma_fundamental_div_mod, lemma_fundamental_div_mod_converse,
};
use vstd::prelude::*;

verus! {

/// Integer division rounded toward positive infinity, for a nonnegative
/// dividend and a positive divisor.
pub open spec fn div_round_up(n: int, d: int) -> int {
    if n % d == 0 {
        n / d
    } else {
        n / d + 1
    }
}

/// Rounding up by a product `scale * den` can be done in stages: reduce the
/// dividend to a quotient `t` and remainder `r` by `den`, divide `t` by
/// `scale`, and carry one unit whenever either remainder is non-zero.
pub proof fn lemma_staged_div_round_up(n: int, den: int, scale: int, t: int, r: int)
    requires
        1 <= den,
        1 <= scale,
        0 <= t,
        0 <= r < den,
        n == t * den + r,
    ensures
        div_round_up(n, scale * den) == t / scale + if t % scale == 0 && r == 0 {
            0int
        } else {
            1int
        },
{
    let q = t / scale;
    let s = t % scale;
    lemma_fundamental_div_mod(t, scale);
    lemma_div_pos_is_pos(t, scale);
    assert(n == q * (scale * den) + (s * den + r)) by (nonlinear_arith)
        requires
            n == t * den + r,
            t == scale * q + s,
    ;
    assert(0 <= s * den + r && s * den + r < scale * den) by (nonlinear_arith)
        requires
            0 <= s < scale,
            0 <= r < den,
            1 <= den,
            1 <= scale,
    ;
    lemma_fundamental_div_mod_converse(n, scale * den, q, s * den + r);
    assert(s * den + r == 0 <==> s == 0 && r == 0) by (nonlinear_arith)
        requires
            0 <= s,
            0 <= r,
            1 <= den,
    ;
}

/// The quotient and remainder of `a * b` by `den`, computed without ever
/// forming the full product, which may exceed 128 bits.
pub fn mul_quotient_remainder(a: u64, b: u128, den: u128) -> (qr: (u128, u128))
    requires
        1 <= den <= u64::MAX as u128,
        b <= den * (u64::MAX as u128),
    ensures
        a * b == qr.0 * den + qr.1,
        qr.1 < den,
{
    let ghost ai = a as int;
    let ghost bi = b as int;
    let ghost di = den as int;
    let b1 = b / den;
    let b0 = b % den;
    proof {
        lemma_fundamental_div_mod(bi, di);
        lemma_div_is_ordered(bi, di * (u64::MAX as int), di);
        lemma_div_multiples_vanish(u64::MAX as int, di);
        assert(ai * (b0 as int) <= (u64::MAX as int) * (u64::MAX as int)) by (nonlinear_arith)
            requires
                0 <= ai <= u64::MAX as int,
                0 <= b0 as int <= u64::MAX as int,
        ;
    }
    let m0 = (a as u128) * b0;
    let r = m0 % den;
    proof {
        let mi = m0 as int;
        lemma_fundamental_div_mod(mi, di);
        assert(mi <= ai * di) by (nonlinear_arith)
            requires
                mi == ai * (b0 as int),
                0 <= b0 as int,
                (b0 as int) < di,
                0 <= ai,
        ;
        lemma_div_is_ordered(mi, ai * di, di);
        lemma_div_multiples_vanish(ai, di);
        assert(ai * (b1 as int) <= (u64::MAX as int) * (u64::MAX as int)) by (nonlinear_arith)
            requires
                0 <= ai <= u64::MAX as int,
                0 <= b1 as int <= u64::MAX as int,
        ;
    }
    let t = (a as u128) * b1 + m0 / den;
    proof {
        let mi = m0 as int;
        assert(ai * bi == (t as int) * di + (r as int)) by (nonlinear_arith)
            requires
                bi == (b1 as int) * di + (b0 as int),
                mi == ai * (b0 as int),
                mi == di * (mi / di) + (r as int),
                t as int == ai * (b1 as int) + mi / di,
        ;
    }
    (t, r)
}

} // verus!
