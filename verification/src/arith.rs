//! Scalar helpers for fixed-point arithmetic: division that rounds toward
//! zero (as machine signed division does), clamping, and the bound lemmas
//! the simulation step needs to rule out overflow.

use vstd::arithmetic::div_mod::lemma_div_nonincreasing;
use vstd::arithmetic::div_mod::lemma_div_of0;
use vstd::arithmetic::div_mod::lemma_div_pos_is_pos;
use vstd::arithmetic::div_mod::lemma_multiply_divide_le;
use vstd::prelude::*;

verus! {

/// Quotient of `a` by `b`, rounded toward zero.
pub open spec fn div_tz(a: int, b: int) -> int {
    if a >= 0 {
        a / b
    } else {
        -((-a) / b)
    }
}

/// `v` clamped into `[lo, hi]`.
pub open spec fn clamp_i(v: int, lo: int, hi: int) -> int {
    if v < lo {
        lo
    } else if v > hi {
        hi
    } else {
        v
    }
}

pub proof fn lemma_div_tz_zero(b: int)
    requires
        b > 0,
    ensures
        div_tz(0, b) == 0,
{
    lemma_div_of0(b);
}

/// A quotient is bounded by `c` whenever the dividend is bounded by `b * c`.
pub proof fn lemma_div_tz_bound(a: int, b: int, c: int)
    requires
        b > 0,
        0 <= c,
        -(b * c) <= a <= b * c,
    ensures
        -c <= div_tz(a, b) <= c,
{
    if a >= 0 {
        lemma_div_pos_is_pos(a, b);
        lemma_multiply_divide_le(a, b, c);
    } else {
        lemma_div_pos_is_pos(-a, b);
        lemma_multiply_divide_le(-a, b, c);
    }
}

/// Dividing an exact multiple recovers the factor.
pub proof fn lemma_div_tz_exact(a: int, b: int)
    requires
        b > 0,
    ensures
        div_tz(b * a, b) == a,
{
    if a >= 0 {
        assert(b * a >= 0) by (nonlinear_arith)
            requires
                b > 0,
                a >= 0,
        ;
        vstd::arithmetic::div_mod::lemma_div_multiples_vanish(a, b);
    } else {
        assert(b * a < 0) by (nonlinear_arith)
            requires
                b > 0,
                a < 0,
        ;
        assert(-(b * a) == b * (-a)) by (nonlinear_arith);
        vstd::arithmetic::div_mod::lemma_div_multiples_vanish(-a, b);
    }
}

/// A product of bounded factors is bounded by the product of the bounds.
pub proof fn lemma_mul_bound(a: int, b: int, ba: int, bb: int)
    by (nonlinear_arith)
    requires
        -ba <= a <= ba,
        -bb <= b <= bb,
    ensures
        -(ba * bb) <= a * b <= ba * bb,
{
}

/// A product of nonnegative bounded factors is nonnegative and bounded.
pub proof fn lemma_mul_nonneg_bound(a: int, b: int, ba: int, bb: int)
    by (nonlinear_arith)
    requires
        0 <= a <= ba,
        0 <= b <= bb,
    ensures
        0 <= a * b <= ba * bb,
{
}

/// Scaling a bounded value by a nonnegative factor scales the bound.
pub proof fn lemma_mul_le_scale(a: int, b: int, c: int)
    by (nonlinear_arith)
    requires
        -c <= a <= c,
        0 <= b,
    ensures
        -(c * b) <= a * b <= c * b,
{
}

/// Truncating division of a signed 64-bit value by a positive divisor.
pub fn div_q64(a: i64, b: i64) -> (r: i64)
    requires
        b > 0,
        a > i64::MIN,
    ensures
        r as int == div_tz(a as int, b as int),
{
    if a >= 0 {
        let q: u64 = (a as u64) / (b as u64);
        proof {
            lemma_div_pos_is_pos(a as int, b as int);
            lemma_div_nonincreasing(a as int, b as int);
        }
        q as i64
    } else {
        let m: u64 = (-a) as u64;
        let q: u64 = m / (b as u64);
        proof {
            lemma_div_pos_is_pos(m as int, b as int);
            lemma_div_nonincreasing(m as int, b as int);
        }
        -(q as i64)
    }
}

/// Truncating division of a signed 128-bit value by a positive divisor.
pub fn div_q128(a: i128, b: i128) -> (r: i128)
    requires
        b > 0,
        a > i128::MIN,
    ensures
        r as int == div_tz(a as int, b as int),
{
    if a >= 0 {
        let q: u128 = (a as u128) / (b as u128);
        proof {
            lemma_div_pos_is_pos(a as int, b as int);
            lemma_div_nonincreasing(a as int, b as int);
        }
        q as i128
    } else {
        let m: u128 = (-a) as u128;
        let q: u128 = m / (b as u128);
        proof {
            lemma_div_pos_is_pos(m as int, b as int);
            lemma_div_nonincreasing(m as int, b as int);
        }
        -(q as i128)
    }
}

/// Clamp a 128-bit value into `[lo, hi]`.
pub fn clamp_q128(v: i128, lo: i128, hi: i128) -> (r: i128)
    requires
        lo <= hi,
    ensures
        r as int == clamp_i(v as int, lo as int, hi as int),
        lo <= r <= hi,
{
    if v < lo {
        lo
    } else if v > hi {
        hi
    } else {
        v
    }
}

} // verus!
