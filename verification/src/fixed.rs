//! Fixed-point scalars.
//!
//! A real quantity `x` is represented by the `i64` value `x * FIX_ONE`,
//! truncated toward zero.  All library code keeps its scalars within
//! `[-FIX_BOUND, FIX_BOUND]`, which leaves ample headroom for the 128-bit
//! intermediate products used by the matrix routines.

use vstd::arithmetic::div_mod::{
    lemma_div_is_ordered, lemma_div_multiples_vanish, lemma_div_nonincreasing,
    lemma_div_pos_is_pos,
};
use vstd::prelude::*;

verus! {

/// The fixed-point representation of the real number one.
pub const FIX_ONE: i64 = 65536;

/// Every scalar held by a matrix stays within this bound (2^30), so that
/// four-factor products of entries still fit comfortably in an `i128`.
pub const FIX_BOUND: i64 = 1073741824;

/// Largest time step, in fixed-point seconds, that the reference motion
/// model accepts (three seconds): its fourth power must stay representable.
pub const FIX_DT_MAX: i64 = 196608;

/// Milliseconds per second, used to turn timestamp differences into
/// fixed-point seconds.
pub const MS_PER_S: i64 = 1000;

/// Absolute value of a mathematical integer.
pub open spec fn abs_i(a: int) -> int {
    if a < 0 {
        -a
    } else {
        a
    }
}

/// Division truncated toward zero, the rounding rule of all fixed-point
/// operations in this crate.  Total: division by zero yields zero.
pub open spec fn tdiv(a: int, b: int) -> int {
    if b == 0 {
        0
    } else if (a < 0) != (b < 0) {
        -(abs_i(a) / abs_i(b))
    } else {
        abs_i(a) / abs_i(b)
    }
}

/// The fixed-point product of two scalars: `a * b` rescaled.
pub open spec fn fmul_s(a: int, b: int) -> int {
    tdiv(a * b, FIX_ONE as int)
}

pub proof fn lemma_tdiv_zero_num(b: int)
    ensures
        tdiv(0, b) == 0,
{
    if b != 0 {
        lemma_div_multiples_vanish(0, abs_i(b));
    }
}

/// Truncating division of an exact multiple recovers the factor.
pub proof fn lemma_tdiv_exact(x: int, s: int)
    requires
        s > 0,
    ensures
        tdiv(x * s, s) == x,
{
    if x >= 0 {
        assert(x * s >= 0) by (nonlinear_arith)
            requires x >= 0 && s > 0;
        assert(abs_i(x * s) == x * s);
        lemma_div_multiples_vanish(x, s);
        assert(x * s == s * x);
        assert((x * s) / s == x);
    } else {
        assert(x * s < 0 && -(x * s) == (-x) * s) by (nonlinear_arith)
            requires x < 0 && s > 0;
        assert(abs_i(x * s) == (-x) * s);
        lemma_div_multiples_vanish(-x, s);
        assert((-x) * s == s * (-x));
        assert(((-x) * s) / s == -x);
        assert(tdiv(x * s, s) == -(abs_i(x * s) / abs_i(s)));
        assert(abs_i(x * s) / abs_i(s) == ((-x) * s) / s);
    }
}

/// Truncation toward zero never grows the magnitude of the quotient.
pub proof fn lemma_tdiv_bound(a: int, b: int, m: int)
    requires
        b > 0,
        abs_i(a) <= m,
    ensures
        abs_i(tdiv(a, b)) <= m / b,
        abs_i(tdiv(a, b)) <= m,
{
    lemma_div_is_ordered(abs_i(a), m, b);
    lemma_div_pos_is_pos(abs_i(a), b);
    lemma_div_nonincreasing(abs_i(a), b);
    lemma_div_nonincreasing(m, b);
}

/// A nonnegative dividend keeps a nonnegative truncated quotient.
pub proof fn lemma_tdiv_nonneg(a: int, b: int)
    requires
        a >= 0,
        b > 0,
    ensures
        tdiv(a, b) >= 0,
{
    lemma_div_pos_is_pos(a, b);
}

/// Runtime truncating division on 128-bit integers, matching `tdiv`.
pub fn div_i128(a: i128, b: i128) -> (q: i128)
    requires
        b != 0,
        a != i128::MIN,
        b != i128::MIN,
    ensures
        q == tdiv(a as int, b as int),
        abs_i(q as int) <= abs_i(a as int),
{
    let ua: u128 = if a >= 0 {
        a as u128
    } else {
        (-a) as u128
    };
    let ub: u128 = if b >= 0 {
        b as u128
    } else {
        (-b) as u128
    };
    let uq: u128 = ua / ub;
    proof {
        assert(ua as int == abs_i(a as int));
        assert(ub as int == abs_i(b as int));
        lemma_div_nonincreasing(ua as int, ub as int);
        lemma_div_pos_is_pos(ua as int, ub as int);
    }
    if (a < 0) != (b < 0) {
        -(uq as i128)
    } else {
        uq as i128
    }
}

/// Runtime fixed-point multiplication of two bounded scalars.  The result of
/// multiplying values within `FIX_BOUND` always fits an `i64` after
/// rescaling, though it may exceed `FIX_BOUND` itself.
pub fn fmul(a: i64, b: i64) -> (r: i64)
    requires
        abs_i(a as int) <= FIX_BOUND as int,
        abs_i(b as int) <= FIX_BOUND as int,
    ensures
        r == fmul_s(a as int, b as int),
        abs_i(r as int) <= abs_i(a as int) * abs_i(b as int) / (FIX_ONE as int),
{
    proof {
        assert(abs_i((a as int) * (b as int)) == abs_i(a as int) * abs_i(b as int))
            by (nonlinear_arith);
        assert(abs_i(a as int) * abs_i(b as int) <= (FIX_BOUND as int) * (FIX_BOUND as int))
            by (nonlinear_arith)
            requires
                abs_i(a as int) <= FIX_BOUND as int,
                abs_i(b as int) <= FIX_BOUND as int;
    }
    let p: i128 = (a as i128) * (b as i128);
    let q: i128 = div_i128(p, FIX_ONE as i128);
    proof {
        lemma_tdiv_bound(p as int, FIX_ONE as int, abs_i(a as int) * abs_i(b as int));
        lemma_tdiv_bound(p as int, FIX_ONE as int, (FIX_BOUND as int) * (FIX_BOUND as int));
    }
    q as i64
}

} // verus!
