//! Decimal fixed-point scalars.
//!
//! A scalar value is an `i64` counting millionths of a world unit (or of a
//! radian, for angles). `FP` is the number of ticks in one unit. Products of
//! two scalars carry the square scale and are brought back to scale with
//! [`scale_div`], which divides by `FP` rounding toward negative infinity
//! (Euclidean division), so that its result matches the mathematical `/` of
//! specifications exactly.

use vstd::arithmetic::div_mod::{
    lemma_div_is_ordered, lemma_div_pos_is_pos, lemma_fundamental_div_mod,
    lemma_fundamental_div_mod_converse,
};
use vstd::prelude::*;

verus! {

/// Number of fixed-point ticks in one world unit (or one radian).
pub const FP: i64 = 1_000_000;

/// Floor division of a scalar product by `FP`, as the specification sees it.
pub open spec fn sdiv(x: int) -> int {
    x / (FP as int)
}

/// Brings a product of two fixed-point scalars back to scale: divides by
/// `FP`, rounding toward negative infinity.
pub fn scale_div(x: i64) -> (q: i64)
    ensures
        q == sdiv(x as int),
{
    div_floor(x, FP)
}

/// Floor division of `x` by a positive divisor `d`, matching the Euclidean
/// `/` of specifications.
pub fn div_floor(x: i64, d: i64) -> (q: i64)
    requires
        d > 0,
    ensures
        q == x as int / d as int,
{
    if x >= 0 {
        let q = (x as u64) / (d as u64);
        proof {
            lemma_div_pos_is_pos(x as int, d as int);
            lemma_div_is_ordered(0, x as int, d as int);
            lemma_div_is_ordered_small(x as int, d as int);
        }
        q as i64
    } else {
        // For x < 0 and d > 0: x / d == -(m / d) - 1 where m == -x - 1 >= 0.
        let m = (-(x + 1)) as u64;
        let p = m / (d as u64);
        proof {
            let mi = m as int;
            let di = d as int;
            lemma_div_pos_is_pos(mi, di);
            lemma_div_is_ordered_small(mi, di);
            lemma_fundamental_div_mod(mi, di);
            let q = -(mi / di) - 1;
            let r = di - 1 - (mi % di);
            assert(x as int == q * di + r) by (nonlinear_arith)
                requires
                    mi == di * (mi / di) + (mi % di),
                    q == -(mi / di) - 1,
                    r == di - 1 - (mi % di),
                    x as int == -mi - 1,
            ;
            lemma_fundamental_div_mod_converse(x as int, di, q, r);
        }
        -(p as i64) - 1
    }
}

/// Floor division for wide intermediates (products of two scalars), matching
/// the Euclidean `/` of specifications for a positive divisor.
pub fn div_floor_i128(x: i128, d: i128) -> (q: i128)
    requires
        d > 0,
    ensures
        q == x as int / d as int,
{
    if x >= 0 {
        let q = (x as u128) / (d as u128);
        proof {
            lemma_div_pos_is_pos(x as int, d as int);
            lemma_div_is_ordered_small(x as int, d as int);
        }
        q as i128
    } else {
        let m = (-(x + 1)) as u128;
        let p = m / (d as u128);
        proof {
            let mi = m as int;
            let di = d as int;
            lemma_div_pos_is_pos(mi, di);
            lemma_div_is_ordered_small(mi, di);
            lemma_fundamental_div_mod(mi, di);
            let q = -(mi / di) - 1;
            let r = di - 1 - (mi % di);
            assert(x as int == q * di + r) by (nonlinear_arith)
                requires
                    mi == di * (mi / di) + (mi % di),
                    q == -(mi / di) - 1,
                    r == di - 1 - (mi % di),
                    x as int == -mi - 1,
            ;
            lemma_fundamental_div_mod_converse(x as int, di, q, r);
        }
        -(p as i128) - 1
    }
}

/// For a nonnegative numerator and positive divisor, the quotient does not
/// exceed the numerator.
pub proof fn lemma_div_is_ordered_small(x: int, d: int)
    requires
        x >= 0,
        d >= 1,
    ensures
        x / d <= x,
{
    lemma_fundamental_div_mod(x, d);
    if x / d > x {
        assert(d * (x / d) >= d * (x + 1) >= x + 1) by (nonlinear_arith)
            requires d >= 1 && x / d >= x + 1 && x >= 0;
    }
}

/// A value within `FP * b` of zero has its once-rounded image within `b` of
/// zero (the endpoints divide exactly).
pub proof fn lemma_sdiv_range(x: int, b: int)
    requires
        b >= 0,
        (FP as int) * (-b) <= x <= (FP as int) * b,
    ensures
        -b <= sdiv(x) <= b,
{
    lemma_div_is_ordered(x, (FP as int) * b, FP as int);
    lemma_div_is_ordered((FP as int) * (-b), x, FP as int);
    vstd::arithmetic::div_mod::lemma_div_multiples_vanish(b, FP as int);
    vstd::arithmetic::div_mod::lemma_div_multiples_vanish(-b, FP as int);
}

/// Clamps `x` into the inclusive range `[lo, hi]`.
pub fn clamp(x: i64, lo: i64, hi: i64) -> (r: i64)
    requires
        lo <= hi,
    ensures
        r == spec_clamp(x as int, lo as int, hi as int),
{
    if x < lo {
        lo
    } else if x > hi {
        hi
    } else {
        x
    }
}

/// The value of `x` clamped into `[lo, hi]`.
pub open spec fn spec_clamp(x: int, lo: int, hi: int) -> int {
    if x < lo {
        lo
    } else if x > hi {
        hi
    } else {
        x
    }
}

/// The smaller of two integers.
pub open spec fn spec_min(a: int, b: int) -> int {
    if a < b {
        a
    } else {
        b
    }
}

/// The larger of two integers.
pub open spec fn spec_max(a: int, b: int) -> int {
    if a > b {
        a
    } else {
        b
    }
}

} // verus!
