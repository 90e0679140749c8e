//! Fixed-point sine and cosine.
//!
//! Angles are `i64` scalars counting millionths of a radian. Both functions
//! first reduce the angle modulo [`TAU_FP`], so they are exactly periodic by
//! construction, and both are evaluated as rational approximations over
//! integers (Bhaskara's sine formula and its cosine companion), so every
//! result is a deterministic function of the reduced angle with
//! `sin_fp(0) == 0` and `cos_fp(0) == FP` exactly. Results always lie in
//! `[-FP, FP]`.

use crate::fixed::{div_floor_i128, FP};
use vstd::arithmetic::div_mod::{
    lemma_div_is_ordered, lemma_div_multiples_vanish, lemma_div_of0, lemma_div_pos_is_pos,
    lemma_mod_add_multiples_vanish,
};
use vstd::prelude::*;

verus! {

/// Fixed-point approximation of pi (millionths of a radian).
pub const PI_FP: i64 = 3_141_593;

/// Fixed-point approximation of pi/2.
pub const HALF_PI_FP: i64 = 1_570_796;

/// One full turn: exactly `2 * PI_FP`; the period of both trig functions.
pub const TAU_FP: i64 = 6_283_186;

/// Bhaskara's sine on the half period `0 <= x <= PI_FP`, scaled by `FP`.
pub open spec fn sin_half(x: int) -> int {
    16 * x * (PI_FP - x) * FP / (5 * PI_FP * PI_FP - 4 * x * (PI_FP - x))
}

/// The companion cosine on `-(HALF_PI_FP + 1) <= x <= HALF_PI_FP`, scaled by
/// `FP`; exact at `x == 0`.
pub open spec fn cos_half(x: int) -> int {
    (PI_FP * PI_FP - 4 * x * x) * FP / (PI_FP * PI_FP + x * x)
}

/// Sine of an angle in fixed-point radians, scaled by `FP`.
#[verifier::opaque]
pub open spec fn spec_sin(x: int) -> int {
    let r = x % (TAU_FP as int);
    if r <= PI_FP {
        sin_half(r)
    } else {
        -sin_half(r - PI_FP)
    }
}

/// Cosine of an angle in fixed-point radians, scaled by `FP`.
#[verifier::opaque]
pub open spec fn spec_cos(x: int) -> int {
    let r = x % (TAU_FP as int);
    if r <= HALF_PI_FP {
        cos_half(r)
    } else if r <= PI_FP + HALF_PI_FP {
        -cos_half(r - PI_FP)
    } else {
        cos_half(r - TAU_FP)
    }
}

/// Reduces an angle to `[0, TAU_FP)`.
fn rem_tau(x: i64) -> (r: i64)
    ensures
        r == x as int % (TAU_FP as int),
        0 <= r < TAU_FP,
{
    match x.checked_rem_euclid(TAU_FP) {
        Some(r) => r,
        None => 0,
    }
}

/// Bhaskara's sine on the half period, in executable form.
fn sin_half_fp(t: i64) -> (s: i64)
    requires
        0 <= t <= PI_FP,
    ensures
        s == sin_half(t as int),
        0 <= s <= FP,
{
    proof {
        lemma_sin_half_bounds(t as int);
    }
    let ti = t as i128;
    let v = (PI_FP as i128) - ti;
    proof {
        assert(0 <= ti * v <= (PI_FP as int) * (PI_FP as int)) by (nonlinear_arith)
            requires 0 <= ti as int <= PI_FP && v == PI_FP - ti as int;
    }
    let u = ti * v;
    let num = 16 * u * (FP as i128);
    let den = 5 * (PI_FP as i128) * (PI_FP as i128) - 4 * u;
    proof {
        assert(den > 0 && num >= 0 && num as int / den as int == sin_half(t as int))
            by (nonlinear_arith)
            requires
                u == t as int * (PI_FP - t as int),
                num == 16 * u * FP,
                den == 5 * PI_FP * PI_FP - 4 * u,
                0 <= t as int <= PI_FP,
        ;
    }
    let q = ((num as u128) / (den as u128)) as i128;
    q as i64
}

/// The companion cosine on `[-(HALF_PI_FP + 1), HALF_PI_FP]`, in executable
/// form.
fn cos_half_fp(t: i64) -> (s: i64)
    requires
        -(HALF_PI_FP + 1) <= t <= HALF_PI_FP,
    ensures
        s == cos_half(t as int),
        -FP <= s <= FP,
{
    proof {
        lemma_cos_half_bounds(t as int);
    }
    let ti = t as i128;
    proof {
        assert(0 <= ti * ti <= 2_500_000_000_000) by (nonlinear_arith)
            requires -(HALF_PI_FP + 1) <= ti as int <= HALF_PI_FP;
    }
    let sq = ti * ti;
    let num = ((PI_FP as i128) * (PI_FP as i128) - 4 * sq) * (FP as i128);
    let den = (PI_FP as i128) * (PI_FP as i128) + sq;
    proof {
        assert(den > 0 && num as int / den as int == cos_half(t as int)) by (nonlinear_arith)
            requires
                sq == t as int * t as int,
                num == (PI_FP * PI_FP - 4 * sq) * FP,
                den == PI_FP * PI_FP + sq,
        ;
    }
    let q = div_floor_i128(num, den);
    q as i64
}

/// On its half-period domain, Bhaskara's sine stays within `[0, FP]`.
pub proof fn lemma_sin_half_bounds(x: int)
    requires
        0 <= x <= PI_FP,
    ensures
        0 <= sin_half(x) <= FP,
{
    let num = 16 * x * (PI_FP - x) * FP;
    let den = 5 * PI_FP * PI_FP - 4 * x * (PI_FP - x);
    assert(den > 0 && num >= 0 && num <= den * FP) by (nonlinear_arith)
        requires
            num == 16 * x * (PI_FP - x) * FP,
            den == 5 * PI_FP * PI_FP - 4 * x * (PI_FP - x),
            0 <= x <= PI_FP,
    ;
    lemma_div_pos_is_pos(num, den);
    lemma_div_is_ordered(num, den * FP, den);
    lemma_div_multiples_vanish(FP as int, den);
    assert(sin_half(x) == num / den);
}

/// On its domain around zero, the companion cosine stays within `[-FP, FP]`.
pub proof fn lemma_cos_half_bounds(x: int)
    requires
        -(HALF_PI_FP + 1) <= x <= HALF_PI_FP,
    ensures
        -FP <= cos_half(x) <= FP,
{
    let num = (PI_FP * PI_FP - 4 * x * x) * FP;
    let den = PI_FP * PI_FP + x * x;
    assert(den > 0 && den * (-FP) <= num <= den * FP) by (nonlinear_arith)
        requires
            num == (PI_FP * PI_FP - 4 * x * x) * FP,
            den == PI_FP * PI_FP + x * x,
            -(HALF_PI_FP + 1) <= x <= HALF_PI_FP,
    ;
    lemma_div_is_ordered(den * (-FP), num, den);
    lemma_div_is_ordered(num, den * FP, den);
    lemma_div_multiples_vanish(FP as int, den);
    lemma_div_multiples_vanish(-FP as int, den);
    assert(cos_half(x) == num / den);
}

/// Sine always stays within `[-FP, FP]`.
pub proof fn lemma_sin_bounds(x: int)
    ensures
        -FP <= spec_sin(x) <= FP,
{
    reveal(spec_sin);
    let r = x % (TAU_FP as int);
    if r <= PI_FP {
        lemma_sin_half_bounds(r);
    } else {
        lemma_sin_half_bounds(r - PI_FP);
    }
}

/// Cosine always stays within `[-FP, FP]`.
pub proof fn lemma_cos_bounds(x: int)
    ensures
        -FP <= spec_cos(x) <= FP,
{
    reveal(spec_cos);
    let r = x % (TAU_FP as int);
    if r <= HALF_PI_FP {
        lemma_cos_half_bounds(r);
    } else if r <= PI_FP + HALF_PI_FP {
        lemma_cos_half_bounds(r - PI_FP);
    } else {
        lemma_cos_half_bounds(r - TAU_FP);
    }
}

/// Both trig functions are exactly periodic with period `TAU_FP`.
pub proof fn lemma_trig_periodic(x: int)
    ensures
        spec_sin(x + TAU_FP) == spec_sin(x),
        spec_cos(x + TAU_FP) == spec_cos(x),
{
    reveal(spec_sin);
    reveal(spec_cos);
    lemma_mod_add_multiples_vanish(x, TAU_FP as int);
}

/// At angle zero the pair is exactly `(0, FP)`: a zero rotation is the
/// identity in fixed point.
pub proof fn lemma_trig_zero()
    ensures
        spec_sin(0) == 0,
        spec_cos(0) == FP,
{
    reveal(spec_sin);
    reveal(spec_cos);
    let tau = TAU_FP as int;
    assert(0int % tau == 0);
    assert(5 * PI_FP * PI_FP - 4 * 0 * (PI_FP - 0) > 0) by (nonlinear_arith);
    lemma_div_of0(5 * PI_FP * PI_FP - 4 * 0 * (PI_FP - 0));
    assert(spec_sin(0) == 0);
    lemma_div_multiples_vanish(FP as int, PI_FP * PI_FP + 0 * 0);
    assert(cos_half(0) == (PI_FP * PI_FP - 4 * 0 * 0) * FP / (PI_FP * PI_FP + 0 * 0));
    assert((PI_FP * PI_FP - 4 * 0 * 0) * FP == FP * (PI_FP * PI_FP + 0 * 0)) by (nonlinear_arith);
}

/// Sine of an angle in fixed-point radians.
pub fn sin_fp(x: i64) -> (s: i64)
    ensures
        s == spec_sin(x as int),
        -FP <= s <= FP,
{
    proof {
        reveal(spec_sin);
    }
    let r = rem_tau(x);
    if r <= PI_FP {
        sin_half_fp(r)
    } else {
        -sin_half_fp(r - PI_FP)
    }
}

/// Cosine of an angle in fixed-point radians.
pub fn cos_fp(x: i64) -> (c: i64)
    ensures
        c == spec_cos(x as int),
        -FP <= c <= FP,
{
    proof {
        reveal(spec_cos);
    }
    let r = rem_tau(x);
    if r <= HALF_PI_FP {
        cos_half_fp(r)
    } else if r <= PI_FP + HALF_PI_FP {
        -cos_half_fp(r - PI_FP)
    } else {
        cos_half_fp(r - TAU_FP)
    }
}

} // verus!
