//! Fixed-point evaluation of the sine function. The phase is reduced modulo
//! one period; on a half period the value comes from Bhaskara's rational
//! approximation `16 h (pi - h) / (5 pi^2 - 4 h (pi - h))`, carried out in
//! integer arithmetic and clamped to `[-ONE, ONE]`.

use crate::fixed::{ONE, PI_FX};
use vstd::arithmetic::div_mod::lemma_div_is_ordered;
use vstd::arithmetic::mul::lemma_mul_upper_bound;
use vstd::prelude::*;

verus! {

/// One waveform period in fixed point.
pub const TWO_PI_FX: i64 = 2 * PI_FX;

/// The half-wave approximation of sine on `[0, PI_FX)`, in fixed point,
/// clamped from above to `ONE`.
pub open spec fn sine_half_spec(h: int) -> int {
    let pi2 = (PI_FX as int * PI_FX as int) / (ONE as int);
    let u = (h * (PI_FX - h)) / (ONE as int);
    let den = 5 * pi2 - 4 * u;
    let v = (16 * u * ONE) / den;
    if v > ONE {
        ONE as int
    } else {
        v
    }
}

/// Fixed-point sine of an arbitrary phase: reduce modulo one period, apply
/// the half-wave approximation on `[0, PI_FX)` and its negation on
/// `[PI_FX, TWO_PI_FX)`.
pub open spec fn sine_fx_spec(x: int) -> int {
    let r = x % (TWO_PI_FX as int);
    if r >= PI_FX {
        -sine_half_spec(r - PI_FX)
    } else {
        sine_half_spec(r)
    }
}

/// Evaluate the fixed-point sine of a nonnegative phase.
pub fn sine_fx(x: i64) -> (r: i64)
    requires
        0 <= x,
    ensures
        r == sine_fx_spec(x as int),
        -ONE <= r <= ONE,
{
    let period: u64 = TWO_PI_FX as u64;
    let rr: u64 = (x as u64) % period;
    let neg: bool = rr >= (PI_FX as u64);
    let h: u64 = if neg {
        rr - (PI_FX as u64)
    } else {
        rr
    };
    assert(0 <= h < PI_FX);
    let hw: u128 = h as u128;
    let pi: u128 = PI_FX as u128;
    let one: u128 = ONE as u128;
    proof {
        lemma_mul_upper_bound(hw as int, pi as int, (pi - hw) as int, pi as int);
    }
    let prod: u128 = hw * (pi - hw);
    let u: u128 = prod / one;
    let pi2: u128 = (pi * pi) / one;
    proof {
        lemma_div_is_ordered(prod as int, (pi * pi) as int, one as int);
        assert(u <= pi2);
    }
    let den: u128 = 5 * pi2 - 4 * u;
    proof {
        lemma_mul_upper_bound(16 * u as int, 16 * pi2 as int, one as int, one as int);
    }
    let v0: u128 = (16 * u) * one / den;
    let v: u64 = if v0 > one {
        ONE as u64
    } else {
        v0 as u64
    };
    let half: i64 = v as i64;
    assert(half == sine_half_spec(h as int));
    if neg {
        -half
    } else {
        half
    }
}

} // verus!
