//! Q32.32 fixed-point numbers: an `i64` holds `round(x * 2^32)` for a real
//! number `x`. All arithmetic truncates toward zero, as the hardware does.

use vstd::arithmetic::div_mod::{lemma_div_is_ordered, lemma_div_multiples_vanish};
use vstd::arithmetic::mul::{lemma_mul_left_inequality, lemma_mul_upper_bound};
use vstd::prelude::*;

verus! {

/// Scale of the fixed-point representation: `ONE` stands for the real number 1.
pub const ONE: i64 = 0x1_0000_0000;

/// The mathematical constant pi in fixed point, truncated: floor(pi * 2^32).
pub const PI_FX: i64 = 13493037704;

/// Division truncating toward zero (machine division of signed integers);
/// on nonnegative operands it agrees with Euclidean division.
pub open spec fn div_trunc(a: int, d: int) -> int {
    if a >= 0 {
        a / d
    } else {
        -((-a) / d)
    }
}

/// Product of two fixed-point values, truncated toward zero.
pub open spec fn fmul_spec(a: int, b: int) -> int {
    div_trunc(a * b, ONE as int)
}

/// Multiply the nonnegative fixed-point value `a` by the fixed-point value
/// `b`, truncating toward zero. The magnitude of the result never exceeds
/// `a` because `|b| <= ONE`.
pub fn fmul(a: i64, b: i64) -> (r: i64)
    requires
        0 <= a <= ONE,
        -ONE <= b <= ONE,
    ensures
        r == fmul_spec(a as int, b as int),
        -a <= r <= a,
{
    let neg = b < 0;
    let b_mag: u64 = if neg {
        (-b) as u64
    } else {
        b as u64
    };
    proof {
        lemma_mul_upper_bound(a as int, ONE as int, b_mag as int, ONE as int);
        if a > 0 {
            lemma_mul_left_inequality(a as int, b_mag as int, ONE as int);
        }
    }
    let p: u128 = (a as u128) * (b_mag as u128);
    let q: u128 = p / (ONE as u128);
    proof {
        lemma_div_is_ordered(p as int, a as int * ONE as int, ONE as int);
        lemma_div_multiples_vanish(a as int, ONE as int);
        assert(q <= a);
        if neg {
            assert(a as int * b_mag as int == -(a as int * b as int)) by (nonlinear_arith)
                requires
                    b_mag == -b,
            ;
        }
    }
    let q64 = q as i64;
    if neg {
        -q64
    } else {
        q64
    }
}

} // verus!
