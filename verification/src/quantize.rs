//! Quantization: mapping a fixed-point amplitude sample into a signed
//! fixed-width integer PCM sample.

use crate::fixed::{fmul, fmul_spec, ONE};
use vstd::arithmetic::power2::{lemma2_to64, lemma_pow2_strictly_increases, lemma_pow2_unfold, pow2};
use vstd::prelude::*;

verus! {

/// Largest representable positive sample at the given bit depth:
/// `2^(bit_depth - 1) - 1`.
pub open spec fn max_amplitude(bit_depth: nat) -> int {
    pow2((bit_depth - 1) as nat) - 1
}

/// The quantized PCM sample: the fixed-point input scaled by the largest
/// representable value and truncated toward zero (not rounded).
pub open spec fn quantized(sample: int, bit_depth: nat) -> int {
    fmul_spec(max_amplitude(bit_depth), sample)
}

/// Scale a fixed-point sample in `[-ONE, ONE]` to a signed integer sample of
/// the given bit depth, truncating toward zero. The result never leaves
/// `[-(2^(bit_depth-1) - 1), 2^(bit_depth-1) - 1]`.
pub fn scale_to_bit_depth(sample: i64, bit_depth: u16) -> (r: i16)
    requires
        1 <= bit_depth <= 16,
        -ONE <= sample <= ONE,
    ensures
        r as int == quantized(sample as int, bit_depth as nat),
        -max_amplitude(bit_depth as nat) <= r as int <= max_amplitude(bit_depth as nat),
{
    proof {
        lemma2_to64();
    }
    let mut max_amp: i64 = 1;
    let mut i: u16 = 0;
    while i < bit_depth - 1
        invariant
            1 <= bit_depth <= 16,
            0 <= i <= bit_depth - 1,
            max_amp == pow2(i as nat),
            max_amp <= 0x8000,
        decreases bit_depth - 1 - i,
    {
        proof {
            lemma_pow2_unfold((i + 1) as nat);
            if i + 1 < 15 {
                lemma_pow2_strictly_increases((i + 1) as nat, 15);
            }
            lemma2_to64();
        }
        max_amp = max_amp * 2;
        i = i + 1;
    }
    let max_amp = max_amp - 1;
    let r = fmul(max_amp, sample);
    r as i16
}

} // verus!
