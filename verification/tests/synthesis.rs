use wavegen::fixed::{fmul, ONE, PI_FX};
use wavegen::oscillator::{Oscillator, SawOscillator, SineOscillator};
use wavegen::quantize::scale_to_bit_depth;
use wavegen::sine::sine_fx;

#[test]
fn quantize_full_scale_is_exact() {
    assert_eq!(scale_to_bit_depth(ONE, 16), 32767);
    assert_eq!(scale_to_bit_depth(-ONE, 16), -32767);
}

#[test]
fn quantize_truncates_toward_zero() {
    assert_eq!(scale_to_bit_depth(ONE / 2, 16), 16383);
    assert_eq!(scale_to_bit_depth(-ONE / 2, 16), -16383);
    assert_eq!(scale_to_bit_depth(1, 16), 0);
    assert_eq!(scale_to_bit_depth(-1, 16), 0);
}

#[test]
fn quantize_other_bit_depths() {
    assert_eq!(scale_to_bit_depth(ONE, 8), 127);
    assert_eq!(scale_to_bit_depth(-ONE, 8), -127);
    assert_eq!(scale_to_bit_depth(ONE, 1), 0);
}

#[test]
fn sine_fx_known_values() {
    assert_eq!(sine_fx(0), 0);
    assert_eq!(sine_fx(PI_FX / 2), 4294967295);
    assert_eq!(sine_fx(PI_FX), 0);
    assert_eq!(sine_fx(PI_FX + PI_FX / 2), -4294967295);
    assert_eq!(sine_fx(2 * PI_FX), 0);
}

#[test]
fn sine_increment_matches_formula() {
    // 2 * pi * 440 / 44100 in fixed point, truncated
    let o = SineOscillator::new(440 * ONE, ONE / 2, 44100);
    assert_eq!(o.increment, 269248824);
    assert_eq!(o.phase, 0);
    assert_eq!(o.amplitude, ONE / 2);
    assert_eq!(o.samples_emitted, 0);
}

#[test]
fn sine_oscillators_are_deterministic() {
    let mut a = SineOscillator::new(440 * ONE, ONE / 2, 44100);
    let mut b = SineOscillator::new(440 * ONE, ONE / 2, 44100);
    assert_eq!(a.increment, b.increment);
    for _ in 0..1000 {
        assert_eq!(a.sample(), b.sample());
    }
    assert_eq!(a.phase, b.phase);
    assert_eq!(a.samples_emitted, 1000);
}

#[test]
fn sine_first_samples() {
    let mut o = SineOscillator::new(440 * ONE, ONE / 2, 44100);
    assert_eq!(o.sample(), 0);
    let expected_second = fmul(ONE / 2, sine_fx(269248824));
    let mut o2 = SineOscillator::new(440 * ONE, ONE / 2, 44100);
    o2.sample();
    assert_eq!(o2.sample(), expected_second);
    assert_eq!(expected_second, 136526960);
}

#[test]
fn saw_increment_matches_formula() {
    // 880 / 44100 in fixed point, truncated
    let o = SawOscillator::new(880 * ONE, ONE / 2, 44100);
    assert_eq!(o.increment, 85704562);
    assert_eq!(o.phase, 0);
}

#[test]
fn saw_stays_in_range_and_wrap_emits_trough() {
    let amp = ONE / 2;
    let mut o = SawOscillator::new(880 * ONE, amp, 44100);
    let mut wraps = 0u64;
    for _ in 0..200000 {
        let wrapping = -amp + o.phase > amp;
        let s = o.sample();
        assert!(-amp <= s && s <= amp);
        if wrapping {
            assert_eq!(s, -amp);
            assert_eq!(o.phase, o.increment);
            wraps += 1;
        }
    }
    assert!(wraps > 100);
}

#[test]
fn oscillator_enum_dispatches() {
    let mut plain = SawOscillator::new(880 * ONE, ONE / 2, 44100);
    let mut wrapped = Oscillator::Sawtooth(SawOscillator::new(880 * ONE, ONE / 2, 44100));
    for _ in 0..500 {
        assert_eq!(plain.sample(), wrapped.sample());
    }
}
