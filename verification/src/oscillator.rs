//! Periodic waveform generators: stateful samplers that emit one fixed-point
//! amplitude value per call, advancing an internal phase.

use crate::fixed::{fmul, fmul_spec, ONE, PI_FX};
use crate::sine::{sine_fx, sine_fx_spec};
use vstd::arithmetic::div_mod::{lemma_div_is_ordered, lemma_div_is_ordered_by_denominator};
use vstd::arithmetic::mul::{
    lemma_mul_inequality, lemma_mul_is_distributive_add_other_way, lemma_mul_left_inequality,
    lemma_mul_upper_bound,
};
use vstd::prelude::*;

verus! {

/// Largest frequency (in fixed point) the constructors accept; it keeps every
/// derived phase increment comfortably inside an `i64`.
pub const MAX_FREQ_FX: i64 = 0x10_0000_0000_0000;

/// Phase increment of a sine oscillator: the fixed-point truncation of
/// `2 * pi * frequency / sample_rate`.
pub open spec fn sine_increment(frequency: int, sample_rate: int) -> int {
    (2 * PI_FX * frequency) / (sample_rate * ONE)
}

/// Phase increment of a sawtooth oscillator: the fixed-point truncation of
/// `frequency / sample_rate`, a fraction of one period in amplitude units.
pub open spec fn saw_increment(frequency: int, sample_rate: int) -> int {
    frequency / sample_rate
}

/// Generator of a sine wave: `sample()` returns `amplitude * sin(phase)` and
/// then advances the phase by a constant increment, without wraparound.
pub struct SineOscillator {
    /// Peak output magnitude in fixed point, constant over the lifetime.
    pub amplitude: i64,
    /// Angle accumulator in fixed-point radians; grows without bound.
    pub phase: i64,
    /// Per-sample phase delta, constant over the lifetime.
    pub increment: i64,
    /// Diagnostic counter of emitted samples; no correctness relies on it.
    pub samples_emitted: u64,
}

impl SineOscillator {
    /// Structural invariant: amplitude within one unit, phase and increment
    /// nonnegative.
    pub open spec fn wf(self) -> bool {
        &&& 0 <= self.amplitude <= ONE
        &&& 0 <= self.phase
        &&& 0 <= self.increment
    }

    /// The value `sample()` emits in the current state.
    pub open spec fn step_value(self) -> int {
        fmul_spec(self.amplitude as int, sine_fx_spec(self.phase as int))
    }

    /// The state `sample()` leaves behind.
    pub open spec fn step_state(self) -> SineOscillator {
        SineOscillator {
            amplitude: self.amplitude,
            phase: (self.phase + self.increment) as i64,
            increment: self.increment,
            samples_emitted: (self.samples_emitted + 1) as u64,
        }
    }

    /// Build a sine oscillator at phase zero for the given frequency,
    /// amplitude and sample rate (all three fix the state exactly).
    pub fn new(frequency: i64, amplitude: i64, sample_rate: u32) -> (o: SineOscillator)
        requires
            0 < frequency <= MAX_FREQ_FX,
            0 <= amplitude <= ONE,
            0 < sample_rate,
        ensures
            o == (SineOscillator {
                amplitude,
                phase: 0,
                increment: sine_increment(frequency as int, sample_rate as int) as i64,
                samples_emitted: 0,
            }),
            o.increment == sine_increment(frequency as int, sample_rate as int),
            o.wf(),
    {
        proof {
            lemma_mul_left_inequality(2 * PI_FX, frequency as int, MAX_FREQ_FX as int);
            lemma_mul_inequality(1, sample_rate as int, ONE as int);
            lemma_mul_upper_bound(sample_rate as int, u32::MAX as int, ONE as int, ONE as int);
        }
        let num: u128 = 2 * (PI_FX as u128) * (frequency as u128);
        let den: u128 = (sample_rate as u128) * (ONE as u128);
        proof {
            lemma_div_is_ordered_by_denominator(num as int, ONE as int, den as int);
            lemma_div_is_ordered(num as int, 2 * PI_FX * MAX_FREQ_FX, ONE as int);
        }
        let inc: u128 = num / den;
        SineOscillator { amplitude, phase: 0, increment: inc as i64, samples_emitted: 0 }
    }

    /// Emit one sample and advance the phase. The result is the fixed-point
    /// product of the amplitude and the sine of the old phase, so it stays
    /// within `[-amplitude, amplitude]`.
    pub fn sample(&mut self) -> (s: i64)
        requires
            old(self).wf(),
            old(self).phase + old(self).increment <= i64::MAX,
            old(self).samples_emitted < u64::MAX,
        ensures
            s == old(self).step_value(),
            *final(self) == old(self).step_state(),
            final(self).wf(),
            -old(self).amplitude <= s <= old(self).amplitude,
    {
        let v = sine_fx(self.phase);
        let s = fmul(self.amplitude, v);
        self.phase = self.phase + self.increment;
        self.samples_emitted = self.samples_emitted + 1;
        s
    }
}

/// Generator of a sawtooth wave: the phase ramps linearly from zero and the
/// emitted value is `phase - amplitude`; once the ramp passes the peak, the
/// wrap tick emits exactly `-amplitude` and the phase keeps one increment of
/// residual, not zero.
pub struct SawOscillator {
    /// Peak output magnitude in fixed point, constant over the lifetime.
    pub amplitude: i64,
    /// Linear ramp position in amplitude units, kept within one period.
    pub phase: i64,
    /// Per-sample phase delta, constant over the lifetime.
    pub increment: i64,
    /// Diagnostic counter of emitted samples; no correctness relies on it.
    pub samples_emitted: u64,
}

impl SawOscillator {
    /// Structural invariant: the phase never runs further than one increment
    /// past the full ramp, so stepping can never overflow.
    pub open spec fn wf(self) -> bool {
        &&& 0 <= self.amplitude <= ONE
        &&& 0 <= self.increment <= MAX_FREQ_FX
        &&& 0 <= self.phase <= 2 * self.amplitude + self.increment
    }

    /// The wrap condition: the ramp has passed the peak, so the next sample
    /// is the reset tick.
    pub open spec fn wraps(self) -> bool {
        -self.amplitude + self.phase > self.amplitude
    }

    /// The value `sample()` emits in the current state.
    pub open spec fn step_value(self) -> int {
        if self.wraps() {
            -self.amplitude as int
        } else {
            -self.amplitude + self.phase
        }
    }

    /// The state `sample()` leaves behind.
    pub open spec fn step_state(self) -> SawOscillator {
        SawOscillator {
            amplitude: self.amplitude,
            phase: if self.wraps() {
                self.increment
            } else {
                (self.phase + self.increment) as i64
            },
            increment: self.increment,
            samples_emitted: (self.samples_emitted + 1) as u64,
        }
    }

    /// Build a sawtooth oscillator at phase zero for the given frequency,
    /// amplitude and sample rate (all three fix the state exactly).
    pub fn new(frequency: i64, amplitude: i64, sample_rate: u32) -> (o: SawOscillator)
        requires
            0 < frequency <= MAX_FREQ_FX,
            0 <= amplitude <= ONE,
            0 < sample_rate,
        ensures
            o == (SawOscillator {
                amplitude,
                phase: 0,
                increment: saw_increment(frequency as int, sample_rate as int) as i64,
                samples_emitted: 0,
            }),
            o.increment == saw_increment(frequency as int, sample_rate as int),
            o.wf(),
    {
        let inc: i64 = ((frequency as u64) / (sample_rate as u64)) as i64;
        SawOscillator { amplitude, phase: 0, increment: inc, samples_emitted: 0 }
    }

    /// Emit one sample and advance the ramp; on the wrap tick the emitted
    /// value is exactly `-amplitude` and the phase restarts at one increment.
    pub fn sample(&mut self) -> (s: i64)
        requires
            old(self).wf(),
            old(self).samples_emitted < u64::MAX,
        ensures
            s == old(self).step_value(),
            *final(self) == old(self).step_state(),
            final(self).wf(),
            -old(self).amplitude <= s <= old(self).amplitude,
    {
        let mut s = -self.amplitude + self.phase;
        if s > self.amplitude {
            s = -self.amplitude;
            self.phase = self.increment;
        } else {
            self.phase = self.phase + self.increment;
        }
        self.samples_emitted = self.samples_emitted + 1;
        s
    }
}

/// The closed set of waveform variants behind one sampling capability.
pub enum Oscillator {
    Sine(SineOscillator),
    Sawtooth(SawOscillator),
}

impl Oscillator {
    /// Structural invariant of the contained generator.
    pub open spec fn wf(self) -> bool {
        match self {
            Oscillator::Sine(o) => o.wf(),
            Oscillator::Sawtooth(o) => o.wf(),
        }
    }

    /// Peak output magnitude of the contained generator.
    pub open spec fn amplitude(self) -> int {
        match self {
            Oscillator::Sine(o) => o.amplitude as int,
            Oscillator::Sawtooth(o) => o.amplitude as int,
        }
    }

    /// The value `sample()` emits in the current state.
    pub open spec fn step_value(self) -> int {
        match self {
            Oscillator::Sine(o) => o.step_value(),
            Oscillator::Sawtooth(o) => o.step_value(),
        }
    }

    /// The state `sample()` leaves behind.
    pub open spec fn step_state(self) -> Oscillator {
        match self {
            Oscillator::Sine(o) => Oscillator::Sine(o.step_state()),
            Oscillator::Sawtooth(o) => Oscillator::Sawtooth(o.step_state()),
        }
    }

    /// The counters can take `n` further steps without overflowing: the sine
    /// phase accumulator grows without wraparound, so its headroom is spent
    /// one increment per sample.
    pub open spec fn can_run(self, n: nat) -> bool {
        match self {
            Oscillator::Sine(o) => {
                &&& o.phase + n * o.increment <= i64::MAX
                &&& o.samples_emitted + n <= u64::MAX
            },
            Oscillator::Sawtooth(o) => o.samples_emitted + n <= u64::MAX,
        }
    }

    /// The state after `k` samples have been emitted.
    pub open spec fn state_after(self, k: nat) -> Oscillator
        decreases k,
    {
        if k == 0 {
            self
        } else {
            self.state_after((k - 1) as nat).step_state()
        }
    }

    /// The `k`-th emitted value (counting from zero).
    pub open spec fn value_at(self, k: nat) -> int {
        self.state_after(k).step_value()
    }

    /// The sequence of the first `n` emitted values.
    pub open spec fn output(self, n: nat) -> Seq<int> {
        Seq::new(n, |i: int| self.value_at(i as nat))
    }

    /// The `k`-th step of a sawtooth generator is a wrap tick.
    pub open spec fn saw_wraps_at(self, k: nat) -> bool {
        self.state_after(k) matches Oscillator::Sawtooth(s) && s.wraps()
    }

    /// Emit one sample from the contained generator.
    pub fn sample(&mut self) -> (s: i64)
        requires
            old(self).wf(),
            old(self).can_run(1),
        ensures
            s == old(self).step_value(),
            *final(self) == old(self).step_state(),
            final(self).wf(),
            -old(self).amplitude() <= s <= old(self).amplitude(),
    {
        match self {
            Oscillator::Sine(o) => o.sample(),
            Oscillator::Sawtooth(o) => o.sample(),
        }
    }
}

/// One step preserves the invariant, spends one unit of the running budget,
/// and never changes the amplitude.
pub proof fn lemma_step(o: Oscillator, n: nat)
    requires
        o.wf(),
        o.can_run(n),
        n >= 1,
    ensures
        o.step_state().wf(),
        o.step_state().can_run((n - 1) as nat),
        o.step_state().amplitude() == o.amplitude(),
        o.step_state() is Sine <==> o is Sine,
{
    match o {
        Oscillator::Sine(s) => {
            assert(n * s.increment == s.increment + (n - 1) * s.increment) by {
                lemma_mul_is_distributive_add_other_way(s.increment as int, 1, n - 1);
            }
            assert(1 * s.increment <= n * s.increment) by {
                lemma_mul_inequality(1, n as int, s.increment as int);
            }
        },
        Oscillator::Sawtooth(_) => {},
    }
}

/// A running budget covers any smaller number of steps.
pub proof fn lemma_can_run_less(o: Oscillator, m: nat, j: nat)
    requires
        o.wf(),
        o.can_run(m),
        j <= m,
    ensures
        o.can_run(j),
{
    match o {
        Oscillator::Sine(s) => {
            lemma_mul_inequality(j as int, m as int, s.increment as int);
        },
        Oscillator::Sawtooth(_) => {},
    }
}

/// Oscillators are deterministic: equal inputs build equal states, and equal
/// states emit identical sample sequences of any length.
pub proof fn lemma_deterministic(a: Oscillator, b: Oscillator, n: nat)
    requires
        a == b,
    ensures
        a.output(n) == b.output(n),
{
}

/// The invariant and the amplitude of a sawtooth generator survive any number
/// of steps; its diagnostic counter may wrap, but no emitted value depends on
/// it.
pub proof fn lemma_saw_state_after(o: SawOscillator, k: nat)
    requires
        o.wf(),
    ensures
        Oscillator::Sawtooth(o).state_after(k) matches Oscillator::Sawtooth(s) && s.wf()
            && s.amplitude == o.amplitude,
    decreases k,
{
    if k > 0 {
        lemma_saw_state_after(o, (k - 1) as nat);
    }
}

/// Every value a well-formed sawtooth oscillator emits lies within
/// `[-amplitude, amplitude]`, and every wrap tick emits exactly `-amplitude`.
pub proof fn lemma_saw_output_in_range(o: SawOscillator, n: nat)
    requires
        o.wf(),
    ensures
        forall|i: int|
            0 <= i < n ==> -o.amplitude <= #[trigger] Oscillator::Sawtooth(o).output(n)[i]
                <= o.amplitude,
        forall|i: int|
            0 <= i < n && Oscillator::Sawtooth(o).saw_wraps_at(i as nat) ==> #[trigger] Oscillator::Sawtooth(
                o,
            ).output(n)[i] == -o.amplitude,
{
    let w = Oscillator::Sawtooth(o);
    assert forall|i: int| 0 <= i < n implies {
        &&& -o.amplitude <= #[trigger] w.output(n)[i] <= o.amplitude
        &&& w.saw_wraps_at(i as nat) ==> w.output(n)[i] == -o.amplitude
    } by {
        lemma_saw_state_after(o, i as nat);
        let s = w.state_after(i as nat)->Sawtooth_0;
        assert(w.output(n)[i] == s.step_value());
    }
}

} // verus!
