//! The encoder pipeline: pull samples from an oscillator, quantize each one,
//! and feed the stream to the container writer in order, backpatching the two
//! size fields once the payload length is known.

use crate::container::{
    fmt_tag, format_fields, header_bytes, le16, le32, lemma_written_replaces_middle, riff_tag,
    wave_tag, ContainerWriter, SIZE_PLACEHOLDER,
};
use crate::fixed::ONE;
use crate::oscillator::{lemma_can_run_less, lemma_step, Oscillator};
use crate::quantize::{quantized, scale_to_bit_depth};
use vstd::prelude::*;

verus! {

/// Most samples one encoding run may produce; it keeps every byte offset and
/// size field inside the container's 32-bit fields.
pub const MAX_SAMPLE_COUNT: u64 = 1000000000;

/// Number of samples the pipeline emits for a duration (fixed-point seconds)
/// at a sample rate: one more than the truncation of
/// `sample_rate * duration`. The extra sample is a deliberate quirk of the
/// counting convention, kept so that output files stay byte-identical across
/// releases.
pub open spec fn sample_count(duration: int, sample_rate: int) -> int {
    sample_rate * duration / (ONE as int) + 1
}

/// The serialized payload: every sample quantized to the bit depth and
/// written little-endian, in emission order.
pub open spec fn data_bytes(samples: Seq<int>, bit_depth: nat) -> Seq<u8>
    decreases samples.len(),
{
    if samples.len() == 0 {
        Seq::empty()
    } else {
        data_bytes(samples.drop_last(), bit_depth) + le16(
            quantized(samples.last(), bit_depth) as u16,
        )
    }
}

/// The payload takes two bytes per sample.
pub proof fn lemma_data_bytes_len(samples: Seq<int>, bit_depth: nat)
    ensures
        data_bytes(samples, bit_depth).len() == 2 * samples.len(),
    decreases samples.len(),
{
    if samples.len() > 0 {
        lemma_data_bytes_len(samples.drop_last(), bit_depth);
    }
}

/// The complete container for the given samples: the header whose two size
/// fields count the payload, followed by the payload.
pub open spec fn wav_file_bytes(sample_rate: u32, bit_depth: u16, samples: Seq<int>) -> Seq<u8>
    recommends
        samples.len() <= MAX_SAMPLE_COUNT,
{
    header_bytes(
        sample_rate,
        bit_depth,
        (36 + 2 * samples.len()) as u32,
        (2 * samples.len()) as u32,
    ) + data_bytes(samples, bit_depth as nat)
}

/// The unsigned value of the four little-endian bytes at offset `off`.
pub open spec fn u32_at(s: Seq<u8>, off: int) -> int {
    s[off] + 0x100 * s[off + 1] + 0x10000 * s[off + 2] + 0x1000000 * s[off + 3]
}

/// The four little-endian bytes of a 32-bit value read back as that value.
pub proof fn lemma_le32_value(v: u32)
    ensures
        u32_at(le32(v), 0) == v,
{
    assert(v % 0x100 + 0x100 * ((v / 0x100) % 0x100) + 0x10000 * ((v / 0x10000) % 0x100)
        + 0x1000000 * (v / 0x1000000) == v) by (bit_vector);
}

/// Structural container law: every generated file opens with "RIFF", carries
/// "WAVE" and "fmt " where decoders look for them, and each of its two size
/// fields counts exactly the bytes that follow the field's chunk header.
pub proof fn lemma_container_structure(sample_rate: u32, bit_depth: u16, samples: Seq<int>)
    requires
        samples.len() <= MAX_SAMPLE_COUNT,
    ensures
        wav_file_bytes(sample_rate, bit_depth, samples).len() == 44 + 2 * samples.len(),
        wav_file_bytes(sample_rate, bit_depth, samples).subrange(0, 4) == riff_tag(),
        wav_file_bytes(sample_rate, bit_depth, samples).subrange(8, 12) == wave_tag(),
        wav_file_bytes(sample_rate, bit_depth, samples).subrange(12, 16) == fmt_tag(),
        u32_at(wav_file_bytes(sample_rate, bit_depth, samples), 4) == wav_file_bytes(
            sample_rate,
            bit_depth,
            samples,
        ).len() - 8,
        u32_at(wav_file_bytes(sample_rate, bit_depth, samples), 40) == wav_file_bytes(
            sample_rate,
            bit_depth,
            samples,
        ).len() - 44,
{
    let f = wav_file_bytes(sample_rate, bit_depth, samples);
    let rs = (36 + 2 * samples.len()) as u32;
    let ds = (2 * samples.len()) as u32;
    lemma_data_bytes_len(samples, bit_depth as nat);
    lemma_le32_value(rs);
    lemma_le32_value(ds);
    assert(f.subrange(0, 4) =~= riff_tag());
    assert(f.subrange(8, 12) =~= wave_tag());
    assert(f.subrange(12, 16) =~= fmt_tag());
    assert(f.subrange(4, 8) =~= le32(rs));
    assert(f.subrange(40, 44) =~= le32(ds));
    assert(u32_at(f, 4) == u32_at(f.subrange(4, 8), 0));
    assert(u32_at(f, 40) == u32_at(f.subrange(40, 44), 0));
}

/// Running the pipeline twice with identical inputs produces byte-identical
/// output: the container bytes are a function of the oscillator state, the
/// duration, the sample rate and the bit depth alone.
pub proof fn lemma_encode_deterministic(
    first: Oscillator,
    second: Oscillator,
    duration: i64,
    sample_rate: u32,
    bit_depth: u16,
    out1: Seq<u8>,
    out2: Seq<u8>,
)
    requires
        first == second,
        out1 == wav_file_bytes(
            sample_rate,
            bit_depth,
            first.output(sample_count(duration as int, sample_rate as int) as nat),
        ),
        out2 == wav_file_bytes(
            sample_rate,
            bit_depth,
            second.output(sample_count(duration as int, sample_rate as int) as nat),
        ),
    ensures
        out1 == out2,
{
}

/// Drive the full pipeline: write the header with placeholder sizes, pull
/// `sample_count` samples from the oscillator in strict order, quantize and
/// append each one, then seek back and patch the two size fields. The result
/// is exactly the container bytes for the oscillator's output sequence.
pub fn encode(
    oscillator: &mut Oscillator,
    duration: i64,
    sample_rate: u32,
    bit_depth: u16,
) -> (out: Vec<u8>)
    requires
        old(oscillator).wf(),
        0 <= duration,
        0 < sample_rate <= i32::MAX,
        1 <= bit_depth <= 16,
        sample_rate * bit_depth / 8 <= i32::MAX,
        sample_count(duration as int, sample_rate as int) <= MAX_SAMPLE_COUNT,
        old(oscillator).can_run(sample_count(duration as int, sample_rate as int) as nat),
    ensures
        final(oscillator).wf(),
        *final(oscillator) == old(oscillator).state_after(
            sample_count(duration as int, sample_rate as int) as nat,
        ),
        out@ == wav_file_bytes(
            sample_rate,
            bit_depth,
            old(oscillator).output(sample_count(duration as int, sample_rate as int) as nat),
        ),
{
    let ghost o0 = *oscillator;
    let ghost n = sample_count(duration as int, sample_rate as int) as nat;
    let count: u64 = (((sample_rate as u128) * (duration as u128)) / (ONE as u128)) as u64 + 1;
    assert(count == n);

    let mut writer = ContainerWriter::new();
    writer.write_header(sample_rate, bit_depth);
    let ghost hdr = header_bytes(sample_rate, bit_depth, SIZE_PLACEHOLDER, SIZE_PLACEHOLDER);

    let pre_audio_position = writer.stream_position();

    let mut k: u64 = 0;
    while k < count
        invariant
            0 <= k <= count,
            count == n,
            n <= MAX_SAMPLE_COUNT,
            1 <= bit_depth <= 16,
            pre_audio_position == 44,
            oscillator.wf(),
            *oscillator == o0.state_after(k as nat),
            oscillator.can_run((n - k) as nat),
            o0.wf(),
            writer.wf(),
            writer.bytes() == hdr + data_bytes(o0.output(k as nat), bit_depth as nat),
            hdr.len() == 44,
            writer.bytes().len() == 44 + 2 * k,
            writer.position() == writer.bytes().len(),
        decreases count - k,
    {
        proof {
            lemma_can_run_less(*oscillator, (n - k) as nat, 1);
            lemma_data_bytes_len(o0.output(k as nat), bit_depth as nat);
        }
        let s = oscillator.sample();
        let q = scale_to_bit_depth(s, bit_depth);
        writer.write_2_bytes(q);
        proof {
            lemma_step(o0.state_after(k as nat), (n - k) as nat);
            assert(o0.state_after((k + 1) as nat) == o0.state_after(k as nat).step_state());
            let prev = o0.output(k as nat);
            let cur = o0.output((k + 1) as nat);
            assert(cur.drop_last() =~= prev);
            assert(cur.last() == o0.value_at(k as nat));
            assert(s == o0.value_at(k as nat));
            assert(q as u16 == quantized(o0.value_at(k as nat), bit_depth as nat) as u16);
            assert(data_bytes(cur, bit_depth as nat) == data_bytes(prev, bit_depth as nat) + le16(
                q as u16,
            ));
            assert(hdr + data_bytes(cur, bit_depth as nat) =~= (hdr + data_bytes(
                prev,
                bit_depth as nat,
            )) + le16(q as u16));
        }
        k = k + 1;
    }

    let post_audio_position = writer.stream_position();
    proof {
        lemma_data_bytes_len(o0.output(n), bit_depth as nat);
    }
    let ghost d = data_bytes(o0.output(n), bit_depth as nat);
    let ghost rs = (36 + 2 * n) as u32;
    let ghost ds = (2 * n) as u32;

    writer.seek(pre_audio_position - 4);
    writer.write_4_bytes((post_audio_position - pre_audio_position) as i32);
    proof {
        let a40 = riff_tag() + le32(SIZE_PLACEHOLDER) + format_fields(sample_rate, bit_depth);
        assert(a40.len() == 40);
        assert(hdr + d == a40 + le32(SIZE_PLACEHOLDER) + d);
        lemma_written_replaces_middle(a40, le32(SIZE_PLACEHOLDER), d, le32(ds));
        assert(writer.bytes() == a40 + le32(ds) + d);
    }
    writer.seek(4);
    writer.write_4_bytes((post_audio_position - 8) as i32);
    proof {
        let tail = format_fields(sample_rate, bit_depth) + le32(ds) + d;
        let a40 = riff_tag() + le32(SIZE_PLACEHOLDER) + format_fields(sample_rate, bit_depth);
        assert(a40 + le32(ds) + d =~= riff_tag() + le32(SIZE_PLACEHOLDER) + tail);
        lemma_written_replaces_middle(riff_tag(), le32(SIZE_PLACEHOLDER), tail, le32(rs));
        assert(writer.bytes() == riff_tag() + le32(rs) + tail);
        assert(writer.bytes() =~= wav_file_bytes(sample_rate, bit_depth, o0.output(n)));
    }
    writer.into_bytes()
}

} // verus!

