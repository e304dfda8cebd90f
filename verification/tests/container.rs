use wavegen::container::ContainerWriter;
use wavegen::encoder::encode;
use wavegen::fixed::ONE;
use wavegen::oscillator::{Oscillator, SawOscillator, SineOscillator};

fn u32_at(bytes: &[u8], off: usize) -> u32 {
    u32::from_le_bytes([bytes[off], bytes[off + 1], bytes[off + 2], bytes[off + 3]])
}

fn u16_at(bytes: &[u8], off: usize) -> u16 {
    u16::from_le_bytes([bytes[off], bytes[off + 1]])
}

fn i16_at(bytes: &[u8], off: usize) -> i16 {
    i16::from_le_bytes([bytes[off], bytes[off + 1]])
}

#[test]
fn writer_encodes_little_endian() {
    let mut w = ContainerWriter::new();
    w.write_2_bytes(0x1234);
    w.write_4_bytes(0x01020304);
    w.write_2_bytes(-2);
    let out = w.into_bytes();
    assert_eq!(out, vec![0x34, 0x12, 0x04, 0x03, 0x02, 0x01, 0xfe, 0xff]);
}

#[test]
fn writer_seek_overwrites_in_place() {
    let mut w = ContainerWriter::new();
    w.write_4_bytes(0);
    w.write_4_bytes(0);
    assert_eq!(w.stream_position(), 8);
    w.seek(2);
    w.write_2_bytes(0x0102);
    assert_eq!(w.stream_position(), 4);
    let out = w.into_bytes();
    assert_eq!(out, vec![0, 0, 0x02, 0x01, 0, 0, 0, 0]);
}

#[test]
fn header_layout_before_backpatch() {
    let mut w = ContainerWriter::new();
    w.write_header(44100, 16);
    let h = w.into_bytes();
    assert_eq!(h.len(), 44);
    assert_eq!(&h[0..4], b"RIFF");
    assert_eq!(&h[4..8], b"----");
    assert_eq!(&h[8..12], b"WAVE");
    assert_eq!(&h[12..16], b"fmt ");
    assert_eq!(u32_at(&h, 16), 16); // format chunk size
    assert_eq!(u16_at(&h, 20), 1); // uncompressed PCM
    assert_eq!(u16_at(&h, 22), 1); // channels
    assert_eq!(u32_at(&h, 24), 44100); // sample rate
    assert_eq!(u32_at(&h, 28), 88200); // byte rate
    assert_eq!(u16_at(&h, 32), 2); // block align
    assert_eq!(u16_at(&h, 34), 16); // bit depth
    assert_eq!(&h[36..40], b"data");
    assert_eq!(&h[40..44], b"----");
}

#[test]
fn encode_sine_end_to_end() {
    // 440 Hz, amplitude one half, two seconds at 44100 Hz, 16 bits
    let mut osc = Oscillator::Sine(SineOscillator::new(440 * ONE, ONE / 2, 44100));
    let out = encode(&mut osc, 2 * ONE, 44100, 16);
    let n = 44100u32 * 2 + 1;
    assert_eq!(out.len(), 44 + 2 * n as usize);
    assert_eq!(out.len(), 176446);
    assert_eq!(&out[0..4], b"RIFF");
    assert_eq!(&out[8..12], b"WAVE");
    assert_eq!(&out[12..16], b"fmt ");
    assert_eq!(u32_at(&out, 4), out.len() as u32 - 8);
    assert_eq!(u32_at(&out, 40), out.len() as u32 - 44);
    // sin(0) == 0: the first sample is exactly zero
    assert_eq!(i16_at(&out, 44), 0);
}

#[test]
fn encode_saw_data_chunk() {
    let mut osc = Oscillator::Sawtooth(SawOscillator::new(880 * ONE, ONE / 2, 44100));
    let out = encode(&mut osc, 2 * ONE, 44100, 16);
    let n = 44100usize * 2 + 1;
    assert_eq!(u32_at(&out, 40), (2 * n) as u32);
    assert_eq!(out.len(), 44 + 2 * n);
    for i in 0..n {
        let s = i16_at(&out, 44 + 2 * i);
        assert!(-16383 <= s && s <= 16383);
    }
}

#[test]
fn encode_is_idempotent() {
    let mut a = Oscillator::Sawtooth(SawOscillator::new(880 * ONE, ONE / 2, 44100));
    let mut b = Oscillator::Sawtooth(SawOscillator::new(880 * ONE, ONE / 2, 44100));
    assert_eq!(encode(&mut a, 2 * ONE, 44100, 16), encode(&mut b, 2 * ONE, 44100, 16));
    let mut c = Oscillator::Sine(SineOscillator::new(440 * ONE, ONE / 2, 44100));
    let mut d = Oscillator::Sine(SineOscillator::new(440 * ONE, ONE / 2, 44100));
    assert_eq!(encode(&mut c, 2 * ONE, 44100, 16), encode(&mut d, 2 * ONE, 44100, 16));
}

#[test]
fn encode_zero_duration_still_emits_one_sample() {
    // the counting convention always adds one sample
    let mut osc = Oscillator::Sine(SineOscillator::new(440 * ONE, ONE / 2, 44100));
    let out = encode(&mut osc, 0, 44100, 16);
    assert_eq!(out.len(), 46);
    assert_eq!(u32_at(&out, 40), 2);
    assert_eq!(u32_at(&out, 4), 38);
}

#[test]
fn encode_fractional_duration_truncates() {
    // 0.5 seconds at 100 Hz sample rate: floor(50) + 1 samples
    let mut osc = Oscillator::Sawtooth(SawOscillator::new(5 * ONE, ONE / 2, 100));
    let out = encode(&mut osc, ONE / 2, 100, 16);
    assert_eq!(out.len(), 44 + 2 * 51);
}
