//! Synthesis of fixed-duration monophonic waveforms and their serialization
//! into an uncompressed PCM (RIFF/WAVE) container.
//!
//! Amplitudes, phases and frequencies are held in Q32.32 fixed point
//! (an `i64` storing `value * 2^32`), so every step of the synthesis is
//! exact integer arithmetic with a proved contract.

pub mod container;
pub mod encoder;
pub mod fixed;
pub mod oscillator;
pub mod quantize;
pub mod sine;
