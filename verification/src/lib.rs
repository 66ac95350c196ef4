//! A RIFF/WAVE codec for 16-bit linear PCM, verified with Verus.
//!
//! The codec works on buffers in memory. [`read_raw_wav`] decodes a
//! container into its format chunk and its raw sample payload;
//! [`write_wav_pcm16`] and its two shorthands encode interleaved samples
//! into the canonical 44-byte layout. Neither panics, and each returns
//! exactly what the model in [`riff`] says of its input: the contents or
//! bytes, or the first error.
//!
//! - [`riff`]: the container as mathematics, `decode` and `encode` over
//!   sequences of bytes.
//! - [`le`]: little-endian integers as bytes.
//! - [`wav`]: the executable codec and the decoded types.
//! - [`error`]: the errors and their messages.
//! - [`laws`]: what holds of the codec as a whole, such as that decoding
//!   undoes encoding and that a container cut short is an error.

pub mod error;
pub mod laws;
pub mod le;
pub mod riff;
pub mod wav;

pub use error::WavError;
pub use wav::{
    read_raw_wav, write_wav_pcm16, write_wav_pcm16_mono, write_wav_pcm16_stereo, DataFormat,
    SampledData, Wav,
};
