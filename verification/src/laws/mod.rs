//! What holds of the codec as a whole.
//!
//! Each law is stated over [`decode`](crate::riff::decode) and
//! [`encode`](crate::riff::encode), the functions that the executable codec
//! is proved to compute, so each holds of what `read_raw_wav` and
//! `write_wav_pcm16` return.

pub mod canonical;
pub mod chunks;
pub mod contents;
mod layout;
pub mod truncation;
