//! The RIFF/WAVE container as mathematics.
//!
//! A container is a sequence of bytes: a 12-byte header (`"RIFF"`, a size,
//! `"WAVE"`) followed by chunks. A chunk is a 4-byte tag, a 4-byte
//! little-endian size, that many payload bytes, and one pad byte when the
//! size is odd. [`decode`] says what a byte sequence holds or why it holds
//! nothing; [`encode`] says which byte sequence a run of samples is written
//! as. The executable codec is proved against these two functions.

use vstd::prelude::*;
use crate::error::WavError;
use crate::le::{samples_bytes, u16_at, u16_bytes, u32_at, u32_bytes};

verus! {

/// `"RIFF"`, the first four bytes of every container.
pub const RIFF_TAG: [u8; 4] = [0x52, 0x49, 0x46, 0x46];

/// `"WAVE"`, the form type at offset 8.
pub const WAVE_TAG: [u8; 4] = [0x57, 0x41, 0x56, 0x45];

/// `"fmt "`, the tag of the format chunk.
pub const FMT_TAG: [u8; 4] = [0x66, 0x6d, 0x74, 0x20];

/// `"data"`, the tag of the sample chunk.
pub const DATA_TAG: [u8; 4] = [0x64, 0x61, 0x74, 0x61];

/// The audio format code of linear PCM.
pub const PCM: u16 = 1;

/// The only sample width that is decoded and encoded.
pub const BITS_PER_SAMPLE: u16 = 16;

/// The length of the fixed fields of a format chunk.
pub const FMT_FIELDS_LEN: u32 = 16;

/// The length of the header that precedes the first chunk.
pub const RIFF_HEADER_LEN: usize = 12;

/// The length of a chunk's tag and size.
pub const CHUNK_HEADER_LEN: usize = 8;

/// The fields of a format chunk.
pub struct FormatFields {
    /// The size that the chunk declares, at least 16.
    pub block_size: u32,
    pub audio_format: u16,
    pub num_channels: u16,
    pub sample_rate: u32,
    pub bytes_per_sec: u32,
    pub block_align: u16,
    pub bits_per_sample: u16,
}

/// What a decoded container holds: one format and one payload.
pub struct WavContents {
    pub format: FormatFields,
    pub data: Seq<u8>,
}

/// What a scan has come across so far.
pub struct Seen {
    pub fmt: Option<FormatFields>,
    pub data: Option<Seq<u8>>,
}

/// The four bytes that start at `at`.
pub open spec fn tag_at(bytes: Seq<u8>, at: int) -> Seq<u8> {
    bytes.subrange(at, at + 4)
}

/// Where the chunk after this one starts: past the payload and, for an odd
/// size, past its pad byte.
pub open spec fn chunk_end(body: int, size: int) -> int {
    body + size + size % 2
}

/// The fields of a format chunk whose payload starts at `body`.
pub open spec fn fmt_fields_at(bytes: Seq<u8>, body: int, size: u32) -> FormatFields {
    FormatFields {
        block_size: size,
        audio_format: u16_at(bytes, body),
        num_channels: u16_at(bytes, body + 2),
        sample_rate: u32_at(bytes, body + 4),
        bytes_per_sec: u32_at(bytes, body + 8),
        block_align: u16_at(bytes, body + 12),
        bits_per_sample: u16_at(bytes, body + 14),
    }
}

/// Whether these fields describe audio that the codec handles.
pub open spec fn is_pcm16(f: FormatFields) -> bool {
    f.audio_format == PCM && f.bits_per_sample == BITS_PER_SAMPLE
}

/// The scan over the chunks from `pos` on, having come across `seen`.
///
/// It ends well when both chunks have been found, or when fewer than eight
/// bytes are left. A second format or sample chunk, a format chunk shorter
/// than its fixed fields, and a chunk that runs past the end of the buffer
/// each end it with an error. Unknown chunks are passed over.
pub open spec fn scan_chunks(bytes: Seq<u8>, pos: int, seen: Seen) -> Result<Seen, WavError>
    decreases bytes.len() - pos,
{
    if seen.fmt is Some && seen.data is Some {
        Ok(seen)
    } else if pos < 0 || bytes.len() - pos < CHUNK_HEADER_LEN {
        Ok(seen)
    } else {
        let tag = tag_at(bytes, pos);
        let size = u32_at(bytes, pos + 4);
        let body = pos + 8;
        let end = chunk_end(body, size as int);
        if tag == FMT_TAG@ && seen.fmt is Some {
            Err(WavError::Invalid("duplicate fmt chunk"))
        } else if tag == FMT_TAG@ && size < FMT_FIELDS_LEN {
            Err(WavError::BadHeader("fmt chunk too small"))
        } else if tag == DATA_TAG@ && seen.data is Some {
            Err(WavError::Invalid("duplicate data chunk"))
        } else if end > bytes.len() {
            Err(WavError::Truncated)
        } else if tag == FMT_TAG@ {
            scan_chunks(
                bytes,
                end,
                Seen { fmt: Some(fmt_fields_at(bytes, body, size)), data: seen.data },
            )
        } else if tag == DATA_TAG@ {
            scan_chunks(
                bytes,
                end,
                Seen { fmt: seen.fmt, data: Some(bytes.subrange(body, body + size)) },
            )
        } else {
            scan_chunks(bytes, end, seen)
        }
    }
}

/// What a finished scan amounts to: both chunks must have been found, and
/// the format must be 16-bit linear PCM.
pub open spec fn conclude(seen: Seen) -> Result<WavContents, WavError> {
    match (seen.fmt, seen.data) {
        (None, _) => Err(WavError::MissingChunk("fmt ")),
        (Some(_), None) => Err(WavError::MissingChunk("data")),
        (Some(f), Some(d)) => if is_pcm16(f) {
            Ok(WavContents { format: f, data: d })
        } else {
            Err(
                WavError::UnsupportedFormat {
                    audio_format: f.audio_format,
                    bits_per_sample: f.bits_per_sample,
                    channels: f.num_channels,
                },
            )
        },
    }
}

/// What the byte sequence `bytes` holds as a container, or why it holds
/// nothing.
///
/// The size field at offset 4 is passed over: a container whose declared
/// size disagrees with its length is judged by its chunks alone.
pub open spec fn decode(bytes: Seq<u8>) -> Result<WavContents, WavError> {
    if bytes.len() < 4 {
        Err(WavError::Truncated)
    } else if tag_at(bytes, 0) != RIFF_TAG@ {
        Err(WavError::BadHeader("RIFF missing"))
    } else if bytes.len() < RIFF_HEADER_LEN {
        Err(WavError::Truncated)
    } else if tag_at(bytes, 8) != WAVE_TAG@ {
        Err(WavError::BadHeader("WAVE missing"))
    } else {
        match scan_chunks(bytes, RIFF_HEADER_LEN as int, Seen { fmt: None, data: None }) {
            Err(e) => Err(e),
            Ok(seen) => conclude(seen),
        }
    }
}

/// The format fields of 16-bit linear PCM at this rate and channel count.
pub open spec fn pcm16_fields(sample_rate: u32, channels: u16) -> FormatFields {
    FormatFields {
        block_size: FMT_FIELDS_LEN,
        audio_format: PCM,
        num_channels: channels,
        sample_rate,
        bytes_per_sec: (sample_rate * (2 * channels)) as u32,
        block_align: (2 * channels) as u16,
        bits_per_sample: BITS_PER_SAMPLE,
    }
}

/// The pad that follows a payload: one zero byte after an odd number of
/// bytes, nothing after an even number.
pub open spec fn pad_bytes(len: nat) -> Seq<u8> {
    if len % 2 == 1 {
        seq![0u8]
    } else {
        Seq::empty()
    }
}

/// A chunk as it lies in a container: the tag, the length of the payload as
/// a 32-bit size, the payload, and the pad.
pub open spec fn chunk(tag: Seq<u8>, payload: Seq<u8>) -> Seq<u8> {
    tag + u32_bytes(payload.len() as u32) + payload + pad_bytes(payload.len())
}

/// The 12 bytes that every container starts with, declaring `riff_size`
/// bytes to follow the size field.
pub open spec fn riff_header(riff_size: u32) -> Seq<u8> {
    RIFF_TAG@ + u32_bytes(riff_size) + WAVE_TAG@
}

/// The length of everything that precedes the payload in the canonical
/// layout: the header, a format chunk of 16 bytes, and the tag and size of
/// the sample chunk.
pub const PREAMBLE_LEN: usize = 44;

/// The first 44 bytes of the canonical layout, for the format fields `f`
/// and a payload of `payload_len` bytes.
pub open spec fn preamble(f: FormatFields, payload_len: nat) -> Seq<u8> {
    RIFF_TAG@ + u32_bytes((36 + payload_len + payload_len % 2) as u32) + WAVE_TAG@ + FMT_TAG@
        + u32_bytes(FMT_FIELDS_LEN) + u16_bytes(f.audio_format) + u16_bytes(f.num_channels)
        + u32_bytes(f.sample_rate) + u32_bytes(f.bytes_per_sec) + u16_bytes(f.block_align)
        + u16_bytes(f.bits_per_sample) + DATA_TAG@ + u32_bytes(payload_len as u32)
}

/// The canonical container: the 12-byte header, a 16-byte format chunk with
/// the fields `f`, and a sample chunk with `payload`, padded to an even
/// length.
pub open spec fn container(f: FormatFields, payload: Seq<u8>) -> Seq<u8> {
    preamble(f, payload.len()) + payload + pad_bytes(payload.len())
}

/// The container that interleaved 16-bit samples are written as, or why
/// they cannot be written.
pub open spec fn encode(samples: Seq<i16>, sample_rate: u32, channels: u16) -> Result<
    Seq<u8>,
    WavError,
> {
    let data_size = 2 * samples.len();
    if channels == 0 {
        Err(WavError::Invalid("num_channels must be >= 1"))
    } else if samples.len() % (channels as nat) != 0 {
        Err(WavError::Invalid("samples length not divisible by num_channels"))
    } else if 2 * channels > u16::MAX {
        Err(WavError::Invalid("block_align overflow"))
    } else if sample_rate * (2 * channels) > u32::MAX {
        Err(WavError::Invalid("byte_rate overflow"))
    } else if data_size > u32::MAX {
        Err(WavError::Invalid("data chunk too large"))
    } else if 36 + data_size + data_size % 2 > u32::MAX {
        Err(WavError::Invalid("riff size overflow"))
    } else {
        Ok(container(pcm16_fields(sample_rate, channels), samples_bytes(samples)))
    }
}

} // verus!
