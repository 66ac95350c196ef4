//! The canonical layout: what the encoder writes, and what the decoder makes
//! of it, whole or cut short.

use vstd::prelude::*;
use crate::error::WavError;
use crate::laws::layout::{lemma_fields_before_cut, lemma_reads_before_cut, lemma_reads_in_prefix};
use crate::le::{
    i16_bytes, lemma_i16_bytes_injective, lemma_u16_round_trip, lemma_u32_round_trip,
    samples_bytes, u16_at, u16_bytes, u32_at, u32_bytes,
};
use crate::riff::{
    chunk, chunk_end, conclude, container, decode, encode, fmt_fields_at, is_pcm16, pad_bytes,
    pcm16_fields, preamble, riff_header, scan_chunks, tag_at, FormatFields, Seen, WavContents,
    DATA_TAG, FMT_FIELDS_LEN, FMT_TAG, PREAMBLE_LEN, RIFF_TAG, WAVE_TAG,
};

verus! {

/// The fields `f` as a decoder reads them back from the canonical layout,
/// whose format chunk always declares 16 bytes.
pub open spec fn as_written(f: FormatFields) -> FormatFields {
    FormatFields { block_size: FMT_FIELDS_LEN, ..f }
}

/// The 16 bytes of a format chunk that holds the fields `f`.
pub open spec fn fields_bytes(f: FormatFields) -> Seq<u8> {
    u16_bytes(f.audio_format) + u16_bytes(f.num_channels) + u32_bytes(f.sample_rate) + u32_bytes(
        f.bytes_per_sec,
    ) + u16_bytes(f.block_align) + u16_bytes(f.bits_per_sample)
}

/// The canonical container is the header and two chunks.
///
/// It is the 12-byte header, declaring the size of what follows it, then a
/// format chunk of the 16 bytes of the fields, then a sample chunk of the
/// payload: so what holds of chunks holds of the chunks of the canonical
/// layout.
pub proof fn lemma_container_is_header_and_two_chunks(f: FormatFields, payload: Seq<u8>)
    ensures
        fields_bytes(f).len() == FMT_FIELDS_LEN,
        container(f, payload) == riff_header((36 + payload.len() + payload.len() % 2) as u32)
            + chunk(FMT_TAG@, fields_bytes(f)) + chunk(DATA_TAG@, payload),
{
    let size = (36 + payload.len() + payload.len() % 2) as u32;
    assert(fields_bytes(f).len() == 16);
    assert(pad_bytes(16) =~= Seq::<u8>::empty());
    assert(container(f, payload) =~= riff_header(size) + chunk(FMT_TAG@, fields_bytes(f)) + chunk(
        DATA_TAG@,
        payload,
    ));
}

/// Where everything sits in the 44 bytes of the canonical preamble.
proof fn lemma_preamble_layout(f: FormatFields, payload_len: nat)
    requires
        payload_len <= u32::MAX,
    ensures
        preamble(f, payload_len).len() == PREAMBLE_LEN,
        tag_at(preamble(f, payload_len), 0) == RIFF_TAG@,
        tag_at(preamble(f, payload_len), 8) == WAVE_TAG@,
        tag_at(preamble(f, payload_len), 12) == FMT_TAG@,
        u32_at(preamble(f, payload_len), 16) == FMT_FIELDS_LEN,
        fmt_fields_at(preamble(f, payload_len), 20, FMT_FIELDS_LEN) == as_written(f),
        tag_at(preamble(f, payload_len), 36) == DATA_TAG@,
        u32_at(preamble(f, payload_len), 40) == payload_len,
{
    let p = preamble(f, payload_len);
    lemma_u32_round_trip(FMT_FIELDS_LEN);
    lemma_u16_round_trip(f.audio_format);
    lemma_u16_round_trip(f.num_channels);
    lemma_u32_round_trip(f.sample_rate);
    lemma_u32_round_trip(f.bytes_per_sec);
    lemma_u16_round_trip(f.block_align);
    lemma_u16_round_trip(f.bits_per_sample);
    lemma_u32_round_trip(payload_len as u32);
    assert(p.len() == 44);
    assert(tag_at(p, 0) =~= RIFF_TAG@);
    assert(tag_at(p, 8) =~= WAVE_TAG@);
    assert(tag_at(p, 12) =~= FMT_TAG@);
    assert(tag_at(p, 36) =~= DATA_TAG@);
    assert(p.subrange(16, 20) =~= u32_bytes(FMT_FIELDS_LEN));
    assert(p.subrange(20, 22) =~= u16_bytes(f.audio_format));
    assert(p.subrange(22, 24) =~= u16_bytes(f.num_channels));
    assert(p.subrange(24, 28) =~= u32_bytes(f.sample_rate));
    assert(p.subrange(28, 32) =~= u32_bytes(f.bytes_per_sec));
    assert(p.subrange(32, 34) =~= u16_bytes(f.block_align));
    assert(p.subrange(34, 36) =~= u16_bytes(f.bits_per_sample));
    assert(p.subrange(40, 44) =~= u32_bytes(payload_len as u32));
}

/// Where everything sits in the canonical container.
proof fn lemma_container_layout(f: FormatFields, payload: Seq<u8>)
    requires
        payload.len() <= u32::MAX,
    ensures
        container(f, payload).len() == PREAMBLE_LEN + payload.len() + payload.len() % 2,
        tag_at(container(f, payload), 0) == RIFF_TAG@,
        tag_at(container(f, payload), 8) == WAVE_TAG@,
        tag_at(container(f, payload), 12) == FMT_TAG@,
        u32_at(container(f, payload), 16) == FMT_FIELDS_LEN,
        fmt_fields_at(container(f, payload), 20, FMT_FIELDS_LEN) == as_written(f),
        tag_at(container(f, payload), 36) == DATA_TAG@,
        u32_at(container(f, payload), 40) == payload.len(),
        container(f, payload).subrange(44, 44 + payload.len() as int) == payload,
{
    let n = payload.len();
    let head = preamble(f, n);
    let tail = payload + pad_bytes(n);
    let bytes = container(f, payload);
    lemma_preamble_layout(f, n);
    assert(bytes =~= head + tail);
    lemma_reads_in_prefix(head, tail, 0);
    lemma_reads_in_prefix(head, tail, 8);
    lemma_reads_in_prefix(head, tail, 12);
    lemma_reads_in_prefix(head, tail, 16);
    lemma_reads_in_prefix(head, tail, 20);
    lemma_reads_in_prefix(head, tail, 22);
    lemma_reads_in_prefix(head, tail, 24);
    lemma_reads_in_prefix(head, tail, 28);
    lemma_reads_in_prefix(head, tail, 32);
    lemma_reads_in_prefix(head, tail, 36);
    lemma_reads_in_prefix(head, tail, 40);
    assert(u16_at(head + tail, 34) == u16_at(head, 34));
    assert((head + tail).subrange(44, 44 + n as int) =~= payload);
}

/// What the scan finds in the canonical layout: the fields and the payload
/// that were laid out.
proof fn lemma_container_scan(f: FormatFields, payload: Seq<u8>)
    requires
        payload.len() <= u32::MAX,
    ensures
        decode(container(f, payload)) == conclude(
            Seen { fmt: Some(as_written(f)), data: Some(payload) },
        ),
{
    let n = payload.len();
    let bytes = container(f, payload);
    lemma_container_layout(f, payload);
    let none = Seen { fmt: None, data: None };
    let with_fmt = Seen { fmt: Some(as_written(f)), data: None };
    let both = Seen { fmt: Some(as_written(f)), data: Some(payload) };
    assert(FMT_TAG@[0] != DATA_TAG@[0]);
    assert(chunk_end(20, 16) == 36);
    assert(chunk_end(44, n as int) == bytes.len());
    assert(scan_chunks(bytes, bytes.len() as int, both) == Ok::<Seen, WavError>(both));
    assert(scan_chunks(bytes, 36, with_fmt) == Ok::<Seen, WavError>(both));
    assert(scan_chunks(bytes, 12, none) == Ok::<Seen, WavError>(both));
}

/// The canonical layout decodes to what was laid out.
///
/// For any fields of 16-bit linear PCM and any payload whose length fits
/// the 32-bit size field, of an even or an odd number of bytes, decoding the
/// canonical container gives back the fields and the payload.
pub proof fn lemma_container_decodes(f: FormatFields, payload: Seq<u8>)
    requires
        is_pcm16(f),
        payload.len() <= u32::MAX,
    ensures
        decode(container(f, payload)) == Ok::<WavContents, WavError>(
            WavContents { format: as_written(f), data: payload },
        ),
{
    lemma_container_scan(f, payload);
}

/// Any other format is reported with its values.
///
/// Where the format chunk of the canonical layout names an audio format
/// other than linear PCM, or a sample width other than 16 bits, decoding
/// gives `UnsupportedFormat` with the audio format, the sample width and
/// the channel count exactly as the chunk holds them.
pub proof fn lemma_other_format_is_unsupported(f: FormatFields, payload: Seq<u8>)
    requires
        !is_pcm16(f),
        payload.len() <= u32::MAX,
    ensures
        decode(container(f, payload)) == Err::<WavContents, WavError>(
            WavError::UnsupportedFormat {
                audio_format: f.audio_format,
                bits_per_sample: f.bits_per_sample,
                channels: f.num_channels,
            },
        ),
{
    lemma_container_scan(f, payload);
}

/// Encoding and then decoding gives back what was encoded.
///
/// Whenever samples can be encoded, for any rate and any number of
/// channels, the container decodes; its format is 16-bit linear PCM at that
/// rate and channel count, with the block alignment and byte rate that
/// follow from them; and its payload is the samples, byte for byte.
pub proof fn lemma_encode_then_decode(samples: Seq<i16>, sample_rate: u32, channels: u16)
    requires
        encode(samples, sample_rate, channels) is Ok,
    ensures
        decode(encode(samples, sample_rate, channels)->Ok_0) == Ok::<WavContents, WavError>(
            WavContents {
                format: pcm16_fields(sample_rate, channels),
                data: samples_bytes(samples),
            },
        ),
{
    lemma_container_decodes(pcm16_fields(sample_rate, channels), samples_bytes(samples));
}

/// The payload determines the samples: two runs of samples with the same
/// bytes are the same run.
pub proof fn lemma_samples_bytes_injective(a: Seq<i16>, b: Seq<i16>)
    requires
        samples_bytes(a) == samples_bytes(b),
    ensures
        a == b,
{
    assert(samples_bytes(a).len() == 2 * a.len());
    assert(samples_bytes(b).len() == 2 * b.len());
    assert forall|k: int| 0 <= k < a.len() implies a[k] == b[k] by {
        assert(samples_bytes(a)[2 * k] == i16_bytes(a[k])[0]);
        assert(samples_bytes(a)[2 * k + 1] == i16_bytes(a[k])[1]);
        assert(samples_bytes(b)[2 * k] == i16_bytes(b[k])[0]);
        assert(samples_bytes(b)[2 * k + 1] == i16_bytes(b[k])[1]);
        assert(i16_bytes(a[k]) =~= i16_bytes(b[k]));
        lemma_i16_bytes_injective(a[k], b[k]);
    }
    assert(a =~= b);
}

/// The canonical layout, cut short.
///
/// Cut the canonical container off anywhere before the end of its payload.
/// Decoding what is left gives `Truncated`, except where the cut leaves
/// fewer than eight bytes of the format chunk (from 12 up to 20) or of the
/// sample chunk (from 36 up to 44): there the chunk counts as missing.
pub proof fn lemma_cut_container(f: FormatFields, payload: Seq<u8>, cut: int)
    requires
        payload.len() <= u32::MAX,
        0 <= cut < PREAMBLE_LEN + payload.len(),
    ensures
        decode(container(f, payload).take(cut)) == Err::<WavContents, WavError>(
            if 12 <= cut < 20 {
                WavError::MissingChunk("fmt ")
            } else if 36 <= cut < 44 {
                WavError::MissingChunk("data")
            } else {
                WavError::Truncated
            },
        ),
{
    let n = payload.len();
    let bytes = container(f, payload);
    let cut_bytes = bytes.take(cut);
    lemma_container_layout(f, payload);
    assert(cut_bytes.len() == cut);
    let none = Seen { fmt: None, data: None };
    let with_fmt = Seen { fmt: Some(as_written(f)), data: None };
    assert(FMT_TAG@[0] != DATA_TAG@[0]);
    if cut >= 4 {
        lemma_reads_before_cut(bytes, cut, 0);
    }
    if cut >= 12 {
        lemma_reads_before_cut(bytes, cut, 8);
    }
    if cut >= 20 {
        lemma_reads_before_cut(bytes, cut, 12);
        lemma_reads_before_cut(bytes, cut, 16);
        assert(chunk_end(20, 16) == 36);
    }
    if cut >= 36 {
        lemma_fields_before_cut(bytes, cut, 20, FMT_FIELDS_LEN);
        assert(scan_chunks(cut_bytes, 12, none) == scan_chunks(cut_bytes, 36, with_fmt));
    }
    if cut >= 44 {
        lemma_reads_before_cut(bytes, cut, 36);
        lemma_reads_before_cut(bytes, cut, 40);
        assert(chunk_end(44, n as int) > cut);
        assert(scan_chunks(cut_bytes, 36, with_fmt) == Err::<Seen, WavError>(WavError::Truncated));
    }
}

/// What the encoder writes, cut short.
///
/// Cut an encoded container off anywhere before the end of its samples.
/// Decoding what is left gives `Truncated`, except where the cut leaves
/// fewer than eight bytes of the format chunk (from 12 up to 20) or of the
/// sample chunk (from 36 up to 44): there the chunk counts as missing.
pub proof fn lemma_cut_encoding(samples: Seq<i16>, sample_rate: u32, channels: u16, cut: int)
    requires
        encode(samples, sample_rate, channels) is Ok,
        0 <= cut < PREAMBLE_LEN + 2 * samples.len(),
    ensures
        decode(encode(samples, sample_rate, channels)->Ok_0.take(cut)) == Err::<
            WavContents,
            WavError,
        >(
            if 12 <= cut < 20 {
                WavError::MissingChunk("fmt ")
            } else if 36 <= cut < 44 {
                WavError::MissingChunk("data")
            } else {
                WavError::Truncated
            },
        ),
{
    lemma_cut_container(pcm16_fields(sample_rate, channels), samples_bytes(samples), cut);
}

} // verus!
