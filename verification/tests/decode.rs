use syn2::{read_raw_wav, WavError};

fn le16(x: u16) -> [u8; 2] {
    x.to_le_bytes()
}

fn le32(x: u32) -> [u8; 4] {
    x.to_le_bytes()
}

/// A chunk: tag, size, payload, and the pad after an odd payload.
fn chunk(tag: &[u8; 4], payload: &[u8]) -> Vec<u8> {
    let mut out: Vec<u8> = Vec::new();
    out.extend_from_slice(tag);
    out.extend_from_slice(&le32(payload.len() as u32));
    out.extend_from_slice(payload);
    if payload.len() % 2 == 1 {
        out.push(0);
    }
    out
}

fn fmt_fields(
    audio_format: u16,
    channels: u16,
    rate: u32,
    byte_rate: u32,
    align: u16,
    bits: u16,
) -> Vec<u8> {
    let mut out: Vec<u8> = Vec::new();
    out.extend_from_slice(&le16(audio_format));
    out.extend_from_slice(&le16(channels));
    out.extend_from_slice(&le32(rate));
    out.extend_from_slice(&le32(byte_rate));
    out.extend_from_slice(&le16(align));
    out.extend_from_slice(&le16(bits));
    out
}

fn pcm16_mono_fields() -> Vec<u8> {
    fmt_fields(1, 1, 8000, 16000, 2, 16)
}

fn header(riff_size: u32) -> Vec<u8> {
    let mut out: Vec<u8> = Vec::new();
    out.extend_from_slice(b"RIFF");
    out.extend_from_slice(&le32(riff_size));
    out.extend_from_slice(b"WAVE");
    out
}

fn join(parts: &[Vec<u8>]) -> Vec<u8> {
    parts.concat()
}

#[test]
fn canonical_container_decodes() {
    let bytes = join(&[
        header(36 + 6),
        chunk(b"fmt ", &fmt_fields(1, 2, 44100, 176400, 4, 16)),
        chunk(b"data", &[1, 2, 3, 4, 5, 6]),
    ]);
    let wav = read_raw_wav(&bytes).unwrap();
    let f = wav.format();
    assert_eq!(f.block_size(), 16);
    assert_eq!(f.audio_format(), 1);
    assert_eq!(f.num_channels(), 2);
    assert_eq!(f.sample_rate(), 44100);
    assert_eq!(f.bytes_per_sec(), 176400);
    assert_eq!(f.block_align(), 4);
    assert_eq!(f.bits_per_sample(), 16);
    assert_eq!(wav.data_bytes(), &[1, 2, 3, 4, 5, 6]);
    assert_eq!(wav.data_chunk().len_bytes(), 6);
    assert_eq!(wav.data_chunk().data_size(), 6);
}

#[test]
fn fields_are_read_little_endian() {
    let bytes = join(&[
        header(0),
        chunk(b"fmt ", &[1, 0, 0x34, 0x12, 0x78, 0x56, 0x34, 0x12, 0xef, 0xcd, 0xab, 0x89, 0xbc, 0x9a, 16, 0]),
        chunk(b"data", &[]),
    ]);
    let wav = read_raw_wav(&bytes).unwrap();
    let f = wav.format();
    assert_eq!(f.num_channels(), 0x1234);
    assert_eq!(f.sample_rate(), 0x1234_5678);
    assert_eq!(f.bytes_per_sec(), 0x89ab_cdef);
    assert_eq!(f.block_align(), 0x9abc);
}

#[test]
fn odd_payload_needs_its_pad_byte() {
    let fmt = chunk(b"fmt ", &pcm16_mono_fields());
    let padded = join(&[header(0), fmt.clone(), chunk(b"data", &[9, 8, 7])]);
    assert_eq!(padded.len(), 12 + 24 + 8 + 3 + 1);
    let wav = read_raw_wav(&padded).unwrap();
    assert_eq!(wav.data_bytes(), &[9, 8, 7]);
    assert_eq!(wav.data_chunk().data_size(), 3);

    let unpadded = &padded[..padded.len() - 1];
    assert!(matches!(read_raw_wav(unpadded), Err(WavError::Truncated)));
}

#[test]
fn format_chunk_may_carry_extension_bytes() {
    let mut fields = pcm16_mono_fields();
    fields.extend_from_slice(&[0xaa, 0xbb, 0xcc]);
    let bytes = join(&[header(0), chunk(b"fmt ", &fields), chunk(b"data", &[1, 2])]);
    let wav = read_raw_wav(&bytes).unwrap();
    assert_eq!(wav.format().block_size(), 19);
    assert_eq!(wav.format().sample_rate(), 8000);
    assert_eq!(wav.data_bytes(), &[1, 2]);
}

#[test]
fn short_format_chunk_is_a_bad_header() {
    let bytes = join(&[
        header(0),
        chunk(b"fmt ", &pcm16_mono_fields()[..14]),
        chunk(b"data", &[1, 2]),
    ]);
    assert!(matches!(
        read_raw_wav(&bytes),
        Err(WavError::BadHeader("fmt chunk too small"))
    ));
}

#[test]
fn wrong_literals_are_bad_headers() {
    let good = join(&[
        header(0),
        chunk(b"fmt ", &pcm16_mono_fields()),
        chunk(b"data", &[1, 2]),
    ]);
    let mut no_riff = good.clone();
    no_riff[0] = b'X';
    assert!(matches!(read_raw_wav(&no_riff), Err(WavError::BadHeader("RIFF missing"))));
    let mut no_wave = good.clone();
    no_wave[11] = b'X';
    assert!(matches!(read_raw_wav(&no_wave), Err(WavError::BadHeader("WAVE missing"))));
    // The first literal is judged before the length of the rest.
    assert!(matches!(read_raw_wav(b"RIFX"), Err(WavError::BadHeader("RIFF missing"))));
}

#[test]
fn short_headers_are_truncated() {
    assert!(matches!(read_raw_wav(b""), Err(WavError::Truncated)));
    assert!(matches!(read_raw_wav(b"RIF"), Err(WavError::Truncated)));
    assert!(matches!(read_raw_wav(b"RIFF"), Err(WavError::Truncated)));
    assert!(matches!(read_raw_wav(b"RIFF\x00\x00\x00"), Err(WavError::Truncated)));
    assert!(matches!(read_raw_wav(b"RIFF\x00\x00\x00\x00"), Err(WavError::Truncated)));
    assert!(matches!(read_raw_wav(b"RIFF\x00\x00\x00\x00WAV"), Err(WavError::Truncated)));
}

#[test]
fn header_alone_misses_the_format_chunk() {
    assert!(matches!(read_raw_wav(&header(4)), Err(WavError::MissingChunk("fmt "))));
}

#[test]
fn missing_chunks_are_named() {
    let only_fmt = join(&[header(0), chunk(b"fmt ", &pcm16_mono_fields())]);
    assert!(matches!(read_raw_wav(&only_fmt), Err(WavError::MissingChunk("data"))));
    let only_data = join(&[header(0), chunk(b"data", &[1, 2])]);
    assert!(matches!(read_raw_wav(&only_data), Err(WavError::MissingChunk("fmt "))));
    let neither = join(&[header(0), chunk(b"LIST", &[1, 2])]);
    assert!(matches!(read_raw_wav(&neither), Err(WavError::MissingChunk("fmt "))));
}

#[test]
fn sample_chunk_may_come_first() {
    let bytes = join(&[
        header(0),
        chunk(b"data", &[4, 3, 2, 1]),
        chunk(b"fmt ", &pcm16_mono_fields()),
    ]);
    let wav = read_raw_wav(&bytes).unwrap();
    assert_eq!(wav.data_bytes(), &[4, 3, 2, 1]);
    assert_eq!(wav.format().sample_rate(), 8000);
}

#[test]
fn unknown_chunk_is_tolerated() {
    let bytes = join(&[
        header(0),
        chunk(b"LIST", &[1, 2, 3, 4, 5]),
        chunk(b"fmt ", &pcm16_mono_fields()),
        chunk(b"fact", &[0, 0, 0, 0]),
        chunk(b"data", &[7, 7]),
    ]);
    let wav = read_raw_wav(&bytes).unwrap();
    assert_eq!(wav.data_bytes(), &[7, 7]);
    assert_eq!(wav.format().num_channels(), 1);
}

#[test]
fn two_format_chunks_are_invalid() {
    let bytes = join(&[
        header(0),
        chunk(b"fmt ", &pcm16_mono_fields()),
        chunk(b"fmt ", &pcm16_mono_fields()),
        chunk(b"data", &[1, 2]),
    ]);
    assert!(matches!(
        read_raw_wav(&bytes),
        Err(WavError::Invalid("duplicate fmt chunk"))
    ));
}

#[test]
fn second_format_chunk_is_judged_by_its_tag_alone() {
    // Eight bytes of a second format chunk are enough: its size is not looked at.
    let mut bytes = join(&[header(0), chunk(b"fmt ", &pcm16_mono_fields())]);
    bytes.extend_from_slice(b"fmt \xff\xff\xff\xff");
    assert!(matches!(
        read_raw_wav(&bytes),
        Err(WavError::Invalid("duplicate fmt chunk"))
    ));
}

#[test]
fn two_sample_chunks_before_the_format_are_invalid() {
    let bytes = join(&[
        header(0),
        chunk(b"data", &[1, 2]),
        chunk(b"data", &[3, 4]),
        chunk(b"fmt ", &pcm16_mono_fields()),
    ]);
    assert!(matches!(
        read_raw_wav(&bytes),
        Err(WavError::Invalid("duplicate data chunk"))
    ));
}

#[test]
fn nothing_is_read_after_both_chunks() {
    let mut bytes = join(&[
        header(0),
        chunk(b"fmt ", &pcm16_mono_fields()),
        chunk(b"data", &[1, 2]),
        chunk(b"fmt ", &pcm16_mono_fields()),
        chunk(b"data", &[9, 9]),
    ]);
    bytes.extend_from_slice(b"junk that is no chunk");
    let wav = read_raw_wav(&bytes).unwrap();
    assert_eq!(wav.data_bytes(), &[1, 2]);
}

#[test]
fn float_format_is_unsupported() {
    let bytes = join(&[
        header(0),
        chunk(b"fmt ", &fmt_fields(3, 2, 48000, 384000, 8, 32)),
        chunk(b"data", &[0, 0, 0, 0, 0, 0, 0, 0]),
    ]);
    match read_raw_wav(&bytes) {
        Err(WavError::UnsupportedFormat { audio_format, bits_per_sample, channels }) => {
            assert_eq!(audio_format, 3);
            assert_eq!(bits_per_sample, 32);
            assert_eq!(channels, 2);
        }
        other => panic!("expected UnsupportedFormat, got {:?}", other.map(|_| ())),
    }
}

#[test]
fn float_format_at_sixteen_bits_is_unsupported() {
    let bytes = join(&[
        header(0),
        chunk(b"fmt ", &fmt_fields(3, 1, 8000, 16000, 2, 16)),
        chunk(b"data", &[0, 0]),
    ]);
    assert!(matches!(
        read_raw_wav(&bytes),
        Err(WavError::UnsupportedFormat { audio_format: 3, bits_per_sample: 16, channels: 1 })
    ));
}

#[test]
fn eight_bit_pcm_is_unsupported() {
    let bytes = join(&[
        header(0),
        chunk(b"fmt ", &fmt_fields(1, 6, 8000, 48000, 6, 8)),
        chunk(b"data", &[1, 2, 3, 4, 5, 6]),
    ]);
    assert!(matches!(
        read_raw_wav(&bytes),
        Err(WavError::UnsupportedFormat { audio_format: 1, bits_per_sample: 8, channels: 6 })
    ));
}

#[test]
fn structure_is_judged_before_the_format() {
    // An unsupported format with no sample chunk is a missing chunk.
    let bytes = join(&[header(0), chunk(b"fmt ", &fmt_fields(3, 1, 8000, 32000, 4, 32))]);
    assert!(matches!(read_raw_wav(&bytes), Err(WavError::MissingChunk("data"))));
}

#[test]
fn declared_riff_size_is_not_checked() {
    let chunks = join(&[chunk(b"fmt ", &pcm16_mono_fields()), chunk(b"data", &[1, 2, 3, 4])]);
    for size in [0u32, 1, 40, 0xffff_ffff] {
        let bytes = join(&[header(size), chunks.clone()]);
        let wav = read_raw_wav(&bytes).unwrap();
        assert_eq!(wav.data_bytes(), &[1, 2, 3, 4]);
    }
}

#[test]
fn chunk_that_overruns_the_buffer_is_truncated() {
    let mut bytes = join(&[header(0), chunk(b"fmt ", &pcm16_mono_fields())]);
    bytes.extend_from_slice(b"data");
    bytes.extend_from_slice(&le32(10));
    bytes.extend_from_slice(&[1, 2, 3, 4]);
    assert!(matches!(read_raw_wav(&bytes), Err(WavError::Truncated)));

    let mut unknown = header(0);
    unknown.extend_from_slice(b"LIST");
    unknown.extend_from_slice(&le32(0xffff_ffff));
    unknown.extend_from_slice(&[0; 16]);
    assert!(matches!(read_raw_wav(&unknown), Err(WavError::Truncated)));
}

#[test]
fn fewer_than_eight_trailing_bytes_end_the_scan() {
    let mut bytes = join(&[header(0), chunk(b"fmt ", &pcm16_mono_fields())]);
    bytes.extend_from_slice(b"data\x02\x00\x00");
    assert!(matches!(read_raw_wav(&bytes), Err(WavError::MissingChunk("data"))));
}

#[test]
fn clones_hold_the_same() {
    let bytes = join(&[
        header(0),
        chunk(b"fmt ", &pcm16_mono_fields()),
        chunk(b"data", &[1, 2, 3, 4]),
    ]);
    let wav = read_raw_wav(&bytes).unwrap();
    let copy = wav.clone();
    assert_eq!(copy.data_bytes(), wav.data_bytes());
    assert_eq!(copy.format().sample_rate(), wav.format().sample_rate());
    let data = wav.data_chunk().clone();
    assert_eq!(data.len_bytes(), 4);
    let format = wav.format().clone();
    assert_eq!(format.block_align(), 2);
}

#[test]
fn io_errors_are_carried() {
    let e = std::io::Error::new(std::io::ErrorKind::NotFound, "no such file");
    match WavError::from(e) {
        WavError::Io(inner) => assert_eq!(inner.kind(), std::io::ErrorKind::NotFound),
        other => panic!("expected Io, got {:?}", other),
    }
}
