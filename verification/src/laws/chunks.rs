//! Chunks that the scan passes over, chunks that it rejects, and bytes that
//! it never reads.

use vstd::prelude::*;
use crate::error::WavError;
use crate::laws::layout::{
    lemma_chunk_layout, lemma_four_parts, lemma_header_layout, lemma_reads_in_prefix,
    lemma_scan_does_not_judge_the_format, lemma_scan_looks_ahead_only, lemma_scan_over_chunk,
};
use crate::le::{u16_at, u32_at};
use crate::riff::{
    chunk, chunk_end, conclude, decode, fmt_fields_at, riff_header, scan_chunks, tag_at, Seen,
    WavContents, DATA_TAG, FMT_FIELDS_LEN, FMT_TAG, RIFF_HEADER_LEN, RIFF_TAG, WAVE_TAG,
};

verus! {

/// A scan passes over an unknown chunk as if it were not there.
///
/// Wherever a scan stands, and whatever it has come across: if a chunk whose
/// tag is neither `"fmt "` nor `"data"` lies there, the scan ends as it would
/// end in the buffer without that chunk.
pub proof fn lemma_scan_passes_over_unknown_chunk(
    before: Seq<u8>,
    tag: Seq<u8>,
    payload: Seq<u8>,
    after: Seq<u8>,
    seen: Seen,
)
    requires
        tag.len() == 4,
        tag != FMT_TAG@,
        tag != DATA_TAG@,
        payload.len() <= u32::MAX,
    ensures
        scan_chunks(before + chunk(tag, payload) + after, before.len() as int, seen)
            == scan_chunks(before + after, before.len() as int, seen),
{
    let longer = before + chunk(tag, payload) + after;
    let shorter = before + after;
    let at = before.len() as int;
    if !(seen.fmt is Some && seen.data is Some) {
        lemma_chunk_layout(before, tag, payload, after);
        lemma_scan_over_chunk(before, tag, payload, after, seen);
        let end = at + chunk(tag, payload).len();
        assert(shorter.subrange(at, shorter.len() as int) =~= after);
        lemma_scan_looks_ahead_only(longer, end, shorter, at, seen);
    }
}

/// An unknown chunk before the first chunk changes nothing.
///
/// Take any buffer and put a chunk whose tag is neither `"fmt "` nor
/// `"data"`, with any payload, right after the 12 bytes of the header. The
/// new buffer decodes to what the old one decodes to: the same contents, or
/// the same error.
pub proof fn lemma_unknown_chunk_is_passed_over(bytes: Seq<u8>, tag: Seq<u8>, payload: Seq<u8>)
    requires
        bytes.len() >= RIFF_HEADER_LEN,
        tag.len() == 4,
        tag != FMT_TAG@,
        tag != DATA_TAG@,
        payload.len() <= u32::MAX,
    ensures
        decode(
            bytes.subrange(0, RIFF_HEADER_LEN as int) + chunk(tag, payload) + bytes.subrange(
                RIFF_HEADER_LEN as int,
                bytes.len() as int,
            ),
        ) == decode(bytes),
{
    let before = bytes.subrange(0, 12);
    let after = bytes.subrange(12, bytes.len() as int);
    let longer = before + chunk(tag, payload) + after;
    let none = Seen { fmt: None, data: None };
    lemma_scan_passes_over_unknown_chunk(before, tag, payload, after, none);
    assert(before + after =~= bytes);
    assert(tag_at(longer, 0) =~= tag_at(bytes, 0));
    assert(tag_at(longer, 8) =~= tag_at(bytes, 8));
}

/// What a scan makes of two chunks with the same tag right after the
/// header.
proof fn lemma_scan_of_twin_chunks(
    riff_size: u32,
    tag: Seq<u8>,
    first: Seq<u8>,
    second: Seq<u8>,
    rest: Seq<u8>,
)
    requires
        tag == FMT_TAG@ || tag == DATA_TAG@,
        tag == FMT_TAG@ ==> first.len() >= FMT_FIELDS_LEN,
        first.len() <= u32::MAX,
        second.len() <= u32::MAX,
    ensures
        ({
            let bytes = riff_header(riff_size) + chunk(tag, first) + chunk(tag, second) + rest;
            &&& bytes.len() >= RIFF_HEADER_LEN
            &&& tag_at(bytes, 0) == RIFF_TAG@
            &&& tag_at(bytes, 8) == WAVE_TAG@
            &&& scan_chunks(bytes, 12, Seen { fmt: None, data: None }) == Err::<Seen, WavError>(
                if tag == FMT_TAG@ {
                    WavError::Invalid("duplicate fmt chunk")
                } else {
                    WavError::Invalid("duplicate data chunk")
                },
            )
        }),
{
    let head = riff_header(riff_size);
    let one = chunk(tag, first);
    let two = chunk(tag, second);
    let bytes = head + one + two + rest;
    let none = Seen { fmt: None, data: None };
    assert(FMT_TAG@[0] != DATA_TAG@[0]);
    lemma_four_parts(head, one, two, rest);
    lemma_header_layout(riff_size, one + two + rest);
    lemma_scan_over_chunk(head, tag, first, two + rest, none);
    let seen = if tag == FMT_TAG@ {
        Seen { fmt: Some(fmt_fields_at(bytes, 20, first.len() as u32)), data: None }
    } else {
        Seen { fmt: None, data: Some(first) }
    };
    lemma_scan_over_chunk(head + one, tag, second, rest, seen);
}

/// A second format chunk is an error.
///
/// A buffer that holds, after its header, a format chunk of 16 bytes or
/// more and then another chunk tagged `"fmt "` is `Invalid`, whatever the
/// two chunks hold and whatever follows them.
pub proof fn lemma_second_format_chunk_is_rejected(
    riff_size: u32,
    first: Seq<u8>,
    second: Seq<u8>,
    rest: Seq<u8>,
)
    requires
        FMT_FIELDS_LEN <= first.len() <= u32::MAX,
        second.len() <= u32::MAX,
    ensures
        decode(riff_header(riff_size) + chunk(FMT_TAG@, first) + chunk(FMT_TAG@, second) + rest)
            == Err::<WavContents, WavError>(WavError::Invalid("duplicate fmt chunk")),
{
    lemma_scan_of_twin_chunks(riff_size, FMT_TAG@, first, second, rest);
}

/// A second sample chunk is an error.
///
/// A buffer that holds, after its header, a sample chunk and then another
/// chunk tagged `"data"`, with no format chunk before them, is `Invalid`.
pub proof fn lemma_second_sample_chunk_is_rejected(
    riff_size: u32,
    first: Seq<u8>,
    second: Seq<u8>,
    rest: Seq<u8>,
)
    requires
        first.len() <= u32::MAX,
        second.len() <= u32::MAX,
    ensures
        decode(riff_header(riff_size) + chunk(DATA_TAG@, first) + chunk(DATA_TAG@, second) + rest)
            == Err::<WavContents, WavError>(WavError::Invalid("duplicate data chunk")),
{
    lemma_scan_of_twin_chunks(riff_size, DATA_TAG@, first, second, rest);
}

/// A scan that finds both chunks finds the same when bytes are added at
/// the end.
proof fn lemma_scan_of_longer_buffer(bytes: Seq<u8>, pos: int, seen: Seen, extra: Seq<u8>)
    requires
        0 <= pos,
        scan_chunks(bytes, pos, seen) matches Ok(s) && s.fmt is Some && s.data is Some,
    ensures
        scan_chunks(bytes + extra, pos, seen) == scan_chunks(bytes, pos, seen),
    decreases bytes.len() - pos,
{
    if !(seen.fmt is Some && seen.data is Some) {
        let longer = bytes + extra;
        let size = u32_at(bytes, pos + 4);
        let body = pos + 8;
        let end = chunk_end(body, size as int);
        let tag = tag_at(bytes, pos);
        lemma_reads_in_prefix(bytes, extra, pos);
        lemma_reads_in_prefix(bytes, extra, pos + 4);
        assert(FMT_TAG@[0] != DATA_TAG@[0]);
        if tag == FMT_TAG@ {
            lemma_reads_in_prefix(bytes, extra, body);
            lemma_reads_in_prefix(bytes, extra, body + 2);
            lemma_reads_in_prefix(bytes, extra, body + 4);
            lemma_reads_in_prefix(bytes, extra, body + 8);
            lemma_reads_in_prefix(bytes, extra, body + 12);
            assert(u16_at(longer, body + 14) == u16_at(bytes, body + 14));
            lemma_scan_of_longer_buffer(
                bytes,
                end,
                Seen { fmt: Some(fmt_fields_at(bytes, body, size)), data: seen.data },
                extra,
            );
        } else if tag == DATA_TAG@ {
            assert(longer.subrange(body, body + size) =~= bytes.subrange(body, body + size));
            lemma_scan_of_longer_buffer(
                bytes,
                end,
                Seen { fmt: seen.fmt, data: Some(bytes.subrange(body, body + size)) },
                extra,
            );
        } else {
            lemma_scan_of_longer_buffer(bytes, end, seen, extra);
        }
    }
}

/// What follows the two chunks is not read.
///
/// A buffer in which the scan finds a format chunk and a sample chunk
/// decodes to the same, contents or `UnsupportedFormat`, whatever bytes are
/// added at its end.
pub proof fn lemma_trailing_bytes_are_not_read(bytes: Seq<u8>, extra: Seq<u8>)
    requires
        decode(bytes) is Ok || decode(bytes) matches Err(WavError::UnsupportedFormat { .. }),
    ensures
        decode(bytes + extra) == decode(bytes),
{
    let none = Seen { fmt: None, data: None };
    lemma_scan_does_not_judge_the_format(bytes, 12, none);
    assert(scan_chunks(bytes, 12, none) is Ok);
    let seen = scan_chunks(bytes, 12, none)->Ok_0;
    assert(decode(bytes) == conclude(seen));
    assert(seen.fmt is Some && seen.data is Some);
    lemma_reads_in_prefix(bytes, extra, 0);
    lemma_reads_in_prefix(bytes, extra, 8);
    lemma_scan_of_longer_buffer(bytes, 12, none, extra);
}

/// The size that the header declares is not checked.
///
/// Two buffers that differ only in the four bytes of the size field at
/// offset 4 decode to the same.
pub proof fn lemma_declared_size_is_not_checked(one: u32, other: u32, chunks: Seq<u8>)
    ensures
        decode(riff_header(one) + chunks) == decode(riff_header(other) + chunks),
{
    let a = riff_header(one) + chunks;
    let b = riff_header(other) + chunks;
    lemma_header_layout(one, chunks);
    lemma_header_layout(other, chunks);
    assert(a.subrange(12, a.len() as int) =~= chunks);
    assert(b.subrange(12, b.len() as int) =~= chunks);
    lemma_scan_looks_ahead_only(a, 12, b, 12, Seen { fmt: None, data: None });
}

} // verus!
