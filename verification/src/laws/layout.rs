//! How fields and chunks lie in buffers that are put together from parts,
//! cut short or made longer. These are the steps that the laws are proved
//! by.

use vstd::prelude::*;
use crate::error::WavError;
use crate::le::{lemma_u32_round_trip, u16_at, u32_at, u32_bytes};
use crate::riff::{
    chunk, chunk_end, fmt_fields_at, riff_header, scan_chunks, tag_at, Seen, DATA_TAG,
    FMT_FIELDS_LEN, FMT_TAG, RIFF_HEADER_LEN, RIFF_TAG, WAVE_TAG,
};

verus! {

/// Reading a field that lies within the first part of a concatenation reads
/// it from that part.
pub(crate) proof fn lemma_reads_in_prefix(head: Seq<u8>, tail: Seq<u8>, at: int)
    requires
        0 <= at,
        at + 4 <= head.len(),
    ensures
        tag_at(head + tail, at) == tag_at(head, at),
        u16_at(head + tail, at) == u16_at(head, at),
        u32_at(head + tail, at) == u32_at(head, at),
{
    assert(tag_at(head + tail, at) =~= tag_at(head, at));
}

/// A field that lies before the cut reads the same in the cut buffer.
pub(crate) proof fn lemma_reads_before_cut(bytes: Seq<u8>, cut: int, at: int)
    requires
        0 <= at,
        at + 4 <= cut <= bytes.len(),
    ensures
        tag_at(bytes.take(cut), at) == tag_at(bytes, at),
        u16_at(bytes.take(cut), at) == u16_at(bytes, at),
        u32_at(bytes.take(cut), at) == u32_at(bytes, at),
{
    assert(tag_at(bytes.take(cut), at) =~= tag_at(bytes, at));
}

/// A format chunk that lies before the cut reads the same in the cut
/// buffer.
pub(crate) proof fn lemma_fields_before_cut(bytes: Seq<u8>, cut: int, body: int, size: u32)
    requires
        0 <= body,
        body + 16 <= cut <= bytes.len(),
    ensures
        fmt_fields_at(bytes.take(cut), body, size) == fmt_fields_at(bytes, body, size),
{
    lemma_reads_before_cut(bytes, cut, body);
    lemma_reads_before_cut(bytes, cut, body + 2);
    lemma_reads_before_cut(bytes, cut, body + 4);
    lemma_reads_before_cut(bytes, cut, body + 8);
    lemma_reads_before_cut(bytes, cut, body + 12);
    assert(u16_at(bytes.take(cut), body + 14) == u16_at(bytes, body + 14));
}

/// Two buffers that agree from two positions on hold the same byte at the
/// same distance from them.
pub(crate) proof fn lemma_same_byte_ahead(a: Seq<u8>, pa: int, b: Seq<u8>, pb: int, i: int)
    requires
        0 <= pa <= a.len(),
        0 <= pb <= b.len(),
        a.subrange(pa, a.len() as int) == b.subrange(pb, b.len() as int),
        0 <= i < a.len() - pa,
    ensures
        a.len() - pa == b.len() - pb,
        a[pa + i] == b[pb + i],
{
    let rest = a.subrange(pa, a.len() as int);
    assert(rest.len() == a.len() - pa);
    assert(rest.len() == b.len() - pb);
    assert(a[pa + i] == rest[i]);
    assert(b[pb + i] == b.subrange(pb, b.len() as int)[i]);
}

/// Two buffers that agree from two positions on hold the same 16-bit and
/// 32-bit integers and the same tags at the same distance from them.
pub(crate) proof fn lemma_same_fields_ahead(a: Seq<u8>, pa: int, b: Seq<u8>, pb: int, i: int)
    requires
        0 <= pa <= a.len(),
        0 <= pb <= b.len(),
        a.subrange(pa, a.len() as int) == b.subrange(pb, b.len() as int),
        0 <= i,
        i + 4 <= a.len() - pa,
    ensures
        tag_at(a, pa + i) == tag_at(b, pb + i),
        u16_at(a, pa + i) == u16_at(b, pb + i),
        u32_at(a, pa + i) == u32_at(b, pb + i),
{
    lemma_same_byte_ahead(a, pa, b, pb, i);
    lemma_same_byte_ahead(a, pa, b, pb, i + 1);
    lemma_same_byte_ahead(a, pa, b, pb, i + 2);
    lemma_same_byte_ahead(a, pa, b, pb, i + 3);
    assert(tag_at(a, pa + i) =~= tag_at(b, pb + i));
}

/// A scan sees only what lies from its position on: two buffers that agree
/// from two positions on are scanned alike from there.
pub(crate) proof fn lemma_scan_looks_ahead_only(a: Seq<u8>, pa: int, b: Seq<u8>, pb: int, seen: Seen)
    requires
        0 <= pa <= a.len(),
        0 <= pb <= b.len(),
        a.subrange(pa, a.len() as int) == b.subrange(pb, b.len() as int),
    ensures
        scan_chunks(a, pa, seen) == scan_chunks(b, pb, seen),
    decreases a.len() - pa,
{
    let rest = a.subrange(pa, a.len() as int);
    assert(rest.len() == a.len() - pa);
    assert(rest.len() == b.subrange(pb, b.len() as int).len());
    if !(seen.fmt is Some && seen.data is Some) && rest.len() >= 8 {
        lemma_same_fields_ahead(a, pa, b, pb, 0);
        lemma_same_fields_ahead(a, pa, b, pb, 4);
        let size = u32_at(a, pa + 4);
        let end_a = chunk_end(pa + 8, size as int);
        let end_b = chunk_end(pb + 8, size as int);
        if end_a <= a.len() {
            assert(a.subrange(end_a, a.len() as int) =~= rest.subrange(
                end_a - pa,
                rest.len() as int,
            ));
            assert(b.subrange(end_b, b.len() as int) =~= rest.subrange(
                end_b - pb,
                rest.len() as int,
            ));
            assert(a.subrange(pa + 8, pa + 8 + size) =~= rest.subrange(8, 8 + size));
            assert(b.subrange(pb + 8, pb + 8 + size) =~= rest.subrange(8, 8 + size));
            if size >= 16 {
                lemma_same_fields_ahead(a, pa, b, pb, 8);
                lemma_same_fields_ahead(a, pa, b, pb, 10);
                lemma_same_fields_ahead(a, pa, b, pb, 12);
                lemma_same_fields_ahead(a, pa, b, pb, 16);
                lemma_same_fields_ahead(a, pa, b, pb, 20);
                assert(u16_at(a, pa + 22) == u16_at(b, pb + 22)) by {
                    lemma_same_byte_ahead(a, pa, b, pb, 22);
                    lemma_same_byte_ahead(a, pa, b, pb, 23);
                }
                assert(fmt_fields_at(a, pa + 8, size) == fmt_fields_at(b, pb + 8, size));
            }
            let tag = tag_at(a, pa);
            if tag == FMT_TAG@ {
                if seen.fmt is None && size >= 16 {
                    lemma_scan_looks_ahead_only(
                        a,
                        end_a,
                        b,
                        end_b,
                        Seen { fmt: Some(fmt_fields_at(a, pa + 8, size)), data: seen.data },
                    );
                }
            } else if tag == DATA_TAG@ {
                if seen.data is None {
                    lemma_scan_looks_ahead_only(
                        a,
                        end_a,
                        b,
                        end_b,
                        Seen { fmt: seen.fmt, data: Some(a.subrange(pa + 8, pa + 8 + size)) },
                    );
                }
            } else {
                lemma_scan_looks_ahead_only(a, end_a, b, end_b, seen);
            }
        }
    }
}

/// Four parts laid end to end are the same however they are grouped.
pub(crate) proof fn lemma_four_parts(a: Seq<u8>, b: Seq<u8>, c: Seq<u8>, d: Seq<u8>)
    ensures
        a + b + c + d == a + (b + c + d),
        a + b + c + d == a + b + (c + d),
{
    assert(a + b + c + d =~= a + (b + c + d));
    assert(a + b + c + d =~= a + b + (c + d));
}

/// How a buffer starts that starts with the 12-byte header.
pub(crate) proof fn lemma_header_layout(riff_size: u32, after: Seq<u8>)
    ensures
        riff_header(riff_size).len() == RIFF_HEADER_LEN,
        tag_at(riff_header(riff_size) + after, 0) == RIFF_TAG@,
        tag_at(riff_header(riff_size) + after, 8) == WAVE_TAG@,
        (riff_header(riff_size) + after).len() == RIFF_HEADER_LEN + after.len(),
{
    let bytes = riff_header(riff_size) + after;
    assert(riff_header(riff_size).len() == 12);
    assert(tag_at(bytes, 0) =~= RIFF_TAG@);
    assert(tag_at(bytes, 8) =~= WAVE_TAG@);
}

/// How a chunk lies in a buffer that has it at `at`.
pub(crate) proof fn lemma_chunk_layout(before: Seq<u8>, tag: Seq<u8>, payload: Seq<u8>, after: Seq<u8>)
    requires
        tag.len() == 4,
        payload.len() <= u32::MAX,
    ensures
        ({
            let bytes = before + chunk(tag, payload) + after;
            let at = before.len() as int;
            &&& chunk(tag, payload).len() == 8 + payload.len() + payload.len() % 2
            &&& tag_at(bytes, at) == tag
            &&& u32_at(bytes, at + 4) == payload.len()
            &&& bytes.subrange(at + 8, at + 8 + payload.len()) == payload
            &&& chunk_end(at + 8, payload.len() as int) == at + chunk(tag, payload).len()
            &&& bytes.subrange(at + chunk(tag, payload).len(), bytes.len() as int) == after
            &&& bytes.subrange(0, at) == before
        }),
{
    let bytes = before + chunk(tag, payload) + after;
    let at = before.len() as int;
    let n = payload.len();
    let size = u32_bytes(n as u32);
    lemma_u32_round_trip(n as u32);
    assert(chunk(tag, payload).len() == 8 + n + n % 2);
    assert(tag_at(bytes, at) =~= tag);
    assert(bytes.subrange(at + 4, at + 8) =~= size);
    assert(bytes[at + 4] == size[0]);
    assert(bytes[at + 5] == size[1]);
    assert(bytes[at + 6] == size[2]);
    assert(bytes[at + 7] == size[3]);
    assert(bytes.subrange(at + 8, at + 8 + n) =~= payload);
    assert(bytes.subrange(at + chunk(tag, payload).len(), bytes.len() as int) =~= after);
    assert(bytes.subrange(0, at) =~= before);
}

/// What a scan does with a chunk that lies whole in the buffer: it stops
/// with an error at a chunk that may not occur there, and otherwise goes on
/// behind the chunk, having noted what a format or sample chunk holds.
pub(crate) proof fn lemma_scan_over_chunk(
    before: Seq<u8>,
    tag: Seq<u8>,
    payload: Seq<u8>,
    after: Seq<u8>,
    seen: Seen,
)
    requires
        tag.len() == 4,
        payload.len() <= u32::MAX,
        !(seen.fmt is Some && seen.data is Some),
    ensures
        ({
            let bytes = before + chunk(tag, payload) + after;
            let at = before.len() as int;
            let end = at + chunk(tag, payload).len();
            let fields = fmt_fields_at(bytes, at + 8, payload.len() as u32);
            scan_chunks(bytes, at, seen) == if tag == FMT_TAG@ && seen.fmt is Some {
                Err::<Seen, WavError>(WavError::Invalid("duplicate fmt chunk"))
            } else if tag == FMT_TAG@ && payload.len() < FMT_FIELDS_LEN {
                Err::<Seen, WavError>(WavError::BadHeader("fmt chunk too small"))
            } else if tag == DATA_TAG@ && seen.data is Some {
                Err::<Seen, WavError>(WavError::Invalid("duplicate data chunk"))
            } else if tag == FMT_TAG@ {
                scan_chunks(bytes, end, Seen { fmt: Some(fields), data: seen.data })
            } else if tag == DATA_TAG@ {
                scan_chunks(bytes, end, Seen { fmt: seen.fmt, data: Some(payload) })
            } else {
                scan_chunks(bytes, end, seen)
            }
        }),
{
    let bytes = before + chunk(tag, payload) + after;
    let at = before.len() as int;
    lemma_chunk_layout(before, tag, payload, after);
    assert(bytes.len() == at + chunk(tag, payload).len() + after.len());
    assert(bytes.len() - at >= 8);
    assert(u32_at(bytes, at + 4) == payload.len() as u32);
    assert(chunk_end(at + 8, u32_at(bytes, at + 4) as int) <= bytes.len());
}

/// A scan fails only for the structure of the chunks, never for the format
/// that a chunk describes.
pub(crate) proof fn lemma_scan_does_not_judge_the_format(bytes: Seq<u8>, pos: int, seen: Seen)
    ensures
        scan_chunks(bytes, pos, seen) matches Err(e) ==> !(e is UnsupportedFormat),
    decreases bytes.len() - pos,
{
    if !(seen.fmt is Some && seen.data is Some) && pos >= 0 && bytes.len() - pos >= 8 {
        let size = u32_at(bytes, pos + 4);
        let body = pos + 8;
        let end = chunk_end(body, size as int);
        let tag = tag_at(bytes, pos);
        if end <= bytes.len() {
            lemma_scan_does_not_judge_the_format(
                bytes,
                end,
                Seen { fmt: Some(fmt_fields_at(bytes, body, size)), data: seen.data },
            );
            lemma_scan_does_not_judge_the_format(
                bytes,
                end,
                Seen { fmt: seen.fmt, data: Some(bytes.subrange(body, body + size)) },
            );
            lemma_scan_does_not_judge_the_format(bytes, end, seen);
        }
    }
}

} // verus!
