//! Buffers that end too early.

use vstd::prelude::*;
use crate::error::WavError;
use crate::laws::layout::{lemma_fields_before_cut, lemma_reads_before_cut};
use crate::le::u32_at;
use crate::riff::{
    chunk_end, decode, fmt_fields_at, scan_chunks, tag_at, Seen, WavContents, DATA_TAG, FMT_TAG,
    RIFF_HEADER_LEN,
};

verus! {

/// Where the payload of the first sample chunk from `pos` on ends, by the
/// size that the chunk declares; the end of the buffer where the chunks from
/// `pos` on hold no sample chunk.
pub open spec fn sample_payload_end(bytes: Seq<u8>, pos: int) -> int
    decreases bytes.len() - pos,
{
    if pos < 0 || bytes.len() - pos < 8 {
        bytes.len() as int
    } else {
        let size = u32_at(bytes, pos + 4) as int;
        if tag_at(bytes, pos) == DATA_TAG@ {
            pos + 8 + size
        } else if chunk_end(pos + 8, size) > bytes.len() {
            bytes.len() as int
        } else {
            sample_payload_end(bytes, chunk_end(pos + 8, size))
        }
    }
}

/// Whether `cut` lies where one of the chunks from `pos` on has its tag and
/// size, short of their end: a buffer that is cut off there ends with fewer
/// than eight bytes of a chunk, which a scan takes for the end of the
/// chunks.
pub open spec fn cut_splits_chunk_header(bytes: Seq<u8>, pos: int, cut: int) -> bool
    decreases bytes.len() - pos,
{
    if pos < 0 || bytes.len() - pos < 8 || cut < pos {
        false
    } else if cut - pos < 8 {
        true
    } else {
        let end = chunk_end(pos + 8, u32_at(bytes, pos + 4) as int);
        end <= cut && end <= bytes.len() && cut_splits_chunk_header(bytes, end, cut)
    }
}

/// A scan that finds a sample chunk finds its payload within the buffer.
proof fn lemma_sample_payload_lies_within(bytes: Seq<u8>, pos: int, seen: Seen)
    requires
        0 <= pos,
        seen.data is None,
        scan_chunks(bytes, pos, seen) matches Ok(s) && s.data is Some,
    ensures
        pos + 8 <= sample_payload_end(bytes, pos) <= bytes.len(),
    decreases bytes.len() - pos,
{
    let size = u32_at(bytes, pos + 4);
    let end = chunk_end(pos + 8, size as int);
    let tag = tag_at(bytes, pos);
    if tag == FMT_TAG@ {
        assert(FMT_TAG@[0] != DATA_TAG@[0]);
        lemma_sample_payload_lies_within(
            bytes,
            end,
            Seen { fmt: Some(fmt_fields_at(bytes, pos + 8, size)), data: seen.data },
        );
    } else if tag != DATA_TAG@ {
        lemma_sample_payload_lies_within(bytes, end, seen);
    }
}

/// What a scan makes of a buffer that is cut off before the payload of its
/// sample chunk ends: it runs out of bytes within a chunk, unless the cut
/// leaves fewer than eight bytes of a chunk, where it ends without a sample
/// chunk.
proof fn lemma_scan_of_cut_buffer(bytes: Seq<u8>, pos: int, seen: Seen, cut: int)
    requires
        0 <= pos <= cut,
        seen.data is None,
        scan_chunks(bytes, pos, seen) matches Ok(s) && s.data is Some,
        cut < sample_payload_end(bytes, pos),
    ensures
        cut < bytes.len(),
        !cut_splits_chunk_header(bytes, pos, cut) ==> scan_chunks(bytes.take(cut), pos, seen)
            == Err::<Seen, WavError>(WavError::Truncated),
        cut_splits_chunk_header(bytes, pos, cut) ==> (scan_chunks(bytes.take(cut), pos, seen)
            matches Ok(s) && s.data is None),
    decreases bytes.len() - pos,
{
    lemma_sample_payload_lies_within(bytes, pos, seen);
    let cut_bytes = bytes.take(cut);
    let size = u32_at(bytes, pos + 4);
    let body = pos + 8;
    let end = chunk_end(body, size as int);
    let tag = tag_at(bytes, pos);
    assert(cut_bytes.len() == cut);
    if cut - pos >= 8 {
        lemma_reads_before_cut(bytes, cut, pos);
        lemma_reads_before_cut(bytes, cut, pos + 4);
        assert(FMT_TAG@[0] != DATA_TAG@[0]);
        if tag != DATA_TAG@ && end <= cut {
            if tag == FMT_TAG@ {
                lemma_fields_before_cut(bytes, cut, body, size);
                lemma_scan_of_cut_buffer(
                    bytes,
                    end,
                    Seen { fmt: Some(fmt_fields_at(bytes, body, size)), data: seen.data },
                    cut,
                );
            } else {
                lemma_scan_of_cut_buffer(bytes, end, seen, cut);
            }
        }
    }
}

/// A container that is cut short is reported as truncated.
///
/// Take a buffer that decodes, and cut it off anywhere before the end that
/// its sample chunk declares for its payload. Decoding what is left gives
/// `Truncated`, provided that the cut does not fall within the tag and size
/// of a chunk or right before them; for those cuts see
/// [`lemma_cut_in_chunk_header_loses_a_chunk`].
pub proof fn lemma_cut_buffer_is_truncated(bytes: Seq<u8>, cut: int)
    requires
        decode(bytes) is Ok,
        0 <= cut < sample_payload_end(bytes, RIFF_HEADER_LEN as int),
        !cut_splits_chunk_header(bytes, RIFF_HEADER_LEN as int, cut),
    ensures
        decode(bytes.take(cut)) == Err::<WavContents, WavError>(WavError::Truncated),
{
    let none = Seen { fmt: None, data: None };
    lemma_sample_payload_lies_within(bytes, 12, none);
    if cut >= 4 {
        lemma_reads_before_cut(bytes, cut, 0);
    }
    if cut >= 12 {
        lemma_reads_before_cut(bytes, cut, 8);
        lemma_scan_of_cut_buffer(bytes, 12, none, cut);
    }
}

/// A cut within the tag and size of a chunk loses the chunk.
///
/// Take a buffer that decodes, and cut it off before the end of its sample
/// payload so that fewer than eight bytes are left of some chunk. The scan
/// takes what is left for a container that ends before that chunk, which
/// therefore has no sample chunk, and perhaps no format chunk either:
/// decoding gives `MissingChunk`.
pub proof fn lemma_cut_in_chunk_header_loses_a_chunk(bytes: Seq<u8>, cut: int)
    requires
        decode(bytes) is Ok,
        0 <= cut < sample_payload_end(bytes, RIFF_HEADER_LEN as int),
        cut_splits_chunk_header(bytes, RIFF_HEADER_LEN as int, cut),
    ensures
        decode(bytes.take(cut)) matches Err(WavError::MissingChunk(_)),
{
    let none = Seen { fmt: None, data: None };
    lemma_sample_payload_lies_within(bytes, 12, none);
    lemma_reads_before_cut(bytes, cut, 0);
    lemma_reads_before_cut(bytes, cut, 8);
    lemma_scan_of_cut_buffer(bytes, 12, none, cut);
}

} // verus!
