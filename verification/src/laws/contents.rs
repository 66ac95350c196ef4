//! What is decoded is what the buffer holds.

use vstd::prelude::*;
use crate::le::u32_at;
use crate::riff::{
    chunk_end, decode, fmt_fields_at, is_pcm16, scan_chunks, tag_at, FormatFields, Seen, DATA_TAG,
    FMT_FIELDS_LEN, FMT_TAG, RIFF_HEADER_LEN,
};

verus! {

/// Whether `f` is what a format chunk of the buffer holds: somewhere behind
/// the header stand the tag `"fmt "`, a size of 16 or more, and that many
/// bytes within the buffer, of which the first 16 are the fields of `f`.
pub open spec fn holds_format(bytes: Seq<u8>, f: FormatFields) -> bool {
    exists|at: int|
        {
            &&& RIFF_HEADER_LEN <= at
            &&& #[trigger] tag_at(bytes, at) == FMT_TAG@
            &&& u32_at(bytes, at + 4) >= FMT_FIELDS_LEN
            &&& at + 8 + u32_at(bytes, at + 4) <= bytes.len()
            &&& f == fmt_fields_at(bytes, at + 8, u32_at(bytes, at + 4))
        }
}

/// Whether `payload` is what a sample chunk of the buffer holds: somewhere
/// behind the header stand the tag `"data"`, the length of `payload` as the
/// size, and then `payload`, byte for byte.
pub open spec fn holds_payload(bytes: Seq<u8>, payload: Seq<u8>) -> bool {
    exists|at: int|
        {
            &&& RIFF_HEADER_LEN <= at
            &&& #[trigger] tag_at(bytes, at) == DATA_TAG@
            &&& u32_at(bytes, at + 4) == payload.len()
            &&& at + 8 + payload.len() <= bytes.len()
            &&& payload == bytes.subrange(at + 8, at + 8 + payload.len())
        }
}

/// Whatever a scan has noted, or notes from `pos` on, is held by the
/// buffer.
proof fn lemma_scan_notes_what_is_held(bytes: Seq<u8>, pos: int, seen: Seen)
    requires
        RIFF_HEADER_LEN <= pos,
        seen.fmt matches Some(f) ==> holds_format(bytes, f),
        seen.data matches Some(d) ==> holds_payload(bytes, d),
    ensures
        scan_chunks(bytes, pos, seen) matches Ok(s) ==> {
            &&& s.fmt matches Some(f) ==> holds_format(bytes, f)
            &&& s.data matches Some(d) ==> holds_payload(bytes, d)
        },
    decreases bytes.len() - pos,
{
    if !(seen.fmt is Some && seen.data is Some) && bytes.len() - pos >= 8 {
        let size = u32_at(bytes, pos + 4);
        let body = pos + 8;
        let end = chunk_end(body, size as int);
        let tag = tag_at(bytes, pos);
        if end <= bytes.len() {
            if tag == FMT_TAG@ {
                if seen.fmt is None && size >= FMT_FIELDS_LEN {
                    let f = fmt_fields_at(bytes, body, size);
                    assert(holds_format(bytes, f));
                    lemma_scan_notes_what_is_held(bytes, end, Seen { fmt: Some(f), data: seen.data });
                }
            } else if tag == DATA_TAG@ {
                if seen.data is None {
                    let d = bytes.subrange(body, body + size);
                    assert(holds_payload(bytes, d));
                    lemma_scan_notes_what_is_held(bytes, end, Seen { fmt: seen.fmt, data: Some(d) });
                }
            } else {
                lemma_scan_notes_what_is_held(bytes, end, seen);
            }
        }
    }
}

/// What is decoded is what the buffer holds.
///
/// Whenever a buffer decodes, the format that comes out is 16-bit linear
/// PCM and is read from a format chunk of the buffer that declares 16 bytes
/// or more; and the payload that comes out is the payload of a sample chunk
/// of the buffer, exactly as long as that chunk declares.
pub proof fn lemma_decoded_is_held(bytes: Seq<u8>)
    requires
        decode(bytes) is Ok,
    ensures
        is_pcm16(decode(bytes)->Ok_0.format),
        decode(bytes)->Ok_0.format.block_size >= FMT_FIELDS_LEN,
        decode(bytes)->Ok_0.data.len() <= u32::MAX,
        holds_format(bytes, decode(bytes)->Ok_0.format),
        holds_payload(bytes, decode(bytes)->Ok_0.data),
{
    let none = Seen { fmt: None, data: None };
    lemma_scan_notes_what_is_held(bytes, 12, none);
    let seen = scan_chunks(bytes, 12, none)->Ok_0;
    assert(seen.fmt is Some && seen.data is Some);
    let at = choose|at: int|
        {
            &&& RIFF_HEADER_LEN <= at
            &&& #[trigger] tag_at(bytes, at) == DATA_TAG@
            &&& u32_at(bytes, at + 4) == seen.data->Some_0.len()
            &&& at + 8 + seen.data->Some_0.len() <= bytes.len()
            &&& seen.data->Some_0 == bytes.subrange(at + 8, at + 8 + seen.data->Some_0.len())
        };
    assert(u32_at(bytes, at + 4) == seen.data->Some_0.len());
}

} // verus!
