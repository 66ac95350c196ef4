//! Reading and writing RIFF/WAVE containers of 16-bit linear PCM.

use vstd::prelude::*;
use vstd::slice::{slice_subrange, slice_to_vec};
use crate::error::WavError;
use crate::le::{i16_bytes, samples_bytes, u16_at, u16_bytes, u32_at, u32_bytes};
use crate::riff::{
    chunk_end, container, decode, encode, fmt_fields_at, is_pcm16, pcm16_fields, preamble,
    scan_chunks, tag_at, FormatFields, Seen, WavContents, BITS_PER_SAMPLE, CHUNK_HEADER_LEN,
    DATA_TAG, FMT_FIELDS_LEN, FMT_TAG, PCM, PREAMBLE_LEN, RIFF_HEADER_LEN, RIFF_TAG, WAVE_TAG,
};

verus! {

/// The format chunk of a decoded container.
#[derive(Debug)]
pub struct DataFormat {
    format_block: [u8; 4],
    block_size: u32,
    audio_format: u16,
    num_channels: u16,
    sample_rate: u32,
    bytes_per_sec: u32,
    block_align: u16,
    bits_per_sample: u16,
}

/// The sample chunk of a decoded container: the raw little-endian payload
/// and the size that the chunk declared for it.
#[derive(Debug)]
pub struct SampledData {
    data_block_id: [u8; 4],
    data_size: u32,
    data: Vec<u8>,
}

/// A decoded container: exactly one format chunk and one sample chunk.
#[derive(Debug)]
pub struct Wav {
    format_chunk: DataFormat,
    data_chunk: SampledData,
}

impl View for DataFormat {
    type V = FormatFields;

    closed spec fn view(&self) -> FormatFields {
        FormatFields {
            block_size: self.block_size,
            audio_format: self.audio_format,
            num_channels: self.num_channels,
            sample_rate: self.sample_rate,
            bytes_per_sec: self.bytes_per_sec,
            block_align: self.block_align,
            bits_per_sample: self.bits_per_sample,
        }
    }
}

impl View for SampledData {
    type V = Seq<u8>;

    closed spec fn view(&self) -> Seq<u8> {
        self.data@
    }
}

impl View for Wav {
    type V = WavContents;

    closed spec fn view(&self) -> WavContents {
        WavContents { format: self.format_chunk@, data: self.data_chunk@ }
    }
}

impl Clone for DataFormat {
    fn clone(&self) -> (r: Self)
        ensures
            r@ == self@,
    {
        proof {
            use_type_invariant(self);
        }
        DataFormat {
            format_block: self.format_block,
            block_size: self.block_size,
            audio_format: self.audio_format,
            num_channels: self.num_channels,
            sample_rate: self.sample_rate,
            bytes_per_sec: self.bytes_per_sec,
            block_align: self.block_align,
            bits_per_sample: self.bits_per_sample,
        }
    }
}

impl Clone for SampledData {
    fn clone(&self) -> (r: Self)
        ensures
            r@ == self@,
    {
        proof {
            use_type_invariant(self);
        }
        let data: Vec<u8> = self.data.clone();
        assert(data@ =~= self.data@);
        SampledData { data_block_id: self.data_block_id, data_size: self.data_size, data }
    }
}

impl Clone for Wav {
    fn clone(&self) -> (r: Self)
        ensures
            r@ == self@,
    {
        proof {
            use_type_invariant(self);
        }
        Wav { format_chunk: self.format_chunk.clone(), data_chunk: self.data_chunk.clone() }
    }
}

impl DataFormat {
    /// A format chunk carries its tag and declares at least its fixed
    /// fields.
    #[verifier::type_invariant]
    spec fn well_formed(&self) -> bool {
        &&& self.format_block@ == FMT_TAG@
        &&& self.block_size >= FMT_FIELDS_LEN
    }

    /// The size that the chunk declares: 16 for plain PCM, more where
    /// extension fields follow.
    pub fn block_size(&self) -> (n: u32)
        ensures
            n == self@.block_size,
            n >= FMT_FIELDS_LEN,
    {
        proof {
            use_type_invariant(self);
        }
        self.block_size
    }

    /// The audio format code; 1 is linear PCM.
    pub fn audio_format(&self) -> (n: u16)
        ensures
            n == self@.audio_format,
    {
        self.audio_format
    }

    /// The number of interleaved channels.
    pub fn num_channels(&self) -> (n: u16)
        ensures
            n == self@.num_channels,
    {
        self.num_channels
    }

    /// Frames per second.
    pub fn sample_rate(&self) -> (n: u32)
        ensures
            n == self@.sample_rate,
    {
        self.sample_rate
    }

    /// Bytes per second, as the chunk states it.
    pub fn bytes_per_sec(&self) -> (n: u32)
        ensures
            n == self@.bytes_per_sec,
    {
        self.bytes_per_sec
    }

    /// Bytes per frame, as the chunk states it.
    pub fn block_align(&self) -> (n: u16)
        ensures
            n == self@.block_align,
    {
        self.block_align
    }

    /// Bits per sample of one channel.
    pub fn bits_per_sample(&self) -> (n: u16)
        ensures
            n == self@.bits_per_sample,
    {
        self.bits_per_sample
    }
}

impl SampledData {
    /// A sample chunk carries its tag, and the size it declares is the
    /// number of bytes it holds.
    #[verifier::type_invariant]
    spec fn well_formed(&self) -> bool {
        &&& self.data_block_id@ == DATA_TAG@
        &&& self.data_size == self.data@.len()
    }

    /// The number of payload bytes.
    pub fn len_bytes(&self) -> (n: usize)
        ensures
            n == self@.len(),
    {
        self.data.len()
    }

    /// The size that the chunk declares, which is the number of payload
    /// bytes.
    pub fn data_size(&self) -> (n: u32)
        ensures
            n == self@.len(),
    {
        proof {
            use_type_invariant(self);
        }
        self.data_size
    }
}

impl Wav {
    /// A decoded container holds 16-bit linear PCM.
    #[verifier::type_invariant]
    spec fn well_formed(&self) -> bool {
        is_pcm16(self.format_chunk@)
    }

    /// The format chunk.
    pub fn format(&self) -> (f: &DataFormat)
        ensures
            f@ == self@.format,
            is_pcm16(f@),
    {
        proof {
            use_type_invariant(self);
        }
        &self.format_chunk
    }

    /// The sample chunk.
    pub fn data_chunk(&self) -> (d: &SampledData)
        ensures
            d@ == self@.data,
    {
        &self.data_chunk
    }

    /// The raw payload: little-endian samples, interleaved by channel.
    pub fn data_bytes(&self) -> (bytes: &[u8])
        ensures
            bytes@ == self@.data,
    {
        self.data_chunk.data.as_slice()
    }
}

/// Reads a little-endian 16-bit integer from a slice of exactly two bytes.
fn u16_le(x: &[u8]) -> (r: Result<u16, WavError>)
    ensures
        x@.len() == 2 ==> r == Ok::<u16, WavError>(u16_at(x@, 0)),
        x@.len() != 2 ==> r == Err::<u16, WavError>(WavError::Truncated),
{
    if x.len() != 2 {
        return Err(WavError::Truncated);
    }
    Ok(x[0] as u16 + 0x100 * (x[1] as u16))
}

/// Reads a little-endian 32-bit integer from a slice of exactly four bytes.
fn u32_le(x: &[u8]) -> (r: Result<u32, WavError>)
    ensures
        x@.len() == 4 ==> r == Ok::<u32, WavError>(u32_at(x@, 0)),
        x@.len() != 4 ==> r == Err::<u32, WavError>(WavError::Truncated),
{
    if x.len() != 4 {
        return Err(WavError::Truncated);
    }
    Ok(
        x[0] as u32 + 0x100 * (x[1] as u32) + 0x1_0000 * (x[2] as u32) + 0x100_0000 * (
        x[3] as u32),
    )
}

/// Takes the next `len` bytes at the cursor and moves the cursor past them.
/// When fewer than `len` bytes are left the cursor stays where it is.
fn read_bytes<'a>(buf: &'a [u8], len: usize, offset: &mut usize) -> (r: Result<&'a [u8], WavError>)
    ensures
        match r {
            Ok(s) => {
                &&& *old(offset) + len <= buf@.len()
                &&& s@ == buf@.subrange(*old(offset) as int, *old(offset) + len)
                &&& *final(offset) == *old(offset) + len
            },
            Err(e) => {
                &&& *old(offset) + len > buf@.len()
                &&& e == WavError::Truncated
                &&& *final(offset) == *old(offset)
            },
        },
{
    let total: usize = buf.len();
    let start: usize = *offset;
    let end: usize = match start.checked_add(len) {
        Some(end) => end,
        None => {
            return Err(WavError::Truncated);
        },
    };
    if end > total {
        return Err(WavError::Truncated);
    }
    *offset = end;
    Ok(slice_subrange(buf, start, end))
}

/// Takes the four-byte tag at the cursor.
fn read_fourcc(buf: &[u8], fp: &mut usize) -> (r: Result<[u8; 4], WavError>)
    ensures
        match r {
            Ok(tag) => {
                &&& *old(fp) + 4 <= buf@.len()
                &&& tag@ == tag_at(buf@, *old(fp) as int)
                &&& *final(fp) == *old(fp) + 4
            },
            Err(e) => {
                &&& *old(fp) + 4 > buf@.len()
                &&& e == WavError::Truncated
                &&& *final(fp) == *old(fp)
            },
        },
{
    let s: &[u8] = read_bytes(buf, 4, fp)?;
    let tag: [u8; 4] = [s[0], s[1], s[2], s[3]];
    assert(tag@ =~= s@);
    Ok(tag)
}

/// Moves the cursor `n` bytes on.
fn skip_bytes(buf: &[u8], n: usize, fp: &mut usize) -> (r: Result<(), WavError>)
    ensures
        match r {
            Ok(()) => *old(fp) + n <= buf@.len() && *final(fp) == *old(fp) + n,
            Err(e) => {
                &&& *old(fp) + n > buf@.len()
                &&& e == WavError::Truncated
                &&& *final(fp) == *old(fp)
            },
        },
{
    let _ = read_bytes(buf, n, fp)?;
    Ok(())
}

/// Whether two tags are the same four bytes.
fn same_tag(a: &[u8; 4], b: &[u8; 4]) -> (same: bool)
    ensures
        same == (a@ == b@),
{
    let same: bool = a[0] == b[0] && a[1] == b[1] && a[2] == b[2] && a[3] == b[3];
    assert(same ==> a@ =~= b@);
    same
}

/// Reads the payload of a format chunk that declares `block_size` bytes:
/// the six fixed fields, then whatever the chunk declares beyond them, which
/// is passed over.
fn parse_fmt_payload(buf: &[u8], fp: &mut usize, block_size: u32) -> (r: Result<
    DataFormat,
    WavError,
>)
    ensures
        match r {
            Ok(f) => {
                &&& block_size >= FMT_FIELDS_LEN
                &&& *old(fp) + block_size <= buf@.len()
                &&& f@ == fmt_fields_at(buf@, *old(fp) as int, block_size)
                &&& *final(fp) == *old(fp) + block_size
            },
            Err(e) => {
                &&& *old(fp) <= *final(fp) <= *old(fp) + FMT_FIELDS_LEN
                &&& if block_size < FMT_FIELDS_LEN {
                    e == WavError::BadHeader("fmt chunk too small")
                } else {
                    e == WavError::Truncated && *old(fp) + block_size > buf@.len()
                }
            },
        },
{
    if block_size < FMT_FIELDS_LEN {
        return Err(WavError::BadHeader("fmt chunk too small"));
    }
    let audio_format: u16 = u16_le(read_bytes(buf, 2, fp)?)?;
    let num_channels: u16 = u16_le(read_bytes(buf, 2, fp)?)?;
    let sample_rate: u32 = u32_le(read_bytes(buf, 4, fp)?)?;
    let bytes_per_sec: u32 = u32_le(read_bytes(buf, 4, fp)?)?;
    let block_align: u16 = u16_le(read_bytes(buf, 2, fp)?)?;
    let bits_per_sample: u16 = u16_le(read_bytes(buf, 2, fp)?)?;

    if block_size > FMT_FIELDS_LEN {
        let extra_u32: u32 = block_size - FMT_FIELDS_LEN;
        let extra: usize = match usize::try_from(extra_u32) {
            Ok(n) => n,
            // Not reached where `usize` has 32 bits or more.
            Err(_) => {
                return Err(WavError::Invalid("fmt chunk too large"));
            },
        };
        skip_bytes(buf, extra, fp)?;
    }
    Ok(
        DataFormat {
            format_block: FMT_TAG,
            block_size,
            audio_format,
            num_channels,
            sample_rate,
            bytes_per_sec,
            block_align,
            bits_per_sample,
        },
    )
}

/// Reads the payload of a sample chunk that declares `data_size` bytes.
fn parse_data_payload(buf: &[u8], fp: &mut usize, data_size: u32) -> (r: Result<
    SampledData,
    WavError,
>)
    ensures
        match r {
            Ok(d) => {
                &&& *old(fp) + data_size <= buf@.len()
                &&& d@ == buf@.subrange(*old(fp) as int, *old(fp) + data_size)
                &&& *final(fp) == *old(fp) + data_size
            },
            Err(e) => {
                &&& *old(fp) + data_size > buf@.len()
                &&& e == WavError::Truncated
                &&& *final(fp) == *old(fp)
            },
        },
{
    let n: usize = match usize::try_from(data_size) {
        Ok(n) => n,
        // Not reached where `usize` has 32 bits or more.
        Err(_) => {
            return Err(WavError::Invalid("data chunk too large"));
        },
    };
    let data: Vec<u8> = slice_to_vec(read_bytes(buf, n, fp)?);
    Ok(SampledData { data_block_id: DATA_TAG, data_size, data })
}

/// Brings the cursor from wherever the reader of a payload left it to the
/// start of the next chunk: past what is left of the `chunk_size` declared
/// bytes, and past the pad byte that follows an odd size. A reader that went
/// beyond the declared size is an error.
fn finish_chunk(buf: &[u8], payload_start: usize, chunk_size: u32, fp: &mut usize) -> (r: Result<
    (),
    WavError,
>)
    requires
        payload_start <= *old(fp) <= buf@.len(),
    ensures
        match r {
            Ok(()) => {
                &&& *old(fp) <= payload_start + chunk_size
                &&& *final(fp) == chunk_end(payload_start as int, chunk_size as int)
                &&& *final(fp) <= buf@.len()
            },
            Err(e) => if *old(fp) > payload_start + chunk_size {
                e == WavError::Invalid("overread chunk payload")
            } else {
                &&& e == WavError::Truncated
                &&& chunk_end(payload_start as int, chunk_size as int) > buf@.len()
            },
        },
{
    let size_usize: usize = match usize::try_from(chunk_size) {
        Ok(n) => n,
        // Not reached where `usize` has 32 bits or more.
        Err(_) => {
            return Err(WavError::Invalid("chunk too large"));
        },
    };
    let consumed: usize = *fp - payload_start;
    if consumed < size_usize {
        skip_bytes(buf, size_usize - consumed, fp)?;
    } else if consumed > size_usize {
        return Err(WavError::Invalid("overread chunk payload"));
    }
    if chunk_size % 2 == 1 {
        skip_bytes(buf, 1, fp)?;
    }
    Ok(())
}

/// What the decoder has come across, as the model sees it.
spec fn seen_of(fmt: Option<DataFormat>, data: Option<SampledData>) -> Seen {
    Seen {
        fmt: match fmt {
            Some(f) => Some(f@),
            None => None,
        },
        data: match data {
            Some(d) => Some(d@),
            None => None,
        },
    }
}

/// Decodes a RIFF/WAVE container held in memory.
///
/// The result is exactly what [`decode`] says of the bytes: the format
/// fields and the payload of a container of 16-bit linear PCM, or the first
/// error that the scan meets. Nothing is returned for part of a container.
pub fn read_raw_wav(bytes: &[u8]) -> (r: Result<Wav, WavError>)
    ensures
        match r {
            Ok(wav) => decode(bytes@) == Ok::<WavContents, WavError>(wav@),
            Err(e) => decode(bytes@) == Err::<WavContents, WavError>(e),
        },
{
    let mut fp: usize = 0;

    let riff: [u8; 4] = read_fourcc(bytes, &mut fp)?;
    if !same_tag(&riff, &RIFF_TAG) {
        return Err(WavError::BadHeader("RIFF missing"));
    }
    let _riff_size: u32 = u32_le(read_bytes(bytes, 4, &mut fp)?)?;
    let wave: [u8; 4] = read_fourcc(bytes, &mut fp)?;
    if !same_tag(&wave, &WAVE_TAG) {
        return Err(WavError::BadHeader("WAVE missing"));
    }

    let mut fmt: Option<DataFormat> = None;
    let mut data: Option<SampledData> = None;

    while (fmt.is_none() || data.is_none()) && bytes.len() - fp >= CHUNK_HEADER_LEN
        invariant
            RIFF_HEADER_LEN <= fp <= bytes@.len(),
            tag_at(bytes@, 0) == RIFF_TAG@,
            tag_at(bytes@, 8) == WAVE_TAG@,
            scan_chunks(bytes@, RIFF_HEADER_LEN as int, Seen { fmt: None, data: None })
                == scan_chunks(bytes@, fp as int, seen_of(fmt, data)),
        decreases bytes@.len() - fp,
    {
        let chunk_id: [u8; 4] = read_fourcc(bytes, &mut fp)?;
        let chunk_size: u32 = u32_le(read_bytes(bytes, 4, &mut fp)?)?;
        let size_usize: usize = match usize::try_from(chunk_size) {
            Ok(n) => n,
            // Not reached where `usize` has 32 bits or more.
            Err(_) => {
                return Err(WavError::Invalid("chunk too large"));
            },
        };
        let payload_start: usize = fp;

        if same_tag(&chunk_id, &FMT_TAG) {
            if fmt.is_some() {
                return Err(WavError::Invalid("duplicate fmt chunk"));
            }
            let parsed: DataFormat = parse_fmt_payload(bytes, &mut fp, chunk_size)?;
            fmt = Some(parsed);
        } else if same_tag(&chunk_id, &DATA_TAG) {
            if data.is_some() {
                return Err(WavError::Invalid("duplicate data chunk"));
            }
            let parsed: SampledData = parse_data_payload(bytes, &mut fp, chunk_size)?;
            data = Some(parsed);
        } else {
            skip_bytes(bytes, size_usize, &mut fp)?;
        }

        finish_chunk(bytes, payload_start, chunk_size, &mut fp)?;
    }

    let fmt: DataFormat = match fmt {
        Some(f) => f,
        None => {
            return Err(WavError::MissingChunk("fmt "));
        },
    };
    let data: SampledData = match data {
        Some(d) => d,
        None => {
            return Err(WavError::MissingChunk("data"));
        },
    };

    if fmt.audio_format != PCM || fmt.bits_per_sample != BITS_PER_SAMPLE {
        return Err(
            WavError::UnsupportedFormat {
                audio_format: fmt.audio_format,
                bits_per_sample: fmt.bits_per_sample,
                channels: fmt.num_channels,
            },
        );
    }
    Ok(Wav { format_chunk: fmt, data_chunk: data })
}

/// Appends a four-byte tag.
fn put_tag(buf: &mut Vec<u8>, tag: &[u8; 4])
    ensures
        final(buf)@ == old(buf)@ + tag@,
{
    buf.push(tag[0]);
    buf.push(tag[1]);
    buf.push(tag[2]);
    buf.push(tag[3]);
    assert(buf@ =~= old(buf)@ + tag@);
}

/// Appends a 16-bit integer, least significant byte first.
fn put_u16_le(buf: &mut Vec<u8>, x: u16)
    ensures
        final(buf)@ == old(buf)@ + u16_bytes(x),
{
    buf.push((x % 0x100) as u8);
    buf.push((x / 0x100) as u8);
    assert(buf@ =~= old(buf)@ + u16_bytes(x));
}

/// Appends a 32-bit integer, least significant byte first.
fn put_u32_le(buf: &mut Vec<u8>, x: u32)
    ensures
        final(buf)@ == old(buf)@ + u32_bytes(x),
{
    buf.push((x % 0x100) as u8);
    buf.push(((x / 0x100) % 0x100) as u8);
    buf.push(((x / 0x1_0000) % 0x100) as u8);
    buf.push((x / 0x100_0000) as u8);
    assert(buf@ =~= old(buf)@ + u32_bytes(x));
}

/// Appends a signed sample in two's complement, least significant byte
/// first.
fn put_i16_le(buf: &mut Vec<u8>, x: i16)
    ensures
        final(buf)@ == old(buf)@ + i16_bytes(x),
{
    let bits: u16 = if x >= 0 {
        x as u16
    } else {
        (x as i32 + 0x1_0000) as u16
    };
    put_u16_le(buf, bits);
}

/// Writes the 44 bytes that precede the payload in the canonical layout.
fn put_preamble(
    buf: &mut Vec<u8>,
    riff_size: u32,
    num_channels: u16,
    sample_rate: u32,
    byte_rate: u32,
    block_align: u16,
    data_size: u32,
)
    requires
        old(buf)@.len() == 0,
        riff_size == 36 + data_size + data_size % 2,
    ensures
        final(buf)@ == preamble(
            FormatFields {
                block_size: FMT_FIELDS_LEN,
                audio_format: PCM,
                num_channels,
                sample_rate,
                bytes_per_sec: byte_rate,
                block_align,
                bits_per_sample: BITS_PER_SAMPLE,
            },
            data_size as nat,
        ),
{
    put_tag(buf, &RIFF_TAG);
    put_u32_le(buf, riff_size);
    put_tag(buf, &WAVE_TAG);

    put_tag(buf, &FMT_TAG);
    put_u32_le(buf, FMT_FIELDS_LEN);
    put_u16_le(buf, PCM);
    put_u16_le(buf, num_channels);
    put_u32_le(buf, sample_rate);
    put_u32_le(buf, byte_rate);
    put_u16_le(buf, block_align);
    put_u16_le(buf, BITS_PER_SAMPLE);

    put_tag(buf, &DATA_TAG);
    put_u32_le(buf, data_size);
    assert(old(buf)@ + RIFF_TAG@ =~= RIFF_TAG@);
}

/// One more sample adds its two bytes at the end of the byte image.
proof fn lemma_samples_bytes_step(samples: Seq<i16>, i: int)
    requires
        0 <= i < samples.len(),
    ensures
        samples_bytes(samples.take(i + 1)) == samples_bytes(samples.take(i)) + i16_bytes(
            samples[i],
        ),
{
    assert(samples_bytes(samples.take(i + 1)) =~= samples_bytes(samples.take(i)) + i16_bytes(
        samples[i],
    ));
}

/// Encodes interleaved 16-bit samples as a RIFF/WAVE container of linear
/// PCM, held in memory.
///
/// The result is exactly what [`encode`] says: the canonical 44-byte
/// preamble followed by the samples, least significant byte first; or
/// `Invalid` when there is no channel, when the samples do not divide into
/// frames, or when a size does not fit the field that holds it.
pub fn write_wav_pcm16(samples_interleaved: &[i16], sample_rate: u32, num_channels: u16) -> (r:
    Result<Vec<u8>, WavError>)
    ensures
        match r {
            Ok(buf) => encode(samples_interleaved@, sample_rate, num_channels) == Ok::<
                Seq<u8>,
                WavError,
            >(buf@),
            Err(e) => encode(samples_interleaved@, sample_rate, num_channels) == Err::<
                Seq<u8>,
                WavError,
            >(e),
        },
{
    if num_channels == 0 {
        return Err(WavError::Invalid("num_channels must be >= 1"));
    }
    let ch: usize = num_channels as usize;
    let sample_count: usize = samples_interleaved.len();
    if sample_count % ch != 0 {
        return Err(WavError::Invalid("samples length not divisible by num_channels"));
    }
    let bits_per_sample: u16 = BITS_PER_SAMPLE;
    let bytes_per_sample: u16 = bits_per_sample / 8;
    let block_align: u16 = match num_channels.checked_mul(bytes_per_sample) {
        Some(n) => n,
        None => {
            assert(num_channels * bytes_per_sample == 2 * num_channels) by (nonlinear_arith)
                requires
                    bytes_per_sample == 2,
            ;
            return Err(WavError::Invalid("block_align overflow"));
        },
    };
    assert(block_align == 2 * num_channels) by (nonlinear_arith)
        requires
            block_align == num_channels * bytes_per_sample,
            bytes_per_sample == 2,
    ;
    assert(sample_rate * (block_align as u32) == sample_rate * (2 * num_channels)) by (
    nonlinear_arith)
        requires
            block_align == 2 * num_channels,
    ;
    let byte_rate: u32 = match sample_rate.checked_mul(block_align as u32) {
        Some(n) => n,
        None => {
            return Err(WavError::Invalid("byte_rate overflow"));
        },
    };
    let num_frames: usize = sample_count / ch;
    assert(num_frames * block_align == 2 * sample_count) by (nonlinear_arith)
        requires
            ch > 0,
            sample_count % ch == 0,
            num_frames == sample_count / ch,
            block_align == 2 * ch,
    ;
    let data_size: u32 = match (num_frames as u64).checked_mul(block_align as u64) {
        Some(n) => {
            if n > u32::MAX as u64 {
                return Err(WavError::Invalid("data chunk too large"));
            }
            n as u32
        },
        None => {
            return Err(WavError::Invalid("data chunk too large"));
        },
    };
    let pad: u32 = data_size % 2;
    let riff_size: u32 = match 36u32.checked_add(data_size) {
        Some(n) => match n.checked_add(pad) {
            Some(n) => n,
            None => {
                return Err(WavError::Invalid("riff size overflow"));
            },
        },
        None => {
            return Err(WavError::Invalid("riff size overflow"));
        },
    };

    let mut buf: Vec<u8> = Vec::with_capacity(
        PREAMBLE_LEN.saturating_add(data_size as usize).saturating_add(pad as usize),
    );
    let ghost fields: FormatFields = pcm16_fields(sample_rate, num_channels);
    let ghost head: Seq<u8> = preamble(fields, data_size as nat);
    put_preamble(&mut buf, riff_size, num_channels, sample_rate, byte_rate, block_align, data_size);

    let mut i: usize = 0;
    while i < sample_count
        invariant
            i <= sample_count,
            sample_count == samples_interleaved@.len(),
            buf@ == head + samples_bytes(samples_interleaved@.take(i as int)),
        decreases sample_count - i,
    {
        proof {
            lemma_samples_bytes_step(samples_interleaved@, i as int);
        }
        put_i16_le(&mut buf, samples_interleaved[i]);
        i += 1;
    }
    assert(samples_interleaved@.take(sample_count as int) =~= samples_interleaved@);
    if pad == 1 {
        buf.push(0);
    }
    assert(buf@ =~= container(fields, samples_bytes(samples_interleaved@)));
    Ok(buf)
}

/// Encodes single-channel samples.
pub fn write_wav_pcm16_mono(samples: &[i16], sample_rate: u32) -> (r: Result<Vec<u8>, WavError>)
    ensures
        match r {
            Ok(buf) => encode(samples@, sample_rate, 1) == Ok::<Seq<u8>, WavError>(buf@),
            Err(e) => encode(samples@, sample_rate, 1) == Err::<Seq<u8>, WavError>(e),
        },
{
    write_wav_pcm16(samples, sample_rate, 1)
}

/// Encodes two-channel samples, interleaved left, right, left, right.
pub fn write_wav_pcm16_stereo(samples_lr: &[i16], sample_rate: u32) -> (r: Result<
    Vec<u8>,
    WavError,
>)
    ensures
        match r {
            Ok(buf) => encode(samples_lr@, sample_rate, 2) == Ok::<Seq<u8>, WavError>(buf@),
            Err(e) => encode(samples_lr@, sample_rate, 2) == Err::<Seq<u8>, WavError>(e),
        },
{
    write_wav_pcm16(samples_lr, sample_rate, 2)
}

} // verus!
