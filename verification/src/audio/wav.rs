//! WAV file parsing
//!
//! Parses WAV file bytes to extract raw PCM i16 samples.
//! Supports standard PCM WAV files (format code 1).

use crate::audio::AudioParseError;
use crate::audio::simd::half_sum;
use crate::audio::simd::half_toward_zero;
use vstd::prelude::*;

verus! {

/// WAV format chunk data
#[derive(Debug, Clone, Copy, PartialEq, Eq, Structural)]
pub struct WavFormat {
    /// Audio format (1 = PCM)
    pub audio_format: u16,
    /// Number of channels
    pub num_channels: u16,
    /// Sample rate in Hz
    pub sample_rate: u32,
    /// Bits per sample (typically 16)
    pub bits_per_sample: u16,
}

/// The 16-bit little-endian number at `pos`.
pub open spec fn le_u16(bytes: Seq<u8>, pos: int) -> int {
    bytes[pos] + 256 * bytes[pos + 1]
}

/// The 32-bit little-endian number at `pos`.
pub open spec fn le_u32(bytes: Seq<u8>, pos: int) -> int {
    le_u16(bytes, pos) + 65536 * le_u16(bytes, pos + 2)
}

/// The signed 16-bit little-endian number at `pos`.
pub open spec fn le_i16(bytes: Seq<u8>, pos: int) -> int {
    let v = le_u16(bytes, pos);
    if v < 32768 {
        v
    } else {
        v - 65536
    }
}

/// `"RIFF"`
pub open spec fn riff_tag() -> Seq<u8> {
    seq![0x52u8, 0x49, 0x46, 0x46]
}

/// `"WAVE"`
pub open spec fn wave_tag() -> Seq<u8> {
    seq![0x57u8, 0x41, 0x56, 0x45]
}

/// `"fmt "`
pub open spec fn fmt_tag() -> Seq<u8> {
    seq![0x66u8, 0x6d, 0x74, 0x20]
}

/// `"data"`
pub open spec fn data_tag() -> Seq<u8> {
    seq![0x64u8, 0x61, 0x74, 0x61]
}

/// Why a WAV file is rejected.
pub enum WavFault {
    /// The data or its chunk structure is malformed, for this reason.
    Malformed(Seq<char>),
    /// The audio is not supported, for this reason.
    Unsupported(Seq<char>),
}

/// What a file holds.
pub enum WavContents {
    /// Mono samples and their rate.
    Audio { samples: Seq<i16>, sample_rate: u32 },
    /// A fault, at the first place where one shows.
    Fault(WavFault),
    /// The file ends inside the sixteen bytes of a format chunk that announces
    /// them, and no fault shows before.
    CutFormat,
}

/// The format that the body of a `fmt ` chunk describes.
pub open spec fn format_at(body: Seq<u8>) -> WavFormat {
    WavFormat {
        audio_format: le_u16(body, 0) as u16,
        num_channels: le_u16(body, 2) as u16,
        sample_rate: le_u32(body, 4) as u32,
        bits_per_sample: le_u16(body, 14) as u16,
    }
}

/// The samples that a run of bytes encodes; an odd last byte is dropped.
pub open spec fn pcm_samples(bytes: Seq<u8>) -> Seq<i16> {
    Seq::new(bytes.len() / 2, |i: int| le_i16(bytes, 2 * i) as i16)
}

/// Two interleaved channels averaged, rounding toward zero; a last sample
/// without a partner stands for itself.
pub open spec fn stereo_averaged(raw: Seq<i16>) -> Seq<i16> {
    Seq::new(
        (raw.len() + 1) / 2,
        |i: int|
            if 2 * i + 1 < raw.len() {
                half_toward_zero(raw[2 * i] + raw[2 * i + 1]) as i16
            } else {
                raw[2 * i]
            },
    )
}

/// The mono samples of raw samples with the given number of channels. Only
/// stereo is mixed down.
pub open spec fn mono_of(raw: Seq<i16>, num_channels: u16) -> Seq<i16> {
    if num_channels == 2 {
        stereo_averaged(raw)
    } else {
        raw
    }
}

/// The samples in a data chunk of the given size whose body starts where
/// `body` does, under the last format before it.
pub open spec fn data_holds(
    body: Seq<u8>,
    size: int,
    format: Option<WavFormat>,
) -> Result<Seq<i16>, WavFault> {
    match format {
        None => Err(WavFault::Malformed("data chunk before fmt chunk"@)),
        Some(f) => if f.audio_format != 1 {
            Err(WavFault::Unsupported("Only PCM format supported"@))
        } else if f.bits_per_sample != 16 {
            Err(WavFault::Unsupported("Only 16-bit samples supported"@))
        } else if size < body.len() {
            Ok(mono_of(pcm_samples(body.take(size)), f.num_channels))
        } else {
            Ok(mono_of(pcm_samples(body), f.num_channels))
        },
    }
}

/// What follows the body of a chunk: bodies are padded to an even size.
pub open spec fn after_body(body: Seq<u8>, size: int) -> Seq<u8> {
    if size + size % 2 < body.len() {
        body.skip(size + size % 2)
    } else {
        Seq::empty()
    }
}

/// What a file holds whose chunks are `rest`, given the last format and the
/// last samples before them. A chunk is a four-byte tag, a four-byte size and
/// a body; fewer than eight bytes are no chunk and end the file.
pub open spec fn chunks_hold(
    rest: Seq<u8>,
    format: Option<WavFormat>,
    samples: Seq<i16>,
) -> WavContents
    decreases rest.len(),
{
    if rest.len() < 8 {
        match format {
            Some(f) => WavContents::Audio { samples, sample_rate: f.sample_rate },
            None => WavContents::Fault(WavFault::Malformed("No fmt chunk found"@)),
        }
    } else {
        let tag = rest.take(4);
        let size = le_u32(rest, 4);
        let body = rest.skip(8);
        let next = after_body(body, size);
        if tag == fmt_tag() {
            if size < 16 {
                WavContents::Fault(WavFault::Malformed("fmt chunk too small"@))
            } else if body.len() < 16 {
                WavContents::CutFormat
            } else {
                chunks_hold(next, Some(format_at(body)), samples)
            }
        } else if tag == data_tag() {
            match data_holds(body, size, format) {
                Ok(found) => chunks_hold(next, format, found),
                Err(fault) => WavContents::Fault(fault),
            }
        } else {
            chunks_hold(next, format, samples)
        }
    }
}

/// What the bytes of a WAV file hold.
pub open spec fn wav_holds(data: Seq<u8>) -> WavContents {
    if data.len() < 12 {
        WavContents::Fault(WavFault::Malformed("WAV file too short for header"@))
    } else if data.take(4) != riff_tag() {
        WavContents::Fault(WavFault::Malformed("Missing RIFF header"@))
    } else if data.subrange(8, 12) != wave_tag() {
        WavContents::Fault(WavFault::Malformed("Missing WAVE format"@))
    } else {
        chunks_hold(data.skip(12), None, Seq::empty())
    }
}

/// Whether an error reports a fault.
pub open spec fn reports(error: AudioParseError, fault: WavFault) -> bool {
    match fault {
        WavFault::Malformed(reason) => error.is_malformed(reason),
        WavFault::Unsupported(reason) => error.is_unsupported(reason),
    }
}

/// Whether a parse result says what a file holds that is not cut inside its
/// format data.
pub open spec fn parse_agrees(
    result: Result<(Vec<i16>, u32), AudioParseError>,
    contents: WavContents,
) -> bool {
    match contents {
        WavContents::Audio { samples, sample_rate } => {
            &&& result matches Ok(parsed)
            &&& parsed.0@ == samples
            &&& parsed.1 == sample_rate
        },
        WavContents::Fault(fault) => result matches Err(error) && reports(error, fault),
        WavContents::CutFormat => false,
    }
}

fn read_u16(data: &[u8], pos: usize) -> (v: u16)
    requires
        pos + 2 <= data.len(),
    ensures
        v == le_u16(data@, pos as int),
{
    data[pos] as u16 + 256 * (data[pos + 1] as u16)
}

fn read_u32(data: &[u8], pos: usize) -> (v: u32)
    requires
        pos + 4 <= data.len(),
    ensures
        v == le_u32(data@, pos as int),
{
    read_u16(data, pos) as u32 + 65536 * (read_u16(data, pos + 2) as u32)
}

fn read_i16(data: &[u8], pos: usize) -> (v: i16)
    requires
        pos + 2 <= data.len(),
    ensures
        v == le_i16(data@, pos as int),
{
    let u: u16 = read_u16(data, pos);
    if u < 32768 {
        u as i16
    } else {
        (u as i32 - 65536) as i16
    }
}

fn has_tag(data: &[u8], pos: usize, tag: [u8; 4]) -> (same: bool)
    requires
        pos + 4 <= data.len(),
    ensures
        same == (data@.subrange(pos as int, pos + 4) == tag@),
{
    let same = data[pos] == tag[0] && data[pos + 1] == tag[1] && data[pos + 2] == tag[2] && data[pos
        + 3] == tag[3];
    proof {
        let got = data@.subrange(pos as int, pos + 4);
        if same {
            assert(got =~= tag@);
        } else {
            assert(got[0] == data@[pos as int] && got[1] == data@[pos + 1] && got[2] == data@[pos
                + 2] && got[3] == data@[pos + 3]);
        }
    }
    same
}

/// Decodes the samples in `data[start..end]`.
fn read_pcm(data: &[u8], start: usize, end: usize) -> (raw: Vec<i16>)
    requires
        start <= end <= data@.len(),
    ensures
        raw@ == pcm_samples(data@.subrange(start as int, end as int)),
{
    let ghost bytes = data@.subrange(start as int, end as int);
    let mut raw: Vec<i16> = Vec::new();
    let mut pos: usize = start;
    while end - pos >= 2
        invariant
            start <= pos <= end <= data@.len(),
            bytes == data@.subrange(start as int, end as int),
            pos - start == 2 * raw@.len(),
            forall|i: int| 0 <= i < raw@.len() ==> #[trigger] raw@[i] == le_i16(bytes, 2 * i),
        decreases end - pos,
    {
        let sample: i16 = read_i16(data, pos);
        assert(sample == le_i16(bytes, pos - start));
        raw.push(sample);
        pos += 2;
    }
    assert(raw@ =~= pcm_samples(bytes));
    raw
}

/// Mixes two interleaved channels down to one.
pub(crate) fn average_stereo(raw: &Vec<i16>) -> (mono: Vec<i16>)
    ensures
        mono@ == stereo_averaged(raw@),
{
    let mut mono: Vec<i16> = Vec::new();
    let mut i: usize = 0;
    while i < raw.len()
        invariant
            i <= raw.len(),
            i == 2 * mono@.len() || (i == raw@.len() && i + 1 == 2 * mono@.len()),
            mono@.len() <= (raw@.len() + 1) / 2,
            forall|k: int|
                0 <= k < mono@.len() ==> #[trigger] mono@[k] == stereo_averaged(raw@)[k],
        decreases raw@.len() - i,
    {
        if raw.len() - i >= 2 {
            mono.push(half_sum(raw[i], raw[i + 1]));
            i += 2;
        } else {
            mono.push(raw[i]);
            i += 1;
        }
    }
    assert(mono@ =~= stereo_averaged(raw@));
    mono
}

fn read_format(data: &[u8], pos: usize) -> (format: WavFormat)
    requires
        pos + 16 <= data.len(),
    ensures
        format == format_at(data@.skip(pos as int)),
{
    // Skip byte rate (4 bytes) and block align (2 bytes)
    WavFormat {
        audio_format: read_u16(data, pos),
        num_channels: read_u16(data, pos + 2),
        sample_rate: read_u32(data, pos + 4),
        bits_per_sample: read_u16(data, pos + 14),
    }
}

fn read_data_chunk(data: &[u8], pos: usize, size: u32, format: Option<WavFormat>) -> (result:
    Result<Vec<i16>, AudioParseError>)
    requires
        pos <= data.len(),
    ensures
        match data_holds(data@.skip(pos as int), size as int, format) {
            Ok(samples) => result matches Ok(found) && found@ == samples,
            Err(fault) => result matches Err(error) && reports(error, fault),
        },
{
    let fmt: WavFormat = match format {
        Some(fmt) => fmt,
        None => {
            return Err(AudioParseError::Malformed("data chunk before fmt chunk".to_string()));
        },
    };
    if fmt.audio_format != 1 {
        return Err(AudioParseError::Unsupported("Only PCM format supported".to_string()));
    }
    if fmt.bits_per_sample != 16 {
        return Err(AudioParseError::Unsupported("Only 16-bit samples supported".to_string()));
    }
    let room: usize = data.len() - pos;
    let end: usize = if (size as u64) < room as u64 {
        pos + size as usize
    } else {
        data.len()
    };
    let ghost body = data@.skip(pos as int);
    proof {
        if size < body.len() {
            assert(data@.subrange(pos as int, end as int) =~= body.take(size as int));
        } else {
            assert(data@.subrange(pos as int, end as int) =~= body);
        }
    }
    let raw = read_pcm(data, pos, end);
    if fmt.num_channels == 2 {
        Ok(average_stereo(&raw))
    } else {
        Ok(raw)
    }
}

/// The position behind a chunk body, chunks being word-aligned.
fn skip_body(data: &[u8], pos: usize, size: u32) -> (next: usize)
    requires
        pos <= data.len(),
    ensures
        pos <= next <= data.len(),
        data@.skip(next as int) == after_body(data@.skip(pos as int), size as int),
{
    let padded: u64 = size as u64 + (size % 2) as u64;
    let room: usize = data.len() - pos;
    if padded < room as u64 {
        assert(data@.skip(pos as int).skip(padded as int) =~= data@.skip(pos + padded));
        pos + padded as usize
    } else {
        assert(data@.skip(data@.len() as int) =~= Seq::<u8>::empty());
        data.len()
    }
}

/// Reads a WAV file, or returns `None` where the file ends inside the format
/// data that it announces.
pub fn read_wav(data: &[u8]) -> (result: Option<Result<(Vec<i16>, u32), AudioParseError>>)
    ensures
        result is None <==> wav_holds(data@) is CutFormat,
        result matches Some(parsed) ==> parse_agrees(parsed, wav_holds(data@)),
{
    if data.len() < 12 {
        return Some(
            Err(AudioParseError::Malformed("WAV file too short for header".to_string())),
        );
    }
    assert(data@.take(4) =~= data@.subrange(0, 4));
    if !has_tag(data, 0, [0x52u8, 0x49, 0x46, 0x46]) {
        return Some(Err(AudioParseError::Malformed("Missing RIFF header".to_string())));
    }
    if !has_tag(data, 8, [0x57u8, 0x41, 0x56, 0x45]) {
        return Some(Err(AudioParseError::Malformed("Missing WAVE format".to_string())));
    }
    let mut pos: usize = 12;
    let mut format: Option<WavFormat> = None;
    let mut samples: Vec<i16> = Vec::new();

    // Parse chunks
    while data.len() - pos >= 8
        invariant
            12 <= pos <= data.len(),
            wav_holds(data@) == chunks_hold(data@.skip(pos as int), format, samples@),
        decreases data.len() - pos,
    {
        let ghost rest = data@.skip(pos as int);
        let is_fmt = has_tag(data, pos, [0x66u8, 0x6d, 0x74, 0x20]);
        let is_data = has_tag(data, pos, [0x64u8, 0x61, 0x74, 0x61]);
        let size: u32 = read_u32(data, pos + 4);
        assert(rest.take(4) =~= data@.subrange(pos as int, pos + 4));
        assert(rest.skip(8) =~= data@.skip(pos + 8));
        assert(size == le_u32(rest, 4));
        pos += 8;

        if is_fmt {
            if size < 16 {
                return Some(Err(AudioParseError::Malformed("fmt chunk too small".to_string())));
            }
            if data.len() - pos < 16 {
                return None;
            }
            format = Some(read_format(data, pos));
        } else if is_data {
            match read_data_chunk(data, pos, size, format) {
                Ok(found) => {
                    samples = found;
                },
                Err(error) => {
                    return Some(Err(error));
                },
            }
        }
        pos = skip_body(data, pos, size);
    }
    match format {
        Some(fmt) => Some(Ok((samples, fmt.sample_rate))),
        None => Some(Err(AudioParseError::Malformed("No fmt chunk found".to_string()))),
    }
}

/// Parse a WAV file and return the raw PCM i16 samples (mono) and the sample
/// rate.
///
/// Handles:
/// - Standard PCM WAV files (format code 1)
/// - Stereo to mono conversion (if needed)
/// - 16-bit samples
///
/// A file that ends inside format data that it announces is malformed.
pub fn parse_wav(data: &[u8]) -> (result: Result<(Vec<i16>, u32), AudioParseError>)
    ensures
        match wav_holds(data@) {
            WavContents::CutFormat => {
                &&& result matches Err(error)
                &&& error.is_malformed("fmt chunk cut short"@)
            },
            other => parse_agrees(result, other),
        },
{
    match read_wav(data) {
        Some(result) => result,
        None => Err(AudioParseError::Malformed("fmt chunk cut short".to_string())),
    }
}

/// A 16-bit number as two little-endian bytes.
pub open spec fn le_bytes16(n: int) -> Seq<u8> {
    seq![(n % 256) as u8, (n / 256 % 256) as u8]
}

/// A 32-bit number as four little-endian bytes.
pub open spec fn le_bytes32(n: int) -> Seq<u8> {
    le_bytes16(n % 65536) + le_bytes16(n / 65536)
}

/// Samples as little-endian bytes.
pub open spec fn pcm_bytes(raw: Seq<i16>) -> Seq<u8> {
    Seq::new(
        2 * raw.len(),
        |i: int| le_bytes16(raw[i / 2] as int % 65536)[i % 2],
    )
}

/// A chunk: its tag, its size, its body, and the padding of an odd body.
#[verifier::opaque]
pub open spec fn chunk_bytes(tag: Seq<u8>, body: Seq<u8>) -> Seq<u8> {
    tag + le_bytes32(body.len() as int) + body + if body.len() % 2 == 1 {
        seq![0u8]
    } else {
        Seq::<u8>::empty()
    }
}

/// The body of a format chunk for 16-bit PCM.
#[verifier::opaque]
pub open spec fn pcm_format_body(num_channels: u16, sample_rate: u32) -> Seq<u8> {
    le_bytes16(1) + le_bytes16(num_channels as int) + le_bytes32(sample_rate as int) + le_bytes32(
        sample_rate * num_channels * 2 % 0x1_0000_0000,
    ) + le_bytes16(num_channels * 2 % 65536) + le_bytes16(16)
}

/// A file of 16-bit PCM: the header, the format chunk, the data chunk.
pub open spec fn pcm_file(num_channels: u16, sample_rate: u32, raw: Seq<i16>) -> Seq<u8> {
    riff_tag() + le_bytes32((36 + 2 * raw.len()) as int % 0x1_0000_0000) + wave_tag() + (chunk_bytes(
        fmt_tag(),
        pcm_format_body(num_channels, sample_rate),
    ) + chunk_bytes(data_tag(), pcm_bytes(raw)))
}

proof fn lemma_le_u16_of_bytes(n: int, bytes: Seq<u8>, pos: int)
    requires
        0 <= n < 65536,
        0 <= pos,
        pos + 2 <= bytes.len(),
        bytes[pos] == le_bytes16(n)[0],
        bytes[pos + 1] == le_bytes16(n)[1],
    ensures
        le_u16(bytes, pos) == n,
{
}

proof fn lemma_le_u32_of_bytes(n: int, bytes: Seq<u8>, pos: int)
    requires
        0 <= n < 0x1_0000_0000,
        0 <= pos,
        pos + 4 <= bytes.len(),
        bytes.subrange(pos, pos + 4) == le_bytes32(n),
    ensures
        le_u32(bytes, pos) == n,
{
    let b = bytes.subrange(pos, pos + 4);
    assert(b[0] == bytes[pos] && b[1] == bytes[pos + 1] && b[2] == bytes[pos + 2] && b[3]
        == bytes[pos + 3]);
    assert(0 <= n / 65536 < 65536);
    lemma_le_u16_of_bytes(n % 65536, bytes, pos);
    lemma_le_u16_of_bytes(n / 65536, bytes, pos + 2);
}

proof fn lemma_pcm_samples_of_bytes(raw: Seq<i16>)
    ensures
        pcm_samples(pcm_bytes(raw)) == raw,
{
    let bytes = pcm_bytes(raw);
    assert forall|i: int| 0 <= i < raw.len() implies #[trigger] pcm_samples(bytes)[i] == raw[i] by {
        let n = raw[i] as int % 65536;
        assert(bytes[2 * i] == le_bytes16(n)[0]) by {
            assert((2 * i) / 2 == i && (2 * i) % 2 == 0);
        }
        assert(bytes[2 * i + 1] == le_bytes16(n)[1]) by {
            assert((2 * i + 1) / 2 == i && (2 * i + 1) % 2 == 1);
        }
        lemma_le_u16_of_bytes(n, bytes, 2 * i);
    }
    assert(pcm_samples(bytes) =~= raw);
}

/// What a reader sees of a whole chunk in front of the rest of a file.
proof fn lemma_chunk_read(tag: Seq<u8>, body: Seq<u8>, rest: Seq<u8>)
    requires
        tag.len() == 4,
        body.len() <= u32::MAX,
    ensures
        ({
            let all = chunk_bytes(tag, body) + rest;
            let size = body.len() as int;
            &&& all.len() == 8 + size + size % 2 + rest.len()
            &&& all.take(4) == tag
            &&& le_u32(all, 4) == size
            &&& all.skip(8).take(size) == body
            &&& all.skip(8).skip(size + size % 2) == rest
        }),
{
    reveal(chunk_bytes);
    let all = chunk_bytes(tag, body) + rest;
    let size = body.len() as int;
    assert(all.take(4) =~= tag);
    assert(all.subrange(4, 8) =~= le_bytes32(size));
    lemma_le_u32_of_bytes(size, all, 4);
    assert(all.skip(8).take(size) =~= body);
    assert(all.skip(8).skip(size + size % 2) =~= rest);
}

/// A chunk that is neither a format nor a data chunk is skipped, wherever it
/// stands and whatever byte an odd body is padded with: the file holds what it
/// holds without it.
pub proof fn law_unknown_chunk_is_skipped(
    tag: Seq<u8>,
    body: Seq<u8>,
    pad: Seq<u8>,
    rest: Seq<u8>,
    format: Option<WavFormat>,
    samples: Seq<i16>,
)
    requires
        tag.len() == 4,
        tag != fmt_tag(),
        tag != data_tag(),
        body.len() <= u32::MAX,
        pad.len() == body.len() % 2,
    ensures
        chunks_hold(
            tag + le_bytes32(body.len() as int) + body + pad + rest,
            format,
            samples,
        ) == chunks_hold(rest, format, samples),
{
    let all = tag + le_bytes32(body.len() as int) + body + pad + rest;
    let size = body.len() as int;
    assert(all.take(4) =~= tag);
    assert(all.subrange(4, 8) =~= le_bytes32(size));
    lemma_le_u32_of_bytes(size, all, 4);
    assert(all.skip(8).skip(size + size % 2) =~= rest);
    if rest.len() == 0 {
        assert(rest =~= Seq::<u8>::empty());
    }
}

/// The format that 16-bit PCM announces.
spec fn pcm_format(num_channels: u16, sample_rate: u32) -> WavFormat {
    WavFormat { audio_format: 1, num_channels, sample_rate, bits_per_sample: 16 }
}

proof fn lemma_format_read(num_channels: u16, sample_rate: u32, body: Seq<u8>)
    requires
        body.len() >= 16,
        body.take(16) == pcm_format_body(num_channels, sample_rate),
    ensures
        format_at(body) == pcm_format(num_channels, sample_rate),
{
    reveal(pcm_format_body);
    let fmt_body = pcm_format_body(num_channels, sample_rate);
    assert forall|i: int| 0 <= i < 16 implies #[trigger] body[i] == fmt_body[i] by {
        assert(body.take(16)[i] == body[i]);
    }
    lemma_le_u16_of_bytes(1, body, 0);
    lemma_le_u16_of_bytes(num_channels as int, body, 2);
    assert(body.subrange(4, 8) =~= le_bytes32(sample_rate as int));
    lemma_le_u32_of_bytes(sample_rate as int, body, 4);
    lemma_le_u16_of_bytes(16, body, 14);
}

proof fn lemma_format_chunk_read(
    num_channels: u16,
    sample_rate: u32,
    rest: Seq<u8>,
    format: Option<WavFormat>,
    samples: Seq<i16>,
)
    ensures
        chunks_hold(
            chunk_bytes(fmt_tag(), pcm_format_body(num_channels, sample_rate)) + rest,
            format,
            samples,
        ) == chunks_hold(rest, Some(pcm_format(num_channels, sample_rate)), samples),
{
    let fmt_body = pcm_format_body(num_channels, sample_rate);
    let all = chunk_bytes(fmt_tag(), fmt_body) + rest;
    assert(fmt_body.len() == 16) by {
        reveal(pcm_format_body);
    }
    lemma_chunk_read(fmt_tag(), fmt_body, rest);
    lemma_format_read(num_channels, sample_rate, all.skip(8));
    if rest.len() == 0 {
        assert(rest =~= Seq::<u8>::empty());
    }
}

proof fn lemma_data_chunk_read(
    num_channels: u16,
    sample_rate: u32,
    raw: Seq<i16>,
    samples: Seq<i16>,
)
    requires
        2 * raw.len() <= u32::MAX,
    ensures
        chunks_hold(
            chunk_bytes(data_tag(), pcm_bytes(raw)),
            Some(pcm_format(num_channels, sample_rate)),
            samples,
        ) == (WavContents::Audio { samples: mono_of(raw, num_channels), sample_rate }),
{
    let nothing = Seq::<u8>::empty();
    let chunk = chunk_bytes(data_tag(), pcm_bytes(raw));
    assert(fmt_tag() != data_tag()) by {
        assert(fmt_tag()[0] != data_tag()[0]);
    }
    lemma_chunk_read(data_tag(), pcm_bytes(raw), nothing);
    assert(chunk + nothing =~= chunk);
    lemma_pcm_samples_of_bytes(raw);
    assert(chunk.skip(8) =~= pcm_bytes(raw));
    assert(chunks_hold(
        nothing,
        Some(pcm_format(num_channels, sample_rate)),
        mono_of(raw, num_channels),
    ) == (WavContents::Audio { samples: mono_of(raw, num_channels), sample_rate }));
}

proof fn lemma_header_read(a: Seq<u8>, b: Seq<u8>, c: Seq<u8>, rest: Seq<u8>)
    requires
        a == riff_tag(),
        b.len() == 4,
        c == wave_tag(),
    ensures
        wav_holds(a + b + c + rest) == chunks_hold(rest, None, Seq::empty()),
{
    let file = a + b + c + rest;
    assert(file.take(4) =~= a);
    assert(file.subrange(8, 12) =~= c);
    assert(file.skip(12) =~= rest);
}

/// Reading a PCM file gives back what was written: the same samples where
/// they are mono, their averages where they are stereo, at the same rate.
pub proof fn law_pcm_file_reads_back(num_channels: u16, sample_rate: u32, raw: Seq<i16>)
    requires
        2 * raw.len() <= u32::MAX,
    ensures
        wav_holds(pcm_file(num_channels, sample_rate, raw)) == (WavContents::Audio {
            samples: mono_of(raw, num_channels),
            sample_rate,
        }),
        num_channels != 2 ==> wav_holds(pcm_file(num_channels, sample_rate, raw)) == (
        WavContents::Audio { samples: raw, sample_rate }),
{
    let fmt_chunk = chunk_bytes(fmt_tag(), pcm_format_body(num_channels, sample_rate));
    let data_chunk = chunk_bytes(data_tag(), pcm_bytes(raw));
    let size = le_bytes32((36 + 2 * raw.len()) as int % 0x1_0000_0000);
    lemma_header_read(riff_tag(), size, wave_tag(), fmt_chunk + data_chunk);
    lemma_format_chunk_read(num_channels, sample_rate, data_chunk, None, Seq::empty());
    lemma_data_chunk_read(num_channels, sample_rate, raw, Seq::empty());
}

/// Bytes behind the last chunk, too few to be another one, change nothing.
pub proof fn law_trailing_bytes_are_ignored(
    tail: Seq<u8>,
    format: Option<WavFormat>,
    samples: Seq<i16>,
)
    requires
        tail.len() < 8,
    ensures
        chunks_hold(tail, format, samples) == chunks_hold(Seq::empty(), format, samples),
{
}

/// A file that ends inside a format body that it announces is noticed, wherever
/// the chunk stands and however much of the body is there.
pub proof fn law_cut_format_is_noticed(
    size: int,
    body: Seq<u8>,
    format: Option<WavFormat>,
    samples: Seq<i16>,
)
    requires
        16 <= size <= u32::MAX,
        body.len() < 16,
    ensures
        chunks_hold(fmt_tag() + le_bytes32(size) + body, format, samples) is CutFormat,
{
    let rest = fmt_tag() + le_bytes32(size) + body;
    assert(rest.take(4) =~= fmt_tag());
    assert(rest.subrange(4, 8) =~= le_bytes32(size));
    lemma_le_u32_of_bytes(size, rest, 4);
}

/// The number that four little-endian bytes stand for.
pub open spec fn announces(size: Seq<u8>, n: int) -> bool {
    &&& size.len() == 4
    &&& size[0] + 0x100 * size[1] + 0x1_0000 * size[2] + 0x100_0000 * size[3] == n
}

/// Whether a mono sample is the average of a frame: twice the sample is the sum
/// of the frame, or next to it on the side of zero.
pub open spec fn is_average(left: int, right: int, mono: int) -> bool {
    if left + right >= 0 {
        2 * mono == left + right || 2 * mono == left + right - 1
    } else {
        2 * mono == left + right || 2 * mono == left + right + 1
    }
}

/// Whether these are the samples that stand in the bytes, two little-endian
/// bytes each, an odd last byte left out.
pub open spec fn are_samples_in(raw: Seq<i16>, bytes: Seq<u8>) -> bool {
    &&& 2 * raw.len() <= bytes.len() <= 2 * raw.len() + 1
    &&& forall|i: int|
        0 <= i < raw.len() ==> (#[trigger] raw[i] - bytes[2 * i] - 0x100 * bytes[2 * i + 1])
            % 0x1_0000 == 0
}

/// Whether these are the mono samples of raw ones: the averages of the frames,
/// with a last sample without a partner by itself, where there are two
/// channels, and the raw samples everywhere else.
pub open spec fn is_mono_of(mono: Seq<i16>, raw: Seq<i16>, num_channels: u16) -> bool {
    if num_channels == 2 {
        &&& 2 * mono.len() == raw.len() || 2 * mono.len() == raw.len() + 1
        &&& forall|i: int|
            0 <= i && 2 * i + 1 < raw.len() ==> is_average(
                raw[2 * i] as int,
                raw[2 * i + 1] as int,
                #[trigger] mono[i] as int,
            )
        &&& raw.len() % 2 == 1 ==> mono.last() == raw.last()
    } else {
        mono == raw
    }
}

proof fn lemma_mono_is_known(mono: Seq<i16>, raw: Seq<i16>, num_channels: u16)
    requires
        is_mono_of(mono, raw, num_channels),
    ensures
        mono_of(raw, num_channels) == mono,
{
    assert(mono_of(raw, num_channels) =~= mono);
}

proof fn lemma_samples_are_known(raw: Seq<i16>, bytes: Seq<u8>)
    requires
        are_samples_in(raw, bytes),
    ensures
        pcm_samples(bytes) == raw,
{
    assert forall|i: int| 0 <= i < raw.len() implies #[trigger] pcm_samples(bytes)[i]
        == raw[i] by {
        assert((raw[i] - bytes[2 * i] - 0x100 * bytes[2 * i + 1]) % 0x1_0000 == 0);
    }
    assert(pcm_samples(bytes) =~= raw);
}

/// What a reader sees of the start of a chunk.
proof fn lemma_chunk_start(tag: Seq<u8>, size: Seq<u8>, n: int, behind: Seq<u8>)
    requires
        tag.len() == 4,
        announces(size, n),
    ensures
        ({
            let all = tag + size + behind;
            &&& all.len() == 8 + behind.len()
            &&& all.take(4) == tag
            &&& le_u32(all, 4) == n
            &&& all.skip(8) == behind
        }),
{
    let all = tag + size + behind;
    assert(all.take(4) =~= tag);
    assert(all[4] == size[0] && all[5] == size[1] && all[6] == size[2] && all[7] == size[3]);
    assert(all.skip(8) =~= behind);
}

/// What stands behind a chunk body that is all there, with its padding.
proof fn lemma_behind_body(body: Seq<u8>, pad: Seq<u8>, rest: Seq<u8>)
    requires
        pad.len() == body.len() % 2,
    ensures
        after_body(body + pad + rest, body.len() as int) == rest,
        (body + pad + rest).take(body.len() as int) == body,
{
    let all = body + pad + rest;
    let n = body.len() as int;
    assert(all.take(n) =~= body);
    if rest.len() > 0 {
        assert(all.skip(n + n % 2) =~= rest);
    } else {
        assert(rest =~= Seq::<u8>::empty());
    }
}

/// A file needs twelve bytes, `RIFF` at the start and `WAVE` after the four
/// bytes of the size. Anything else is malformed, for the first of these that
/// is missing.
pub proof fn law_header_is_needed(data: Seq<u8>)
    ensures
        data.len() < 12 ==> wav_holds(data) == WavContents::Fault(
            WavFault::Malformed("WAV file too short for header"@),
        ),
        data.len() >= 12 && !(data[0] == 0x52 && data[1] == 0x49 && data[2] == 0x46 && data[3]
            == 0x46) ==> wav_holds(data) == WavContents::Fault(
            WavFault::Malformed("Missing RIFF header"@),
        ),
        data.len() >= 12 && data[0] == 0x52 && data[1] == 0x49 && data[2] == 0x46 && data[3] == 0x46
            && !(data[8] == 0x57 && data[9] == 0x41 && data[10] == 0x56 && data[11] == 0x45)
            ==> wav_holds(data) == WavContents::Fault(
            WavFault::Malformed("Missing WAVE format"@),
        ),
{
    if data.len() >= 12 {
        let start = data.take(4);
        assert(start[0] == data[0] && start[1] == data[1] && start[2] == data[2] && start[3]
            == data[3]);
        let form = data.subrange(8, 12);
        assert(form[0] == data[8] && form[1] == data[9] && form[2] == data[10] && form[3]
            == data[11]);
        if data[0] == 0x52 && data[1] == 0x49 && data[2] == 0x46 && data[3] == 0x46 {
            assert(start =~= riff_tag());
        } else {
            assert(riff_tag()[0] == 0x52 && riff_tag()[1] == 0x49 && riff_tag()[2] == 0x46
                && riff_tag()[3] == 0x46);
        }
        assert(wave_tag()[0] == 0x57 && wave_tag()[1] == 0x41 && wave_tag()[2] == 0x56
            && wave_tag()[3] == 0x45);
    }
}

/// Behind the header the chunks decide alone, with no format and no samples to
/// begin with; the size in the header says nothing.
pub proof fn law_header_is_passed_over(size: Seq<u8>, rest: Seq<u8>)
    requires
        size.len() == 4,
    ensures
        wav_holds(
            seq![0x52u8, 0x49, 0x46, 0x46] + size + seq![0x57u8, 0x41, 0x56, 0x45] + rest,
        ) == chunks_hold(rest, None, Seq::empty()),
{
    lemma_header_read(
        seq![0x52u8, 0x49, 0x46, 0x46],
        size,
        seq![0x57u8, 0x41, 0x56, 0x45],
        rest,
    );
}

/// Whether a format is the one that the first sixteen bytes of a body describe.
pub open spec fn is_format_in(format: WavFormat, body: Seq<u8>) -> bool {
    &&& format.audio_format == body[0] + 0x100 * body[1]
    &&& format.num_channels == body[2] + 0x100 * body[3]
    &&& format.sample_rate == body[4] + 0x100 * body[5] + 0x1_0000 * body[6] + 0x100_0000
        * body[7]
    &&& format.bits_per_sample == body[14] + 0x100 * body[15]
}

/// What follows a format chunk whose sixteen bytes are there.
proof fn lemma_format_step(rest: Seq<u8>, before: Option<WavFormat>, samples: Seq<i16>)
    requires
        rest.len() >= 24,
        rest.take(4) == fmt_tag(),
        le_u32(rest, 4) >= 16,
    ensures
        chunks_hold(rest, before, samples) == chunks_hold(
            after_body(rest.skip(8), le_u32(rest, 4)),
            Some(format_at(rest.skip(8))),
            samples,
        ),
{
}

proof fn lemma_format_is_known(format: WavFormat, body: Seq<u8>, all: Seq<u8>)
    requires
        16 <= body.len() <= all.len(),
        forall|i: int| 0 <= i < 16 ==> #[trigger] all[i] == body[i],
        is_format_in(format, body),
    ensures
        format_at(all) == format,
{
    assert(all[0] == body[0] && all[1] == body[1]);
    assert(all[2] == body[2] && all[3] == body[3]);
    assert(all[4] == body[4] && all[5] == body[5] && all[6] == body[6] && all[7] == body[7]);
    assert(all[14] == body[14] && all[15] == body[15]);
    assert(le_u16(all, 0) == format.audio_format);
    assert(le_u16(all, 2) == format.num_channels);
    assert(le_u32(all, 4) == format.sample_rate);
    assert(le_u16(all, 14) == format.bits_per_sample);
}

/// A format chunk of any announced size from sixteen bytes on sets the format
/// that its first sixteen bytes describe, in place of any format before, and
/// what is read next stands behind all of its bytes and their padding.
pub proof fn law_format_chunk_is_read(
    size: Seq<u8>,
    body: Seq<u8>,
    pad: Seq<u8>,
    rest: Seq<u8>,
    before: Option<WavFormat>,
    format: WavFormat,
    samples: Seq<i16>,
)
    requires
        announces(size, body.len() as int),
        body.len() >= 16,
        pad.len() == body.len() % 2,
        is_format_in(format, body),
    ensures
        chunks_hold(
            seq![0x66u8, 0x6d, 0x74, 0x20] + size + (body + pad + rest),
            before,
            samples,
        ) == chunks_hold(rest, Some(format), samples),
{
    let tag = seq![0x66u8, 0x6d, 0x74, 0x20];
    let all = body + pad + rest;
    lemma_chunk_start(tag, size, body.len() as int, all);
    lemma_behind_body(body, pad, rest);
    lemma_format_is_known(format, body, all);
    assert(tag =~= fmt_tag());
    lemma_format_step(tag + size + all, before, samples);
}

/// A format chunk that announces more than the file holds, but whose sixteen
/// bytes are there, sets the format, and the file ends with it.
pub proof fn law_last_format_chunk_is_read(
    size: Seq<u8>,
    n: int,
    body: Seq<u8>,
    before: Option<WavFormat>,
    format: WavFormat,
    samples: Seq<i16>,
)
    requires
        announces(size, n),
        n >= body.len() >= 16,
        is_format_in(format, body),
    ensures
        chunks_hold(seq![0x66u8, 0x6d, 0x74, 0x20] + size + body, before, samples) == (
        WavContents::Audio { samples, sample_rate: format.sample_rate }),
{
    let tag = seq![0x66u8, 0x6d, 0x74, 0x20];
    lemma_chunk_start(tag, size, n, body);
    lemma_format_is_known(format, body, body);
    assert(tag =~= fmt_tag());
    lemma_format_step(tag + size + body, before, samples);
    assert(chunks_hold(Seq::empty(), Some(format), samples) == (WavContents::Audio {
        samples,
        sample_rate: format.sample_rate,
    }));
}

/// A format chunk that announces fewer than sixteen bytes is malformed, and one
/// that announces more than the file still holds of its sixteen is cut.
pub proof fn law_format_chunk_needs_sixteen_bytes(
    size: Seq<u8>,
    n: int,
    behind: Seq<u8>,
    before: Option<WavFormat>,
    samples: Seq<i16>,
)
    requires
        announces(size, n),
    ensures
        n < 16 ==> chunks_hold(
            seq![0x66u8, 0x6d, 0x74, 0x20] + size + behind,
            before,
            samples,
        ) == WavContents::Fault(WavFault::Malformed("fmt chunk too small"@)),
        n >= 16 && behind.len() < 16 ==> chunks_hold(
            seq![0x66u8, 0x6d, 0x74, 0x20] + size + behind,
            before,
            samples,
        ) is CutFormat,
{
    lemma_chunk_start(seq![0x66u8, 0x6d, 0x74, 0x20], size, n, behind);
}

/// A data chunk of 16-bit PCM holds the samples that stand in its body, mixed
/// down to mono, in place of any samples before; what is read next stands
/// behind all of its bytes and their padding.
pub proof fn law_data_chunk_is_read(
    size: Seq<u8>,
    body: Seq<u8>,
    pad: Seq<u8>,
    rest: Seq<u8>,
    format: WavFormat,
    before: Seq<i16>,
    raw: Seq<i16>,
    mono: Seq<i16>,
)
    requires
        announces(size, body.len() as int),
        pad.len() == body.len() % 2,
        format.audio_format == 1,
        format.bits_per_sample == 16,
        are_samples_in(raw, body),
        is_mono_of(mono, raw, format.num_channels),
    ensures
        chunks_hold(
            seq![0x64u8, 0x61, 0x74, 0x61] + size + (body + pad + rest),
            Some(format),
            before,
        ) == chunks_hold(rest, Some(format), mono),
{
    let all = body + pad + rest;
    lemma_chunk_start(seq![0x64u8, 0x61, 0x74, 0x61], size, body.len() as int, all);
    lemma_behind_body(body, pad, rest);
    lemma_samples_are_known(raw, body);
    lemma_mono_is_known(mono, raw, format.num_channels);
    assert(fmt_tag()[0] != seq![0x64u8, 0x61, 0x74, 0x61][0]);
    if body.len() == all.len() {
        assert(all =~= body);
    }
}

/// A data chunk that announces as much as the file still holds, or more, holds
/// the samples that are there, and the file ends with it.
pub proof fn law_last_data_chunk_is_read(
    size: Seq<u8>,
    n: int,
    body: Seq<u8>,
    format: WavFormat,
    before: Seq<i16>,
    raw: Seq<i16>,
    mono: Seq<i16>,
)
    requires
        announces(size, n),
        n >= body.len(),
        format.audio_format == 1,
        format.bits_per_sample == 16,
        are_samples_in(raw, body),
        is_mono_of(mono, raw, format.num_channels),
    ensures
        chunks_hold(seq![0x64u8, 0x61, 0x74, 0x61] + size + body, Some(format), before) == (
        WavContents::Audio { samples: mono, sample_rate: format.sample_rate }),
{
    lemma_chunk_start(seq![0x64u8, 0x61, 0x74, 0x61], size, n, body);
    lemma_samples_are_known(raw, body);
    lemma_mono_is_known(mono, raw, format.num_channels);
    assert(fmt_tag()[0] != seq![0x64u8, 0x61, 0x74, 0x61][0]);
    assert(chunks_hold(Seq::empty(), Some(format), mono) == (WavContents::Audio {
        samples: mono,
        sample_rate: format.sample_rate,
    }));
}

/// A data chunk without a format before it is malformed; one in another format
/// than PCM, or else of another depth than sixteen bits, is not supported.
pub proof fn law_data_chunk_needs_its_format(
    size: Seq<u8>,
    n: int,
    behind: Seq<u8>,
    format: WavFormat,
    samples: Seq<i16>,
)
    requires
        announces(size, n),
    ensures
        chunks_hold(seq![0x64u8, 0x61, 0x74, 0x61] + size + behind, None, samples)
            == WavContents::Fault(WavFault::Malformed("data chunk before fmt chunk"@)),
        format.audio_format != 1 ==> chunks_hold(
            seq![0x64u8, 0x61, 0x74, 0x61] + size + behind,
            Some(format),
            samples,
        ) == WavContents::Fault(WavFault::Unsupported("Only PCM format supported"@)),
        format.audio_format == 1 && format.bits_per_sample != 16 ==> chunks_hold(
            seq![0x64u8, 0x61, 0x74, 0x61] + size + behind,
            Some(format),
            samples,
        ) == WavContents::Fault(WavFault::Unsupported("Only 16-bit samples supported"@)),
{
    lemma_chunk_start(seq![0x64u8, 0x61, 0x74, 0x61], size, n, behind);
    assert(fmt_tag()[0] != seq![0x64u8, 0x61, 0x74, 0x61][0]);
}

/// Any other chunk is passed over, its bytes and their padding with it.
pub proof fn law_other_chunk_is_passed_over(
    tag: Seq<u8>,
    size: Seq<u8>,
    body: Seq<u8>,
    pad: Seq<u8>,
    rest: Seq<u8>,
    format: Option<WavFormat>,
    samples: Seq<i16>,
)
    requires
        tag.len() == 4,
        tag != seq![0x66u8, 0x6d, 0x74, 0x20],
        tag != seq![0x64u8, 0x61, 0x74, 0x61],
        announces(size, body.len() as int),
        pad.len() == body.len() % 2,
    ensures
        chunks_hold(tag + size + (body + pad + rest), format, samples) == chunks_hold(
            rest,
            format,
            samples,
        ),
{
    lemma_chunk_start(tag, size, body.len() as int, body + pad + rest);
    lemma_behind_body(body, pad, rest);
}

/// Any other chunk that announces as much as the file still holds, or more,
/// ends it.
pub proof fn law_last_other_chunk_ends_the_file(
    tag: Seq<u8>,
    size: Seq<u8>,
    n: int,
    body: Seq<u8>,
    format: Option<WavFormat>,
    samples: Seq<i16>,
)
    requires
        tag.len() == 4,
        tag != seq![0x66u8, 0x6d, 0x74, 0x20],
        tag != seq![0x64u8, 0x61, 0x74, 0x61],
        announces(size, n),
        n >= body.len(),
    ensures
        chunks_hold(tag + size + body, format, samples) == chunks_hold(
            Seq::empty(),
            format,
            samples,
        ),
{
    lemma_chunk_start(tag, size, n, body);
}

/// Where fewer than eight bytes are left the file has ended: it holds the last
/// samples at the rate of the last format, and without a format it is
/// malformed.
pub proof fn law_file_holds_its_last_samples(
    tail: Seq<u8>,
    format: WavFormat,
    samples: Seq<i16>,
)
    requires
        tail.len() < 8,
    ensures
        chunks_hold(tail, Some(format), samples) == (WavContents::Audio {
            samples,
            sample_rate: format.sample_rate,
        }),
        chunks_hold(tail, None, samples) == WavContents::Fault(
            WavFault::Malformed("No fmt chunk found"@),
        ),
{
}

/// A result agrees with what a file holds in nothing less than the samples and
/// the rate, or the kind of the error and its text.
pub proof fn law_result_tells_what_the_file_holds(
    result: Result<(Vec<i16>, u32), AudioParseError>,
    samples: Seq<i16>,
    sample_rate: u32,
    text: Seq<char>,
)
    ensures
        parse_agrees(result, WavContents::Audio { samples, sample_rate }) <==> match result {
            Ok((found, rate)) => found@ == samples && rate == sample_rate,
            Err(_) => false,
        },
        parse_agrees(result, WavContents::Fault(WavFault::Malformed(text))) <==> match result {
            Err(AudioParseError::Malformed(reason)) => reason@ == text,
            _ => false,
        },
        parse_agrees(result, WavContents::Fault(WavFault::Unsupported(text))) <==> match result {
            Err(AudioParseError::Unsupported(reason)) => reason@ == text,
            _ => false,
        },
{
}

/// The mono samples of a stereo file are the averages of its frames: each lies
/// between the two samples of its frame, as far from the one as from the other
/// up to the rounding of a half.
pub proof fn law_stereo_file_is_averaged(raw: Seq<i16>, i: int)
    requires
        0 <= i,
        2 * i + 1 < raw.len(),
    ensures
        ({
            let left = raw[2 * i] as int;
            let right = raw[2 * i + 1] as int;
            let mono = mono_of(raw, 2)[i] as int;
            &&& mono_of(raw, 2) == stereo_averaged(raw)
            &&& left <= mono <= right || right <= mono <= left
            &&& -1 <= 2 * mono - (left + right) <= 1
            &&& is_average(left, right, mono)
        }),
{
}

} // verus!
