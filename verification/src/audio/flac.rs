//! FLAC file parsing
//!
//! Parses FLAC file bytes to extract raw PCM i16 samples.

use crate::audio::AudioParseError;
use crate::audio::wav::average_stereo;
use crate::audio::wav::is_average;
use crate::audio::wav::law_stereo_file_is_averaged;
use crate::audio::wav::stereo_averaged;
use crate::text::decimal;
use crate::text::decimal_text;
use crate::text::join;
use vstd::prelude::*;
use vstd::string::to_string_from_display_ensures;

verus! {

/// A decoded FLAC stream.
#[derive(Debug)]
pub struct FlacStream {
    /// Sample rate in Hz
    pub sample_rate: u32,
    /// Number of channels
    pub channels: u32,
    /// Bits per sample
    pub bits_per_sample: u32,
    /// The samples of all channels, interleaved
    pub samples: Vec<i32>,
}

/// What the claxon decoder makes of the bytes of a FLAC file: sample rate,
/// number of channels, bits per sample and interleaved samples, or, where it
/// rejects the file, the text of its error.
pub uninterp spec fn flac_decoded(data: Seq<u8>) -> Result<(u32, u32, u32, Seq<i32>), Seq<char>>;

/// Whether a decoder error reads as this text: whatever its `to_string` gives
/// is this text.
pub open spec fn flac_error_reads(error: claxon::Error, text: Seq<char>) -> bool {
    forall|shown: String| #[trigger]
        to_string_from_display_ensures(&error, shown) ==> shown@ == text
}

/// Whether the `0x1fff_fffe` bytes from `start` on are there and all zero.
pub open spec fn is_long_zero_run(data: Seq<u8>, start: int) -> bool {
    &&& 0 <= start
    &&& start + 0x1fff_fffe <= data.len()
    &&& forall|i: int| start <= i < start + 0x1fff_fffe ==> #[trigger] data[i] == 0
}

/// Whether half a gigabyte of zero bytes, but for two bytes, stands in a row: no
/// shorter data can hold that.
pub open spec fn holds_long_zero_run(data: Seq<u8>) -> bool {
    exists|start: int| is_long_zero_run(data, start)
}

/// Decodes a whole FLAC file with `claxon::FlacReader`: `new` reads the header
/// and metadata, `streaminfo` gives the format, `samples` yields every sample
/// up to the end of the stream or the first error.
///
/// The outcome depends on the bytes alone, and so does the text of an error,
/// which the error's `Display` writes. The decoder counts the zero bits of a run
/// in 32 bits, one at most added to the count, so bytes that hold a run too
/// long for that are left out.
#[verifier::external_body]
fn decode_flac(data: &[u8]) -> (decoded: Result<FlacStream, claxon::Error>)
    requires
        !holds_long_zero_run(data@),
    ensures
        match decoded {
            Ok(stream) => flac_decoded(data@) == Ok::<_, Seq<char>>(
                (stream.sample_rate, stream.channels, stream.bits_per_sample, stream.samples@),
            ),
            Err(error) => {
                &&& flac_decoded(data@) matches Err(text)
                &&& flac_error_reads(error, text)
            },
        },
{
    let mut reader = claxon::FlacReader::new(std::io::Cursor::new(data))?;
    let info = reader.streaminfo();
    let samples = reader.samples().collect::<Result<Vec<i32>, claxon::Error>>()?;
    Ok(
        FlacStream {
            sample_rate: info.sample_rate,
            channels: info.channels,
            bits_per_sample: info.bits_per_sample,
            samples,
        },
    )
}

/// The low sixteen bits of a number, read as a signed number.
pub open spec fn low16(v: int) -> int {
    (v + 32768) % 65536 - 32768
}

/// Whether samples of this depth can be converted.
pub open spec fn depth_is_supported(bits_per_sample: u32) -> bool {
    bits_per_sample == 8 || bits_per_sample == 16 || bits_per_sample == 24 || bits_per_sample == 32
}

/// A sample of the given depth scaled to sixteen bits, rounding down.
pub open spec fn scaled_sample(s: int, bits_per_sample: u32) -> int {
    if bits_per_sample == 8 {
        low16(s * 256)
    } else if bits_per_sample == 16 {
        low16(s)
    } else if bits_per_sample == 24 {
        low16(s / 256)
    } else {
        low16(s / 65536)
    }
}

/// Samples of the given depth scaled to sixteen bits.
pub open spec fn scaled(samples: Seq<i32>, bits_per_sample: u32) -> Seq<i16> {
    samples.map_values(|s: i32| scaled_sample(s as int, bits_per_sample) as i16)
}

/// The first of every `n` samples.
pub open spec fn first_of_every(samples: Seq<i16>, n: nat) -> Seq<i16> {
    Seq::new((samples.len() + n - 1) as nat / n, |i: int| samples[i * n])
}

/// Interleaved channels reduced to one: two are averaged, of more than two the
/// first is taken.
pub open spec fn reduced_to_mono(samples: Seq<i16>, channels: u32) -> Seq<i16> {
    if channels == 2 {
        stereo_averaged(samples)
    } else if channels > 2 {
        first_of_every(samples, channels as nat)
    } else {
        samples
    }
}

/// Whether a result is what a decoded stream converts to: its mono samples and
/// its rate, or the error for its depth.
pub open spec fn conversion_agrees(
    result: Result<(Vec<i16>, u32), AudioParseError>,
    sample_rate: u32,
    channels: u32,
    bits_per_sample: u32,
    samples: Seq<i32>,
) -> bool {
    if depth_is_supported(bits_per_sample) {
        &&& result matches Ok(parsed)
        &&& parsed.0@ == reduced_to_mono(scaled(samples, bits_per_sample), channels)
        &&& parsed.1 == sample_rate
    } else {
        &&& result matches Err(error)
        &&& error.is_unsupported(
            "Unsupported FLAC bit depth: "@ + decimal(bits_per_sample as nat),
        )
    }
}

fn keep_low16(v: i64) -> (low: i16)
    requires
        -0x1_0000_0000_0000 <= v <= 0x1_0000_0000_0000,
    ensures
        low == low16(v as int),
{
    let shifted: i64 = v + 32768 + 0x1_0000_0000_0000;
    (shifted % 65536 - 32768) as i16
}

fn floor_div(v: i32, d: i64) -> (q: i64)
    requires
        0 < d <= 65536,
    ensures
        q == v as int / d as int,
{
    let wide: i64 = v as i64;
    if wide >= 0 {
        wide / d
    } else {
        let q: i64 = -((d - 1 - wide) / d);
        assert(q == wide as int / d as int) by (nonlinear_arith)
            requires
                wide < 0,
                d > 0,
                q == -((d - 1 - wide) as int / d as int),
        ;
        q
    }
}

fn scale_sample(s: i32, bits_per_sample: u32) -> (scaled: i16)
    requires
        depth_is_supported(bits_per_sample),
    ensures
        scaled == scaled_sample(s as int, bits_per_sample),
{
    if bits_per_sample == 8 {
        keep_low16(s as i64 * 256)
    } else if bits_per_sample == 16 {
        keep_low16(s as i64)
    } else if bits_per_sample == 24 {
        keep_low16(floor_div(s, 256))
    } else {
        keep_low16(floor_div(s, 65536))
    }
}

fn take_first_of_every(samples: &Vec<i16>, n: usize) -> (first: Vec<i16>)
    requires
        n > 0,
    ensures
        first@ == first_of_every(samples@, n as nat),
{
    let mut first: Vec<i16> = Vec::new();
    let mut pos: usize = 0;
    while pos < samples.len()
        invariant
            n > 0,
            first@.len() * n <= samples.len() + n - 1,
            pos == first@.len() * n || (pos == samples.len() && first@.len() * n >= samples.len()),
            forall|k: int| 0 <= k < first@.len() ==> #[trigger] first@[k] == samples@[k * n],
        decreases samples.len() - pos,
    {
        let ghost taken = first@.len();
        first.push(samples[pos]);
        assert((taken + 1) * n == taken * n + n) by (nonlinear_arith);
        if samples.len() - pos > n {
            pos += n;
        } else {
            pos = samples.len();
        }
    }
    proof {
        let have = first@.len() as int;
        let len = samples@.len() as int;
        let step = n as int;
        assert(have == (len + step - 1) / step) by (nonlinear_arith)
            requires
                step > 0,
                have * step >= len,
                have * step <= len + step - 1,
        ;
    }
    assert(first@ =~= first_of_every(samples@, n as nat));
    first
}

/// Converts a decoded stream to 16-bit mono samples.
pub fn flac_to_mono(stream: &FlacStream) -> (result: Result<(Vec<i16>, u32), AudioParseError>)
    ensures
        conversion_agrees(
            result,
            stream.sample_rate,
            stream.channels,
            stream.bits_per_sample,
            stream.samples@,
        ),
{
    let bits: u32 = stream.bits_per_sample;
    if bits != 8 && bits != 16 && bits != 24 && bits != 32 {
        let digits = decimal_text(bits as u64);
        return Err(
            AudioParseError::Unsupported(join("Unsupported FLAC bit depth: ", digits.as_str())),
        );
    }
    // Convert to i16 based on bit depth

    let mut samples: Vec<i16> = Vec::new();
    let mut i: usize = 0;
    while i < stream.samples.len()
        invariant
            i <= stream.samples.len(),
            bits == stream.bits_per_sample,
            depth_is_supported(bits),
            samples@.len() == i,
            forall|k: int|
                0 <= k < i ==> #[trigger] samples@[k] == scaled_sample(
                    stream.samples@[k] as int,
                    bits,
                ),
        decreases stream.samples.len() - i,
    {
        samples.push(scale_sample(stream.samples[i], bits));
        i += 1;
    }
    assert(samples@ =~= scaled(stream.samples@, bits));

    // Convert to mono (samples are interleaved)
    let mono = if stream.channels == 2 {
        average_stereo(&samples)
    } else if stream.channels > 2 {
        take_first_of_every(&samples, stream.channels as usize)
    } else {
        samples
    };
    Ok((mono, stream.sample_rate))
}

/// Parse a FLAC file and return the raw PCM i16 samples (mono) and the sample
/// rate.
///
/// Handles:
/// - Standard FLAC files
/// - Stereo to mono conversion (if needed)
/// - Various bit depths (converted to 16-bit)
///
/// The data must not hold half a gigabyte of zero bytes in a row; data shorter
/// than that never does.
pub fn parse_flac(data: &[u8]) -> (result: Result<(Vec<i16>, u32), AudioParseError>)
    requires
        !holds_long_zero_run(data@),
    ensures
        match flac_decoded(data@) {
            Ok((sample_rate, channels, bits_per_sample, samples)) => conversion_agrees(
                result,
                sample_rate,
                channels,
                bits_per_sample,
                samples,
            ),
            Err(text) => {
                &&& result matches Err(AudioParseError::Flac(error))
                &&& flac_error_reads(error, text)
            },
        },
{
    match decode_flac(data) {
        Ok(stream) => flac_to_mono(&stream),
        Err(error) => Err(AudioParseError::from(error)),
    }
}

/// A sample within its declared depth is scaled without wrapping: up by a
/// factor of 256, not at all, or down by a factor of 256 or 65536.
pub proof fn law_scaling_keeps_samples_in_range(s: i32)
    ensures
        -128 <= s < 128 ==> scaled_sample(s as int, 8) == s * 256,
        i16::MIN <= s <= i16::MAX ==> scaled_sample(s as int, 16) == s,
        -0x80_0000 <= s < 0x80_0000 ==> scaled_sample(s as int, 24) == s as int / 256,
        scaled_sample(s as int, 32) == s as int / 65536,
{
}

/// A 16-bit mono stream whose samples fit in sixteen bits comes out unchanged.
pub proof fn law_sixteen_bit_mono_unchanged(samples: Seq<i32>, channels: u32)
    requires
        channels < 2,
        forall|i: int| 0 <= i < samples.len() ==> i16::MIN <= #[trigger] samples[i] <= i16::MAX,
    ensures
        reduced_to_mono(scaled(samples, 16), channels).len() == samples.len(),
        forall|i: int|
            0 <= i < samples.len() ==> #[trigger] reduced_to_mono(scaled(samples, 16), channels)[i]
                == samples[i],
{
}

/// Whether a 16-bit sample is what a sample of the given depth scales to:
/// multiplied by 256 from eight bits, as it is from sixteen, divided by 256 or
/// 65536, rounding down, from twenty-four or thirty-two, and then taken modulo
/// 2^16.
pub open spec fn is_scaled(s: i32, bits_per_sample: u32, scaled: i16) -> bool {
    if bits_per_sample == 8 {
        (scaled - 256 * s) % 65536 == 0
    } else if bits_per_sample == 16 {
        (scaled - s) % 65536 == 0
    } else if bits_per_sample == 24 {
        (scaled - s as int / 256) % 65536 == 0
    } else {
        65536 * scaled <= s < 65536 * scaled + 65536
    }
}

proof fn lemma_sample_is_scaled(s: i32, bits_per_sample: u32)
    requires
        depth_is_supported(bits_per_sample),
    ensures
        i16::MIN <= scaled_sample(s as int, bits_per_sample) <= i16::MAX,
        is_scaled(s, bits_per_sample, scaled_sample(s as int, bits_per_sample) as i16),
{
}

/// What a decoded stream converts to is an error for its depth exactly where
/// the depth is none of 8, 16, 24 and 32 bits, and else keeps the sample rate.
/// A single channel gives all of its samples, scaled.
pub proof fn law_single_channel_is_scaled(
    result: Result<(Vec<i16>, u32), AudioParseError>,
    sample_rate: u32,
    channels: u32,
    bits_per_sample: u32,
    samples: Seq<i32>,
    i: int,
)
    requires
        conversion_agrees(result, sample_rate, channels, bits_per_sample, samples),
    ensures
        result is Ok <==> bits_per_sample == 8 || bits_per_sample == 16 || bits_per_sample == 24
            || bits_per_sample == 32,
        result matches Err(error) ==> (error matches AudioParseError::Unsupported(text) && text@
            == "Unsupported FLAC bit depth: "@ + decimal(bits_per_sample as nat)),
        result matches Ok(parsed) ==> {
            &&& parsed.1 == sample_rate
            &&& channels < 2 ==> parsed.0@.len() == samples.len()
            &&& channels < 2 && 0 <= i < samples.len() ==> is_scaled(
                samples[i],
                bits_per_sample,
                parsed.0@[i],
            )
        },
{
    if depth_is_supported(bits_per_sample) && 0 <= i < samples.len() {
        lemma_sample_is_scaled(samples[i], bits_per_sample);
    }
}

/// Two channels give the averages of their frames: each lies between the two
/// scaled samples of its frame, as far from the one as from the other up to the
/// rounding of a half. A last sample without a partner stands for itself.
pub proof fn law_two_channels_are_averaged(
    parsed: (Vec<i16>, u32),
    sample_rate: u32,
    bits_per_sample: u32,
    samples: Seq<i32>,
    i: int,
)
    requires
        conversion_agrees(Ok(parsed), sample_rate, 2, bits_per_sample, samples),
    ensures
        2 * parsed.0@.len() == samples.len() || 2 * parsed.0@.len() == samples.len() + 1,
        0 <= i && 2 * i + 1 < samples.len() ==> exists|left: i16, right: i16| #[trigger]
            is_scaled(samples[2 * i], bits_per_sample, left) && #[trigger] is_scaled(
                samples[2 * i + 1],
                bits_per_sample,
                right,
            ) && is_average(left as int, right as int, parsed.0@[i] as int) && (left
                <= parsed.0@[i] <= right || right <= parsed.0@[i] <= left),
        samples.len() % 2 == 1 ==> is_scaled(
            samples.last(),
            bits_per_sample,
            parsed.0@.last(),
        ),
{
    if 0 <= i && 2 * i + 1 < samples.len() {
        lemma_sample_is_scaled(samples[2 * i], bits_per_sample);
        lemma_sample_is_scaled(samples[2 * i + 1], bits_per_sample);
        let left = scaled_sample(samples[2 * i] as int, bits_per_sample) as i16;
        let right = scaled_sample(samples[2 * i + 1] as int, bits_per_sample) as i16;
        assert(scaled(samples, bits_per_sample)[2 * i] == left);
        assert(scaled(samples, bits_per_sample)[2 * i + 1] == right);
        law_stereo_file_is_averaged(scaled(samples, bits_per_sample), i);
        assert(is_scaled(samples[2 * i], bits_per_sample, left));
        assert(is_scaled(samples[2 * i + 1], bits_per_sample, right));
    }
    if samples.len() % 2 == 1 {
        lemma_sample_is_scaled(samples.last(), bits_per_sample);
        assert(scaled(samples, bits_per_sample).last() == scaled_sample(
            samples.last() as int,
            bits_per_sample,
        ) as i16);
    }
}

/// More than two channels give the scaled samples of the first: one for every
/// frame, a last frame that is cut included.
pub proof fn law_first_of_many_channels_is_taken(
    parsed: (Vec<i16>, u32),
    sample_rate: u32,
    channels: u32,
    bits_per_sample: u32,
    samples: Seq<i32>,
    i: int,
)
    requires
        channels > 2,
        conversion_agrees(Ok(parsed), sample_rate, channels, bits_per_sample, samples),
    ensures
        samples.len() <= parsed.0@.len() * channels < samples.len() + channels,
        0 <= i < parsed.0@.len() ==> 0 <= i * channels < samples.len() && is_scaled(
            samples[i * channels],
            bits_per_sample,
            parsed.0@[i],
        ),
{
    let n = channels as int;
    let len = samples.len() as int;
    let have = parsed.0@.len() as int;
    assert(have == (len + n - 1) / n);
    assert(len <= have * n < len + n) by (nonlinear_arith)
        requires
            have == (len + n - 1) / n,
            n > 0,
            len >= 0,
    ;
    if 0 <= i < have {
        assert(0 <= i * n && i * n <= have * n - n) by (nonlinear_arith)
            requires
                0 <= i <= have - 1,
                n > 0,
        ;
        lemma_sample_is_scaled(samples[i * n], bits_per_sample);
    }
}

} // verus!
