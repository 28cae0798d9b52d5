//! Sample buffer arithmetic for voice activity detection and mixing.
//!
//! Every function works on the common prefix of its buffers and leaves the
//! rest of the destination as it was.

use vstd::prelude::*;

verus! {

/// The absolute value of a sample, with `i16::MIN` held at `i16::MAX`.
pub open spec fn saturated_abs(s: i16) -> int {
    if s == i16::MIN {
        i16::MAX as int
    } else if s < 0 {
        -s
    } else {
        s as int
    }
}

/// The sum of a destination sample and a source sample, wrapped to 32 bits.
pub open spec fn wrapped_sum(a: int, b: int) -> int {
    if a + b > i32::MAX {
        a + b - 0x1_0000_0000
    } else if a + b < i32::MIN {
        a + b + 0x1_0000_0000
    } else {
        a + b
    }
}

/// A mixed value held to the range of a 16-bit sample.
pub open spec fn saturated(v: int) -> int {
    if v < i16::MIN {
        i16::MIN as int
    } else if v > i16::MAX {
        i16::MAX as int
    } else {
        v
    }
}

/// Half of a sum, rounded toward zero.
pub open spec fn half_toward_zero(sum: int) -> int {
    if sum >= 0 {
        sum / 2
    } else {
        -((-sum) / 2)
    }
}

/// `dst` with its common prefix with `src` overwritten by `src`.
pub open spec fn widened(src: Seq<i16>, dst: Seq<i32>) -> Seq<i32> {
    Seq::new(
        dst.len(),
        |i: int|
            if i < src.len() {
                src[i] as i32
            } else {
                dst[i]
            },
    )
}

/// `dst` with `src` added to their common prefix.
pub open spec fn accumulated(src: Seq<i16>, dst: Seq<i32>) -> Seq<i32> {
    Seq::new(
        dst.len(),
        |i: int|
            if i < src.len() {
                wrapped_sum(dst[i] as int, src[i] as int) as i32
            } else {
                dst[i]
            },
    )
}

/// `dst` with its common prefix with `src` overwritten by the saturated `src`.
pub open spec fn clamped(src: Seq<i32>, dst: Seq<i16>) -> Seq<i16> {
    Seq::new(
        dst.len(),
        |i: int|
            if i < src.len() {
                saturated(src[i] as int) as i16
            } else {
                dst[i]
            },
    )
}

/// How many mono samples `stereo_to_mono_i16` writes.
pub open spec fn mono_len(stereo: Seq<i16>, mono: Seq<i16>) -> int {
    if stereo.len() / 2 < mono.len() {
        (stereo.len() / 2) as int
    } else {
        mono.len() as int
    }
}

/// `mono` with its first samples overwritten by the averaged stereo frames.
pub open spec fn averaged(stereo: Seq<i16>, mono: Seq<i16>) -> Seq<i16> {
    let count = mono_len(stereo, mono);
    Seq::new(
        mono.len(),
        |i: int|
            if i < count {
                half_toward_zero(stereo[2 * i] + stereo[2 * i + 1]) as i16
            } else {
                mono[i]
            },
    )
}

/// The largest absolute value of the samples, 0 where there are none.
pub open spec fn peak(samples: Seq<i16>) -> int
    decreases samples.len(),
{
    if samples.len() == 0 {
        0
    } else if saturated_abs(samples.last()) > peak(samples.drop_last()) {
        saturated_abs(samples.last())
    } else {
        peak(samples.drop_last())
    }
}

/// Max absolute value of the samples, 0 for an empty buffer.
///
/// `i16::MIN` has no 16-bit absolute value and counts as `i16::MAX`.
/// This is the hot path for voice activity detection.
pub fn max_abs_i16(samples: &[i16]) -> (max: i16)
    ensures
        max == peak(samples@),
        samples@.len() == 0 ==> max == 0,
        samples@.len() > 0 ==> exists|i: int|
            0 <= i < samples@.len() && max == #[trigger] saturated_abs(samples@[i]),
        forall|i: int| 0 <= i < samples@.len() ==> #[trigger] saturated_abs(samples@[i]) <= max,
{
    let mut max: i16 = 0;
    let mut i: usize = 0;
    while i < samples.len()
        invariant
            i <= samples@.len(),
            max == peak(samples@.take(i as int)),
            max >= 0,
            i == 0 ==> max == 0,
            i > 0 ==> exists|k: int|
                0 <= k < i && max == #[trigger] saturated_abs(samples@[k]),
            forall|k: int| 0 <= k < i ==> #[trigger] saturated_abs(samples@[k]) <= max,
        decreases samples@.len() - i,
    {
        let s: i16 = samples[i];
        let abs: i16 = if s == i16::MIN {
            i16::MAX
        } else if s < 0 {
            -s
        } else {
            s
        };
        assert(abs == saturated_abs(samples@[i as int]));
        assert(samples@.take(i + 1).drop_last() =~= samples@.take(i as int));
        if abs > max || i == 0 {
            max = abs;
        }
        i += 1;
    }
    assert(samples@.take(i as int) =~= samples@);
    max
}

/// Widens `src` into `dst` (first speaker, overwrites `dst`).
pub fn widen_i16_to_i32(src: &[i16], dst: &mut [i32])
    ensures
        final(dst)@ == widened(src@, old(dst)@),
{
    let len: usize = if src.len() < dst.len() {
        src.len()
    } else {
        dst.len()
    };
    let mut i: usize = 0;
    while i < len
        invariant
            i <= len <= src@.len(),
            len <= dst@.len(),
            dst@.len() == old(dst)@.len(),
            forall|k: int| 0 <= k < i ==> #[trigger] dst@[k] == src@[k],
            forall|k: int| i <= k < dst@.len() ==> #[trigger] dst@[k] == old(dst)@[k],
        decreases len - i,
    {
        dst[i] = src[i] as i32;
        i += 1;
    }
    assert(dst@ =~= widened(src@, old(dst)@));
}

/// Adds `src` onto `dst` (mixes an additional speaker), wrapping on overflow.
pub fn accumulate_i16_to_i32(src: &[i16], dst: &mut [i32])
    ensures
        final(dst)@ == accumulated(src@, old(dst)@),
{
    let len: usize = if src.len() < dst.len() {
        src.len()
    } else {
        dst.len()
    };
    let mut i: usize = 0;
    while i < len
        invariant
            i <= len <= src@.len(),
            len <= dst@.len(),
            dst@.len() == old(dst)@.len(),
            forall|k: int|
                0 <= k < i ==> #[trigger] dst@[k] == wrapped_sum(
                    old(dst)@[k] as int,
                    src@[k] as int,
                ),
            forall|k: int| i <= k < dst@.len() ==> #[trigger] dst@[k] == old(dst)@[k],
        decreases len - i,
    {
        dst[i] = dst[i].wrapping_add(src[i] as i32);
        i += 1;
    }
    assert(dst@ =~= accumulated(src@, old(dst)@));
}

/// Clamps the mixed values of `src` to the 16-bit range.
pub fn clamp_i32_to_i16(src: &[i32], dst: &mut [i16])
    ensures
        final(dst)@ == clamped(src@, old(dst)@),
{
    let len: usize = if src.len() < dst.len() {
        src.len()
    } else {
        dst.len()
    };
    let mut i: usize = 0;
    while i < len
        invariant
            i <= len <= src@.len(),
            len <= dst@.len(),
            dst@.len() == old(dst)@.len(),
            forall|k: int| 0 <= k < i ==> #[trigger] dst@[k] == saturated(src@[k] as int),
            forall|k: int| i <= k < dst@.len() ==> #[trigger] dst@[k] == old(dst)@[k],
        decreases len - i,
    {
        let v: i32 = src[i];
        dst[i] = if v < -32768 {
            -32768
        } else if v > 32767 {
            32767
        } else {
            v as i16
        };
        i += 1;
    }
    assert(dst@ =~= clamped(src@, old(dst)@));
}

/// Half of a sum of two samples, rounded toward zero.
pub(crate) fn half_sum(left: i16, right: i16) -> (half: i16)
    ensures
        half == half_toward_zero(left + right),
{
    let sum: i32 = left as i32 + right as i32;
    if sum >= 0 {
        (sum / 2) as i16
    } else {
        (-((-sum) / 2)) as i16
    }
}

/// Averages adjacent sample pairs (L, R) -> (L + R) / 2.
/// A half is rounded toward zero.
pub fn stereo_to_mono_i16(stereo: &[i16], mono: &mut [i16])
    ensures
        final(mono)@ == averaged(stereo@, old(mono)@),
{
    let count: usize = if stereo.len() / 2 < mono.len() {
        stereo.len() / 2
    } else {
        mono.len()
    };
    let mut i: usize = 0;
    while i < count
        invariant
            i <= count,
            count == mono_len(stereo@, old(mono)@),
            2 * count <= stereo@.len() <= usize::MAX,
            mono@.len() == old(mono)@.len(),
            forall|k: int|
                0 <= k < i ==> #[trigger] mono@[k] == half_toward_zero(
                    stereo@[2 * k] + stereo@[2 * k + 1],
                ),
            forall|k: int| i <= k < mono@.len() ==> #[trigger] mono@[k] == old(mono)@[k],
        decreases count - i,
    {
        mono[i] = half_sum(stereo[i * 2], stereo[i * 2 + 1]);
        i += 1;
    }
    assert(mono@ =~= averaged(stereo@, old(mono)@));
}

/// Widening a speaker and clamping the result gives the speaker back: a lone
/// speaker passes through the mixer unchanged.
pub proof fn law_lone_speaker_unchanged(speaker: Seq<i16>, mix: Seq<i32>, out: Seq<i16>)
    requires
        speaker.len() == mix.len() == out.len(),
    ensures
        clamped(widened(speaker, mix), out) == speaker,
{
    assert(clamped(widened(speaker, mix), out) =~= speaker);
}

/// Two speakers may be mixed in either order, whatever was mixed before them.
pub proof fn law_mix_order_irrelevant(a: Seq<i16>, b: Seq<i16>, mix: Seq<i32>)
    ensures
        accumulated(b, accumulated(a, mix)) == accumulated(a, accumulated(b, mix)),
{
    assert(accumulated(b, accumulated(a, mix)) =~= accumulated(a, accumulated(b, mix)));
}

/// The first speaker, widened, and the second, accumulated, give the same mix
/// with their roles exchanged: overwriting equals adding to silence.
pub proof fn law_first_two_speakers_interchangeable(a: Seq<i16>, b: Seq<i16>, mix: Seq<i32>)
    requires
        a.len() == b.len() == mix.len(),
    ensures
        accumulated(b, widened(a, mix)) == accumulated(a, widened(b, mix)),
        forall|i: int|
            0 <= i < mix.len() ==> #[trigger] accumulated(b, widened(a, mix))[i] == a[i] + b[i],
{
    assert(accumulated(b, widened(a, mix)) =~= accumulated(a, widened(b, mix)));
}

/// Clamping keeps every value that fits, holds every other one at the nearer
/// limit, and never reverses the order of two values.
pub proof fn law_clamp_is_saturation(v: i32, w: i32)
    ensures
        i16::MIN <= saturated(v as int) <= i16::MAX,
        i16::MIN <= v <= i16::MAX ==> saturated(v as int) == v,
        v <= w ==> saturated(v as int) <= saturated(w as int),
{
}

/// A mono sample lies between the two samples it is made of and is as far from
/// the one as from the other, up to the rounding of a half.
pub proof fn law_mono_is_the_average(stereo: Seq<i16>, mono: Seq<i16>, i: int)
    requires
        0 <= i < mono_len(stereo, mono),
    ensures
        ({
            let left = stereo[2 * i] as int;
            let right = stereo[2 * i + 1] as int;
            let got = averaged(stereo, mono)[i] as int;
            &&& left <= got <= right || right <= got <= left
            &&& -1 <= 2 * got - (left + right) <= 1
        }),
{
}

/// The absolute value that counts for a sample is the sample or its negation,
/// whichever is not negative; only the lowest sample, whose negation does not
/// fit, counts as the highest.
pub proof fn law_absolute_value(s: i16)
    ensures
        s >= 0 ==> saturated_abs(s) == s,
        -32768 < s < 0 ==> saturated_abs(s) + s == 0,
        s == -32768 ==> saturated_abs(s) == 32767,
{
}

/// Widening writes every source sample to its own place, as far as there is
/// room, and leaves every other place as it was.
pub proof fn law_widening_is_sample_by_sample(src: Seq<i16>, dst: Seq<i32>, i: int)
    requires
        0 <= i < dst.len(),
    ensures
        widened(src, dst).len() == dst.len(),
        i < src.len() ==> widened(src, dst)[i] as int - src[i] as int == 0,
        i >= src.len() ==> widened(src, dst)[i] == dst[i],
{
}

/// Accumulating adds every source sample at its own place, exactly wherever the
/// sum fits in 32 bits and modulo 2^32 elsewhere, and leaves every other place
/// as it was.
pub proof fn law_accumulating_is_sample_by_sample(src: Seq<i16>, dst: Seq<i32>, i: int)
    requires
        0 <= i < dst.len(),
    ensures
        accumulated(src, dst).len() == dst.len(),
        i < src.len() ==> (accumulated(src, dst)[i] - dst[i] - src[i]) % 0x1_0000_0000 == 0,
        i < src.len() && -0x8000_0000 <= dst[i] + src[i] < 0x8000_0000 ==> accumulated(
            src,
            dst,
        )[i] == dst[i] + src[i],
        i >= src.len() ==> accumulated(src, dst)[i] == dst[i],
{
}

/// Clamping writes at every place the source value where it fits in 16 bits and
/// the nearer limit where it does not, as far as there is room, and leaves every
/// other place as it was.
pub proof fn law_clamping_is_sample_by_sample(src: Seq<i32>, dst: Seq<i16>, i: int)
    requires
        0 <= i < dst.len(),
    ensures
        clamped(src, dst).len() == dst.len(),
        i < src.len() && -32768 <= src[i] <= 32767 ==> clamped(src, dst)[i] == src[i],
        i < src.len() && src[i] > 32767 ==> clamped(src, dst)[i] == 32767,
        i < src.len() && src[i] < -32768 ==> clamped(src, dst)[i] == -32768,
        i >= src.len() ==> clamped(src, dst)[i] == dst[i],
{
}

/// Mono samples are written for as many whole frames as there are and as there
/// is room for, each at the place of its frame; twice the sample is the sum of
/// the frame, or next to it on the side of zero. Every other place stays as it
/// was.
pub proof fn law_mono_is_written_frame_by_frame(stereo: Seq<i16>, mono: Seq<i16>, i: int)
    requires
        0 <= i < mono.len(),
    ensures
        averaged(stereo, mono).len() == mono.len(),
        2 * i + 1 < stereo.len() ==> {
            let sum = stereo[2 * i] + stereo[2 * i + 1];
            let twice = 2 * averaged(stereo, mono)[i];
            if sum >= 0 {
                twice == sum || twice == sum - 1
            } else {
                twice == sum || twice == sum + 1
            }
        },
        2 * i + 1 >= stereo.len() ==> averaged(stereo, mono)[i] == mono[i],
{
}

/// No sample, wherever it stands, is louder than the peak, in either direction;
/// only the lowest sample is one beyond it. The peak of a longer buffer is that
/// of the louder part.
pub proof fn law_no_sample_is_beyond_the_peak(samples: Seq<i16>, i: int, more: Seq<i16>)
    requires
        0 <= i < samples.len(),
    ensures
        samples[i] <= peak(samples) <= 32767,
        samples[i] == -32768 ==> peak(samples) == 32767,
        samples[i] > -32768 ==> -samples[i] <= peak(samples),
        exists|k: int|
            0 <= k < samples.len() && (#[trigger] samples[k] == peak(samples) || -samples[k]
                == peak(samples) || samples[k] == -32768),
        peak(samples + more) >= peak(samples),
        peak(samples + more) >= peak(more),
        peak(samples + more) == peak(samples) || peak(samples + more) == peak(more),
{
    lemma_peak_is_reached(samples);
    lemma_peak_covers(samples, i);
    lemma_peak_of_both(samples, more);
}

proof fn lemma_peak_covers(samples: Seq<i16>, i: int)
    requires
        0 <= i < samples.len(),
    ensures
        saturated_abs(samples[i]) <= peak(samples) <= 32767,
    decreases samples.len(),
{
    let before = samples.drop_last();
    if i < before.len() {
        lemma_peak_covers(before, i);
        assert(before[i] == samples[i]);
    } else if before.len() > 0 {
        lemma_peak_covers(before, 0);
    } else {
        assert(peak(before) == 0);
    }
}

proof fn lemma_peak_is_reached(samples: Seq<i16>)
    requires
        samples.len() > 0,
    ensures
        exists|k: int|
            0 <= k < samples.len() && (#[trigger] samples[k] == peak(samples) || -samples[k]
                == peak(samples) || samples[k] == -32768),
    decreases samples.len(),
{
    let before = samples.drop_last();
    let last = samples[samples.len() - 1];
    if saturated_abs(samples.last()) > peak(before) || before.len() == 0 {
        assert(peak(before) == 0 || before.len() > 0);
        assert(saturated_abs(last) == peak(samples));
    } else {
        lemma_peak_is_reached(before);
        let k = choose|k: int|
            0 <= k < before.len() && (#[trigger] before[k] == peak(before) || -before[k] == peak(
                before,
            ) || before[k] == -32768);
        assert(samples[k] == before[k]);
    }
}

proof fn lemma_peak_of_both(a: Seq<i16>, b: Seq<i16>)
    ensures
        peak(a) >= 0,
        peak(b) >= 0,
        peak(a + b) == (if peak(a) > peak(b) {
            peak(a)
        } else {
            peak(b)
        }),
    decreases a.len() + b.len(),
{
    if b.len() == 0 {
        assert(a + b =~= a);
        if a.len() > 0 {
            lemma_peak_of_both(a.drop_last(), b);
        }
    } else {
        assert((a + b).drop_last() =~= a + b.drop_last());
        lemma_peak_of_both(a, b.drop_last());
    }
}

} // verus!
