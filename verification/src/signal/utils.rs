//! Stateless transforms of a track. Each returns a new track with the rate
//! and the ticks of the one it was given.

use vstd::prelude::*;
use vstd::arithmetic::div_mod::{
    lemma_fundamental_div_mod,
    lemma_fundamental_div_mod_converse,
    lemma_mod_bound,
};
use crate::audio::track::{volumes_of, AudioTrack};
use crate::signal::decibel::{below_decibels, decibel_threshold};
use crate::units::{clamp_i64, div_trunc, magnitude, magnitude_of, saturate, trunc_div, SCALE};

verus! {

/// `volume` times `gain`, both in millionths, rounded toward zero and kept
/// within the range of an amplitude.
pub open spec fn scaled(volume: i64, gain: i64) -> i64 {
    clamp_i64(trunc_div(gain as int * volume as int, SCALE as int)) as i64
}

/// The samples with every amplitude multiplied by `gain`.
pub open spec fn gained(samples: Seq<(u64, i64)>, gain: i64) -> Seq<(u64, i64)> {
    Seq::new(samples.len(), |i: int| (samples[i].0, scaled(samples[i].1, gain)))
}

/// The amplitude with a magnitude below `threshold` replaced by zero.
pub open spec fn gated(volume: i64, threshold: int) -> i64 {
    if magnitude(volume as int) < threshold {
        0
    } else {
        volume
    }
}

/// The samples with every amplitude whose magnitude is below `threshold`
/// replaced by zero.
pub open spec fn suppressed(samples: Seq<(u64, i64)>, threshold: int) -> Seq<(u64, i64)> {
    Seq::new(samples.len(), |i: int| (samples[i].0, gated(samples[i].1, threshold)))
}

/// The samples with every amplitude that is below the level of `level`
/// tenths of a decibel, which is `10^(level/200)`, replaced by zero.
pub open spec fn cut_off(samples: Seq<(u64, i64)>, level: int) -> Seq<(u64, i64)> {
    Seq::new(
        samples.len(),
        |i: int|
            (
                samples[i].0,
                if below_decibels(magnitude(samples[i].1 as int), level) {
                    0i64
                } else {
                    samples[i].1
                },
            ),
    )
}

/// The magnitude of an amplitude as an amplitude: the one value whose
/// magnitude does not fit becomes the largest that does.
pub open spec fn rectified_volume(volume: i64) -> i64 {
    clamp_i64(magnitude(volume as int)) as i64
}

/// The samples with every amplitude replaced by its magnitude.
pub open spec fn rectified(samples: Seq<(u64, i64)>) -> Seq<(u64, i64)> {
    Seq::new(samples.len(), |i: int| (samples[i].0, rectified_volume(samples[i].1)))
}

/// The first difference of the amplitudes: zero at the first sample, and at
/// each later one the step from the sample before, kept within range.
pub open spec fn differenced(samples: Seq<(u64, i64)>) -> Seq<(u64, i64)> {
    Seq::new(
        samples.len(),
        |i: int|
            (
                samples[i].0,
                if i == 0 {
                    0i64
                } else {
                    clamp_i64(samples[i].1 - samples[i - 1].1) as i64
                },
            ),
    )
}

/// The sum of the amplitudes that are not negative.
pub open spec fn nonneg_sum(volumes: Seq<i64>) -> int
    decreases volumes.len(),
{
    if volumes.len() == 0 {
        0
    } else {
        nonneg_sum(volumes.drop_last()) + if volumes.last() >= 0 {
            volumes.last() as int
        } else {
            0
        }
    }
}

/// How many amplitudes are not negative.
pub open spec fn nonneg_count(volumes: Seq<i64>) -> int
    decreases volumes.len(),
{
    if volumes.len() == 0 {
        0
    } else {
        nonneg_count(volumes.drop_last()) + if volumes.last() >= 0 {
            1int
        } else {
            0
        }
    }
}

/// The sum of the magnitudes of the negative amplitudes.
pub open spec fn neg_sum(volumes: Seq<i64>) -> int
    decreases volumes.len(),
{
    if volumes.len() == 0 {
        0
    } else {
        neg_sum(volumes.drop_last()) + if volumes.last() < 0 {
            -(volumes.last() as int)
        } else {
            0
        }
    }
}

/// How many amplitudes are negative.
pub open spec fn neg_count(volumes: Seq<i64>) -> int
    decreases volumes.len(),
{
    if volumes.len() == 0 {
        0
    } else {
        neg_count(volumes.drop_last()) + if volumes.last() < 0 {
            1int
        } else {
            0
        }
    }
}

/// The least whole number that is not below `sum / count`, and zero where
/// there is nothing to average.
pub open spec fn mean_ceiling(sum: int, count: int) -> int {
    if count > 0 {
        (sum + count - 1) / count
    } else {
        0
    }
}

/// The noise floor of a run of amplitudes: the larger of the mean of the
/// nonnegative amplitudes and the mean magnitude of the negative ones, as
/// the least whole threshold that is not below it. An integer magnitude is
/// below this threshold exactly when it is below the larger mean itself
/// (see [`lemma_noise_floor_exact`]).
pub open spec fn noise_floor(volumes: Seq<i64>) -> int {
    let above = mean_ceiling(nonneg_sum(volumes), nonneg_count(volumes));
    let below = mean_ceiling(neg_sum(volumes), neg_count(volumes));
    if above >= below {
        above
    } else {
        below
    }
}

/// Whether `size` is below the mean `sum / count`, compared without
/// rounding; nothing is below the mean of nothing.
pub open spec fn below_mean(size: int, sum: int, count: int) -> bool {
    count > 0 && size * count < sum
}

/// The largest of the `width` amplitudes that start at `start`.
pub open spec fn block_max(volumes: Seq<i64>, start: int, width: int) -> i64
    recommends
        0 <= start,
        1 <= width,
        start + width <= volumes.len(),
    decreases width,
{
    if width <= 1 {
        volumes[start]
    } else {
        let rest = block_max(volumes, start, width - 1);
        let last = volumes[start + width - 1];
        if last > rest {
            last
        } else {
            rest
        }
    }
}

/// The sum of the `width` amplitudes that start at `start`.
pub open spec fn block_sum(volumes: Seq<i64>, start: int, width: int) -> int
    recommends
        0 <= start,
        0 <= width,
        start + width <= volumes.len(),
    decreases width,
{
    if width <= 0 {
        0
    } else {
        block_sum(volumes, start, width - 1) + volumes[start + width - 1]
    }
}

/// The mean of the `width` amplitudes that start at `start`, rounded toward
/// zero.
pub open spec fn block_mean(volumes: Seq<i64>, start: int, width: int) -> i64 {
    trunc_div(block_sum(volumes, start, width), width) as i64
}

/// The number of samples that lie in whole blocks of `window` samples, the
/// blocks laid end to end from the first sample on.
pub open spec fn blocked_len(len: int, window: int) -> int {
    len - len % window
}

/// The index at which the block that holds index `i` starts.
pub open spec fn block_start(i: int, window: int) -> int {
    i - i % window
}

/// The samples with every amplitude inside a whole block replaced by the
/// largest amplitude of its block; the samples after the last whole block
/// stay as they are.
pub open spec fn block_maxed(samples: Seq<(u64, i64)>, window: int) -> Seq<(u64, i64)> {
    Seq::new(
        samples.len(),
        |i: int|
            (
                samples[i].0,
                if i < blocked_len(samples.len() as int, window) {
                    block_max(volumes_of(samples), block_start(i, window), window)
                } else {
                    samples[i].1
                },
            ),
    )
}

/// The samples with every amplitude inside a whole block replaced by the
/// mean of its block; the samples after the last whole block stay as they
/// are.
pub open spec fn block_meaned(samples: Seq<(u64, i64)>, window: int) -> Seq<(u64, i64)> {
    Seq::new(
        samples.len(),
        |i: int|
            (
                samples[i].0,
                if i < blocked_len(samples.len() as int, window) {
                    block_mean(volumes_of(samples), block_start(i, window), window)
                } else {
                    samples[i].1
                },
            ),
    )
}

/// Scales every amplitude by `gain`, a factor in millionths.
pub fn apply_gain(track: &AudioTrack, gain: i64) -> (out: AudioTrack)
    ensures
        out.samplerate == track.samplerate,
        out.track@ == gained(track.track@, gain),
{
    let mut samples: Vec<(u64, i64)> = Vec::new();
    let mut i: usize = 0;
    while i < track.track.len()
        invariant
            i <= track.track.len(),
            samples@ == gained(track.track@.take(i as int), gain),
        decreases track.track.len() - i,
    {
        let (tick, volume) = track.track[i];
        assert(-0x4000_0000_0000_0000_0000_0000_0000_0000 <= gain as int * volume as int
            <= 0x4000_0000_0000_0000_0000_0000_0000_0000) by (nonlinear_arith)
            requires
                -0x8000_0000_0000_0000 <= gain <= 0x7fff_ffff_ffff_ffff,
                -0x8000_0000_0000_0000 <= volume <= 0x7fff_ffff_ffff_ffff,
        ;
        let product: i128 = (gain as i128) * (volume as i128);
        let value: i64 = saturate(div_trunc(product, 1_000_000));
        samples.push((tick, value));
        i += 1;
        assert(samples@ =~= gained(track.track@.take(i as int), gain));
    }
    assert(track.track@.take(i as int) =~= track.track@);
    AudioTrack { samplerate: track.samplerate, track: samples }
}

/// Zeroes every sample whose magnitude is below `threshold`, and leaves the
/// others as they are.
pub fn suppress_below(track: &AudioTrack, threshold: u64) -> (out: AudioTrack)
    ensures
        out.samplerate == track.samplerate,
        out.track@ == suppressed(track.track@, threshold as int),
{
    let mut samples: Vec<(u64, i64)> = Vec::new();
    let mut i: usize = 0;
    while i < track.track.len()
        invariant
            i <= track.track.len(),
            samples@ == suppressed(track.track@.take(i as int), threshold as int),
        decreases track.track.len() - i,
    {
        let (tick, volume) = track.track[i];
        let value: i64 = if magnitude_of(volume) < threshold {
            0
        } else {
            volume
        };
        samples.push((tick, value));
        i += 1;
        assert(samples@ =~= suppressed(track.track@.take(i as int), threshold as int));
    }
    assert(track.track@.take(i as int) =~= track.track@);
    AudioTrack { samplerate: track.samplerate, track: samples }
}

/// Replaces each amplitude by the step from the amplitude before it; the
/// first sample, which has none before it, becomes zero.
pub fn apply_diff(track: &AudioTrack) -> (out: AudioTrack)
    ensures
        out.samplerate == track.samplerate,
        out.track@ == differenced(track.track@),
{
    let mut samples: Vec<(u64, i64)> = Vec::new();
    let mut i: usize = 0;
    while i < track.track.len()
        invariant
            i <= track.track.len(),
            samples@ == differenced(track.track@).take(i as int),
        decreases track.track.len() - i,
    {
        let (tick, volume) = track.track[i];
        let value: i64 = if i == 0 {
            0
        } else {
            saturate((volume as i128) - (track.track[i - 1].1 as i128))
        };
        samples.push((tick, value));
        i += 1;
        assert(samples@ =~= differenced(track.track@).take(i as int));
    }
    assert(differenced(track.track@).take(i as int) =~= differenced(track.track@));
    AudioTrack { samplerate: track.samplerate, track: samples }
}

/// Replaces each amplitude by its magnitude.
pub fn abs(track: &AudioTrack) -> (out: AudioTrack)
    ensures
        out.samplerate == track.samplerate,
        out.track@ == rectified(track.track@),
{
    let mut samples: Vec<(u64, i64)> = Vec::new();
    let mut i: usize = 0;
    while i < track.track.len()
        invariant
            i <= track.track.len(),
            samples@ == rectified(track.track@.take(i as int)),
        decreases track.track.len() - i,
    {
        let (tick, volume) = track.track[i];
        let size: u64 = magnitude_of(volume);
        let value: i64 = if size > 0x7fff_ffff_ffff_ffff {
            i64::MAX
        } else {
            size as i64
        };
        samples.push((tick, value));
        i += 1;
        assert(samples@ =~= rectified(track.track@.take(i as int)));
    }
    assert(track.track@.take(i as int) =~= track.track@);
    AudioTrack { samplerate: track.samplerate, track: samples }
}

/// A whole `size` is below [`mean_ceiling`] exactly when it is below the
/// mean itself.
pub proof fn lemma_mean_ceiling_exact(size: int, sum: int, count: int)
    requires
        0 <= sum,
        0 <= count,
    ensures
        size < mean_ceiling(sum, count) <==> (if count > 0 {
            below_mean(size, sum, count)
        } else {
            size < 0
        }),
{
    if count > 0 {
        let top = sum + count - 1;
        let q = top / count;
        lemma_fundamental_div_mod(top, count);
        lemma_mod_bound(top, count);
        assert(top == count * q + top % count);
        if size < q {
            assert(size * count < sum) by (nonlinear_arith)
                requires
                    size + 1 <= q,
                    count > 0,
                    count * q <= sum + count - 1,
            ;
        } else {
            assert(size * count >= sum) by (nonlinear_arith)
                requires
                    size >= q,
                    count > 0,
                    count * q + count > sum + count - 1,
            ;
        }
    }
}

/// A magnitude is below the noise floor exactly when it is below the mean
/// of the nonnegative amplitudes or below the mean magnitude of the negative
/// ones, each compared without rounding.
pub proof fn lemma_noise_floor_exact(volumes: Seq<i64>, size: int)
    requires
        0 <= size,
    ensures
        size < noise_floor(volumes) <==> (below_mean(size, nonneg_sum(volumes), nonneg_count(volumes))
            || below_mean(size, neg_sum(volumes), neg_count(volumes))),
{
    lemma_sums_bounded(volumes);
    lemma_mean_ceiling_exact(size, nonneg_sum(volumes), nonneg_count(volumes));
    lemma_mean_ceiling_exact(size, neg_sum(volumes), neg_count(volumes));
}

/// The sums and counts behind the noise floor are bounded by the length.
pub proof fn lemma_sums_bounded(volumes: Seq<i64>)
    ensures
        0 <= nonneg_count(volumes) <= volumes.len(),
        0 <= neg_count(volumes) <= volumes.len(),
        nonneg_count(volumes) + neg_count(volumes) == volumes.len(),
        0 <= nonneg_sum(volumes) <= nonneg_count(volumes) * 0x7fff_ffff_ffff_ffff,
        0 <= neg_sum(volumes) <= neg_count(volumes) * 0x8000_0000_0000_0000,
    decreases volumes.len(),
{
    if volumes.len() > 0 {
        lemma_sums_bounded(volumes.drop_last());
    }
}

/// The noise floor of a track's amplitudes.
pub fn noise_floor_of(track: &AudioTrack) -> (floor: u64)
    ensures
        floor as int == noise_floor(volumes_of(track.track@)),
{
    let ghost volumes = volumes_of(track.track@);
    let mut above_sum: u128 = 0;
    let mut above_count: u128 = 0;
    let mut below_sum: u128 = 0;
    let mut below_count: u128 = 0;
    let mut i: usize = 0;
    while i < track.track.len()
        invariant
            i <= track.track.len(),
            volumes == volumes_of(track.track@),
            above_sum as int == nonneg_sum(volumes.take(i as int)),
            above_count as int == nonneg_count(volumes.take(i as int)),
            below_sum as int == neg_sum(volumes.take(i as int)),
            below_count as int == neg_count(volumes.take(i as int)),
        decreases track.track.len() - i,
    {
        let volume: i64 = track.track[i].1;
        proof {
            lemma_sums_bounded(volumes.take(i as int));
            assert(volumes.take(i + 1).drop_last() =~= volumes.take(i as int));
            assert(nonneg_count(volumes.take(i as int)) * 0x7fff_ffff_ffff_ffff
                <= i * 0x7fff_ffff_ffff_ffff) by (nonlinear_arith)
                requires
                    nonneg_count(volumes.take(i as int)) <= i,
            ;
            assert(neg_count(volumes.take(i as int)) * 0x8000_0000_0000_0000 <= i
                * 0x8000_0000_0000_0000) by (nonlinear_arith)
                requires
                    neg_count(volumes.take(i as int)) <= i,
            ;
            assert(i * 0x8000_0000_0000_0000 <= 0xffff_ffff_ffff_ffff * 0x8000_0000_0000_0000)
                by (nonlinear_arith)
                requires
                    i <= 0xffff_ffff_ffff_ffff,
            ;
        }
        if volume >= 0 {
            above_sum = above_sum + (volume as u128);
            above_count = above_count + 1;
        } else {
            below_sum = below_sum + (magnitude_of(volume) as u128);
            below_count = below_count + 1;
        }
        i += 1;
    }
    proof {
        assert(volumes.take(i as int) =~= volumes);
        lemma_sums_bounded(volumes);
    }
    let above: u64 = ceiling_of_mean(above_sum, above_count);
    let below: u64 = ceiling_of_mean(below_sum, below_count);
    if above >= below {
        above
    } else {
        below
    }
}

/// [`mean_ceiling`] of a sum of `count` magnitudes.
fn ceiling_of_mean(sum: u128, count: u128) -> (mean: u64)
    requires
        count <= 0xffff_ffff_ffff_ffff,
        sum <= count * 0x8000_0000_0000_0000,
    ensures
        mean as int == mean_ceiling(sum as int, count as int),
{
    if count == 0 {
        0
    } else {
        assert(count * 0x8000_0000_0000_0000 <= 0xffff_ffff_ffff_ffff * 0x8000_0000_0000_0000)
            by (nonlinear_arith)
            requires
                count <= 0xffff_ffff_ffff_ffff,
        ;
        let top: u128 = sum + count - 1;
        let mean: u128 = top / count;
        proof {
            lemma_fundamental_div_mod(top as int, count as int);
            lemma_mod_bound(top as int, count as int);
            assert(mean <= 0x8000_0000_0000_0000) by (nonlinear_arith)
                requires
                    top == count * mean + (top as int % count as int),
                    0 <= top as int % count as int,
                    top <= count * 0x8000_0000_0000_0000 + count - 1,
                    count > 0,
            ;
        }
        mean as u64
    }
}

/// Zeroes every sample whose magnitude is below the noise floor of the
/// track, and leaves the others as they are.
pub fn remove_mean(track: &AudioTrack) -> (out: AudioTrack)
    ensures
        out.samplerate == track.samplerate,
        out.track@ == suppressed(track.track@, noise_floor(volumes_of(track.track@))),
{
    let floor: u64 = noise_floor_of(track);
    suppress_below(track, floor)
}

/// Zeroes every sample whose magnitude is below `10^(cutoff/200)`, the
/// level of `cutoff` tenths of a decibel, and leaves the others as they
/// are.
pub fn cutt_off(track: &AudioTrack, cutoff: i32) -> (out: AudioTrack)
    ensures
        out.samplerate == track.samplerate,
        out.track@ == cut_off(track.track@, cutoff as int),
{
    let threshold: u64 = decibel_threshold(cutoff);
    let out = suppress_below(track, threshold);
    assert(out.track@ =~= cut_off(track.track@, cutoff as int));
    out
}

/// Cutting off at the same level a second time changes nothing.
pub proof fn lemma_cut_off_idempotent(samples: Seq<(u64, i64)>, level: int)
    ensures
        cut_off(cut_off(samples, level), level) == cut_off(samples, level),
{
    assert(cut_off(cut_off(samples, level), level) =~= cut_off(samples, level));
}

/// What is left of a track once its noise floor is removed: every sample
/// that is not zero is as it was and reaches the floor of the track it came
/// from; and to go over the result again with that same floor zeroes
/// nothing that is not zero already, whatever a floor worked out anew would
/// zero.
pub proof fn lemma_remove_mean_keeps_floor(samples: Seq<(u64, i64)>, i: int)
    requires
        0 <= i < samples.len(),
    ensures
        ({
            let floor = noise_floor(volumes_of(samples));
            let out = suppressed(samples, floor);
            &&& out[i].1 != 0 ==> out[i] == samples[i] && magnitude(out[i].1 as int) >= floor
            &&& suppressed(out, floor)[i] == out[i]
        }),
{
}

/// Whatever a threshold leaves standing is at least as large as the
/// threshold.
pub proof fn lemma_suppressed_keeps_large(samples: Seq<(u64, i64)>, threshold: int, i: int)
    requires
        0 <= i < samples.len(),
        suppressed(samples, threshold)[i].1 != 0,
    ensures
        suppressed(samples, threshold)[i] == samples[i],
        magnitude(suppressed(samples, threshold)[i].1 as int) >= threshold,
{
}

/// Applying the same threshold a second time changes nothing: no sample
/// that the first pass kept is zeroed by the second.
pub proof fn lemma_suppressed_idempotent(samples: Seq<(u64, i64)>, threshold: int)
    ensures
        suppressed(suppressed(samples, threshold), threshold) == suppressed(samples, threshold),
{
    assert(suppressed(suppressed(samples, threshold), threshold) =~= suppressed(
        samples,
        threshold,
    ));
}

/// An index `offset` places into the block that starts at the multiple
/// `blocks * window` belongs to that block.
proof fn lemma_block_start(blocks: int, offset: int, window: int)
    requires
        0 <= blocks,
        0 <= offset < window,
    ensures
        block_start(blocks * window + offset, window) == blocks * window,
{
    lemma_fundamental_div_mod_converse(blocks * window + offset, window, blocks, offset);
}

/// The whole blocks of a run of `len` samples end at a multiple of the
/// window, at most one window short of the end of the run.
proof fn lemma_blocked_len(len: int, window: int)
    requires
        0 <= len,
        0 < window,
    ensures
        blocked_len(len, window) == (len / window) * window,
        0 <= blocked_len(len, window) <= len,
        len - blocked_len(len, window) < window,
        0 <= len / window,
{
    lemma_fundamental_div_mod(len, window);
    lemma_mod_bound(len, window);
    assert(window * (len / window) == (len / window) * window) by (nonlinear_arith);
    assert(0 <= len / window) by (nonlinear_arith)
        requires
            0 <= (len / window) * window + window,
            (len / window) * window <= len,
            len - (len / window) * window < window,
            0 <= len,
            0 < window,
    ;
}

/// The largest amplitude of a block is one of its amplitudes, and none of
/// them exceeds it.
pub proof fn lemma_block_max_is_greatest(volumes: Seq<i64>, start: int, width: int)
    requires
        0 <= start,
        1 <= width,
        start + width <= volumes.len(),
    ensures
        forall|j: int| start <= j < start + width ==> volumes[j] <= block_max(volumes, start, width),
        exists|j: int| start <= j < start + width && volumes[j] == block_max(volumes, start, width),
    decreases width,
{
    if width > 1 {
        lemma_block_max_is_greatest(volumes, start, width - 1);
        let rest = block_max(volumes, start, width - 1);
        let j = choose|j: int| start <= j < start + width - 1 && volumes[j] == rest;
        if volumes[start + width - 1] > rest {
            assert(volumes[start + width - 1] == block_max(volumes, start, width));
        } else {
            assert(volumes[j] == block_max(volumes, start, width));
        }
    } else {
        assert(volumes[start] == block_max(volumes, start, width));
    }
}

/// The sum of a block of `width` amplitudes is bounded by `width` times the
/// range of one.
proof fn lemma_block_sum_bounded(volumes: Seq<i64>, start: int, width: int)
    requires
        0 <= start,
        0 <= width,
        start + width <= volumes.len(),
    ensures
        -0x8000_0000_0000_0000 * width <= block_sum(volumes, start, width) <= 0x7fff_ffff_ffff_ffff
            * width,
    decreases width,
{
    if width > 0 {
        lemma_block_sum_bounded(volumes, start, width - 1);
    }
}

/// The mean of a block, rounded toward zero, lies within the range of an
/// amplitude.
proof fn lemma_block_mean_in_range(sum: int, width: int)
    requires
        0 < width,
        -0x8000_0000_0000_0000 * width <= sum <= 0x7fff_ffff_ffff_ffff * width,
    ensures
        -0x8000_0000_0000_0000 <= trunc_div(sum, width) <= 0x7fff_ffff_ffff_ffff,
{
    if sum >= 0 {
        lemma_fundamental_div_mod(sum, width);
        lemma_mod_bound(sum, width);
        assert(sum / width <= 0x7fff_ffff_ffff_ffff) by (nonlinear_arith)
            requires
                sum == width * (sum / width) + sum % width,
                0 <= sum % width,
                sum <= 0x7fff_ffff_ffff_ffff * width,
                0 < width,
        ;
        assert(0 <= sum / width) by (nonlinear_arith)
            requires
                sum == width * (sum / width) + sum % width,
                sum % width < width,
                0 <= sum,
                0 < width,
        ;
    } else {
        lemma_fundamental_div_mod(-sum, width);
        lemma_mod_bound(-sum, width);
        assert((-sum) / width <= 0x8000_0000_0000_0000) by (nonlinear_arith)
            requires
                -sum == width * ((-sum) / width) + (-sum) % width,
                0 <= (-sum) % width,
                -sum <= 0x8000_0000_0000_0000 * width,
                0 < width,
        ;
        assert(0 <= (-sum) / width) by (nonlinear_arith)
            requires
                -sum == width * ((-sum) / width) + (-sum) % width,
                (-sum) % width < width,
                0 <= -sum,
                0 < width,
        ;
    }
}

/// Replaces every amplitude inside a whole block of `window` samples by the
/// largest amplitude of that block. The blocks lie end to end from the
/// first sample on; what is left after the last whole block stays as it is.
pub fn sliding_max(track: &AudioTrack, window: usize) -> (out: AudioTrack)
    requires
        window > 0,
    ensures
        out.samplerate == track.samplerate,
        out.track@ == block_maxed(track.track@, window as int),
{
    let len: usize = track.track.len();
    proof {
        lemma_blocked_len(len as int, window as int);
    }
    let whole: usize = len - len % window;
    let ghost volumes = volumes_of(track.track@);
    let ghost goal = block_maxed(track.track@, window as int);
    let mut samples: Vec<(u64, i64)> = Vec::new();
    let mut start: usize = 0;
    let mut blocks: Ghost<int> = Ghost(0);
    while start < whole
        invariant
            window > 0,
            len == track.track.len(),
            whole as int == blocked_len(len as int, window as int),
            whole as int == (len as int / window as int) * window,
            whole <= len,
            0 <= blocks@ <= len as int / window as int,
            start as int == blocks@ * window,
            start <= whole,
            volumes == volumes_of(track.track@),
            goal == block_maxed(track.track@, window as int),
            samples@ == goal.take(start as int),
        decreases whole - start,
    {
        proof {
            assert(blocks@ < len as int / window as int) by (nonlinear_arith)
                requires
                    blocks@ * window < (len as int / window as int) * window,
                    window > 0,
            ;
            assert((blocks@ + 1) * window <= (len as int / window as int) * window)
                by (nonlinear_arith)
                requires
                    blocks@ + 1 <= len as int / window as int,
                    window > 0,
            ;
            assert((blocks@ + 1) * window == blocks@ * window + window) by (nonlinear_arith);
        }
        let mut best: i64 = track.track[start].1;
        let mut j: usize = 1;
        while j < window
            invariant
                1 <= j <= window,
                start + window <= whole,
                whole <= len,
                len == track.track.len(),
                volumes == volumes_of(track.track@),
                best == block_max(volumes, start as int, j as int),
            decreases window - j,
        {
            let volume: i64 = track.track[start + j].1;
            if volume > best {
                best = volume;
            }
            j += 1;
        }
        let mut k: usize = 0;
        while k < window
            invariant
                k <= window,
                start + window <= whole,
                whole <= len,
                len == track.track.len(),
                whole as int == blocked_len(len as int, window as int),
                0 <= blocks@,
                start as int == blocks@ * window,
                volumes == volumes_of(track.track@),
                goal == block_maxed(track.track@, window as int),
                best == block_max(volumes, start as int, window as int),
                samples@ == goal.take(start + k),
            decreases window - k,
        {
            proof {
                lemma_block_start(blocks@, k as int, window as int);
            }
            samples.push((track.track[start + k].0, best));
            k += 1;
            assert(samples@ =~= goal.take(start + k));
        }
        start = start + window;
        proof {
            blocks@ = blocks@ + 1;
        }
    }
    let mut i: usize = whole;
    while i < len
        invariant
            whole <= i <= len,
            len == track.track.len(),
            whole as int == blocked_len(len as int, window as int),
            goal == block_maxed(track.track@, window as int),
            samples@ == goal.take(i as int),
        decreases len - i,
    {
        samples.push(track.track[i]);
        i += 1;
        assert(samples@ =~= goal.take(i as int));
    }
    assert(goal.take(len as int) =~= goal);
    AudioTrack { samplerate: track.samplerate, track: samples }
}

/// Replaces every amplitude inside a whole block of `window` samples by the
/// mean of that block, rounded toward zero. The blocks lie end to end from
/// the first sample on; what is left after the last whole block stays as it
/// is.
pub fn sliding_mean(track: &AudioTrack, window: usize) -> (out: AudioTrack)
    requires
        window > 0,
    ensures
        out.samplerate == track.samplerate,
        out.track@ == block_meaned(track.track@, window as int),
{
    let len: usize = track.track.len();
    proof {
        lemma_blocked_len(len as int, window as int);
    }
    let whole: usize = len - len % window;
    let ghost volumes = volumes_of(track.track@);
    let ghost goal = block_meaned(track.track@, window as int);
    let mut samples: Vec<(u64, i64)> = Vec::new();
    let mut start: usize = 0;
    let mut blocks: Ghost<int> = Ghost(0);
    while start < whole
        invariant
            window > 0,
            len == track.track.len(),
            whole as int == blocked_len(len as int, window as int),
            whole as int == (len as int / window as int) * window,
            whole <= len,
            0 <= blocks@ <= len as int / window as int,
            start as int == blocks@ * window,
            start <= whole,
            volumes == volumes_of(track.track@),
            goal == block_meaned(track.track@, window as int),
            samples@ == goal.take(start as int),
        decreases whole - start,
    {
        proof {
            assert(blocks@ < len as int / window as int) by (nonlinear_arith)
                requires
                    blocks@ * window < (len as int / window as int) * window,
                    window > 0,
            ;
            assert((blocks@ + 1) * window <= (len as int / window as int) * window)
                by (nonlinear_arith)
                requires
                    blocks@ + 1 <= len as int / window as int,
                    window > 0,
            ;
            assert((blocks@ + 1) * window == blocks@ * window + window) by (nonlinear_arith);
        }
        let mut sum: i128 = 0;
        let mut j: usize = 0;
        while j < window
            invariant
                j <= window,
                start + window <= whole,
                whole <= len,
                len == track.track.len(),
                volumes == volumes_of(track.track@),
                sum as int == block_sum(volumes, start as int, j as int),
            decreases window - j,
        {
            proof {
                lemma_block_sum_bounded(volumes, start as int, j as int);
                assert(-0x8000_0000_0000_0000 * 0xffff_ffff_ffff_ffff <= -0x8000_0000_0000_0000
                    * j) by (nonlinear_arith)
                    requires
                        j <= 0xffff_ffff_ffff_ffff,
                ;
                assert(0x7fff_ffff_ffff_ffff * j <= 0x7fff_ffff_ffff_ffff * 0xffff_ffff_ffff_ffff)
                    by (nonlinear_arith)
                    requires
                        j <= 0xffff_ffff_ffff_ffff,
                ;
            }
            sum = sum + (track.track[start + j].1 as i128);
            j += 1;
        }
        proof {
            lemma_block_sum_bounded(volumes, start as int, window as int);
            lemma_block_mean_in_range(sum as int, window as int);
        }
        let mean: i64 = div_trunc(sum, window as u64) as i64;
        let mut k: usize = 0;
        while k < window
            invariant
                k <= window,
                start + window <= whole,
                whole <= len,
                len == track.track.len(),
                whole as int == blocked_len(len as int, window as int),
                0 <= blocks@,
                start as int == blocks@ * window,
                volumes == volumes_of(track.track@),
                goal == block_meaned(track.track@, window as int),
                mean == block_mean(volumes, start as int, window as int),
                samples@ == goal.take(start + k),
            decreases window - k,
        {
            proof {
                lemma_block_start(blocks@, k as int, window as int);
            }
            samples.push((track.track[start + k].0, mean));
            k += 1;
            assert(samples@ =~= goal.take(start + k));
        }
        start = start + window;
        proof {
            blocks@ = blocks@ + 1;
        }
    }
    let mut i: usize = whole;
    while i < len
        invariant
            whole <= i <= len,
            len == track.track.len(),
            whole as int == blocked_len(len as int, window as int),
            goal == block_meaned(track.track@, window as int),
            samples@ == goal.take(i as int),
        decreases len - i,
    {
        samples.push(track.track[i]);
        i += 1;
        assert(samples@ =~= goal.take(i as int));
    }
    assert(goal.take(len as int) =~= goal);
    AudioTrack { samplerate: track.samplerate, track: samples }
}

} // verus!
