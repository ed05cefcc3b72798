//! The envelope of the ticks: the amplitudes above the noise floor, summed
//! over a window of a millisecond around each sample, with the commonest
//! sum taken as the level of silence.

use vstd::prelude::*;
use std::collections::HashMap;
use crate::audio::track::{times_of, volumes_of, AudioTrack};
use crate::signal::utils::{abs, block_sum, noise_floor, rectified, remove_mean, suppressed};
use crate::ui::executor::frame_len;
use crate::units::{clamp_i64, saturate};

verus! {

broadcast use vstd::std_specs::hash::group_hash_axioms;

/// How often `x` occurs among the values.
pub open spec fn occurrences(values: Seq<i64>, x: i64) -> nat
    decreases values.len(),
{
    if values.len() == 0 {
        0
    } else {
        occurrences(values.drop_last(), x) + if values.last() == x {
            1nat
        } else {
            0
        }
    }
}

/// Whether the value at `k` is the mode: no value occurs more often, and
/// every value before it occurs less often.
pub open spec fn is_mode_at(values: Seq<i64>, k: int) -> bool {
    &&& 0 <= k < values.len()
    &&& forall|j: int|
        0 <= j < values.len() ==> occurrences(values, #[trigger] values[j]) <= occurrences(
            values,
            values[k],
        )
    &&& forall|j: int|
        0 <= j < k ==> occurrences(values, #[trigger] values[j]) < occurrences(values, values[k])
}

/// The values with all that do not exceed `mode` replaced by zero.
pub open spec fn above_mode(values: Seq<i64>, mode: i64) -> Seq<i64> {
    Seq::new(
        values.len(),
        |i: int|
            if values[i] > mode {
                values[i]
            } else {
                0i64
            },
    )
}

/// Half the number of samples in a millisecond at `rate` Hz.
pub open spec fn half_window(rate: int) -> int {
    frame_len(1_000, rate) / 2
}

/// Where the window around sample `i` of `len` starts.
pub open spec fn window_start(i: int, half: int) -> int {
    if i < half {
        0
    } else {
        i - half
    }
}

/// Where the window around sample `i` of `len` ends: half a window after
/// the sample, and one short of the last sample for the samples of the
/// last half window.
pub open spec fn window_end(i: int, half: int, len: int) -> int {
    if i < len - half {
        i + half
    } else {
        len - 1
    }
}

/// The sum of the amplitudes in the window around each sample, kept within
/// the range of an amplitude.
pub open spec fn windowed(volumes: Seq<i64>, half: int) -> Seq<i64> {
    Seq::new(
        volumes.len(),
        |i: int|
            clamp_i64(
                block_sum(
                    volumes,
                    window_start(i, half),
                    window_end(i, half, volumes.len() as int) - window_start(i, half),
                ),
            ) as i64,
    )
}

/// A value never occurs more often than there are values, and one that is
/// among them occurs once at least.
pub proof fn lemma_occurrences_bounded(values: Seq<i64>, x: i64)
    ensures
        occurrences(values, x) <= values.len(),
        values.contains(x) <==> occurrences(values, x) > 0,
    decreases values.len(),
{
    if values.len() > 0 {
        let front = values.drop_last();
        lemma_occurrences_bounded(front, x);
        if front.contains(x) {
            let j = choose|j: int| 0 <= j < front.len() && front[j] == x;
            assert(values[j] == x);
        }
        if values.last() == x {
            assert(values[values.len() - 1] == x);
        }
        if values.contains(x) {
            let j = choose|j: int| 0 <= j < values.len() && values[j] == x;
            if j < front.len() {
                assert(front[j] == x);
            }
        }
    }
}

/// There is one mode at most.
pub proof fn lemma_mode_is_unique(values: Seq<i64>, k: int, l: int)
    requires
        is_mode_at(values, k),
        is_mode_at(values, l),
    ensures
        k == l,
{
    if k < l {
        assert(occurrences(values, values[k]) < occurrences(values, values[l]));
        assert(occurrences(values, values[l]) <= occurrences(values, values[k]));
    } else if l < k {
        assert(occurrences(values, values[l]) < occurrences(values, values[k]));
        assert(occurrences(values, values[k]) <= occurrences(values, values[l]));
    }
}

/// Works the envelope out of one track.
pub struct BitCalculator {
    track: AudioTrack,
    x: Vec<i64>,
    y: Vec<i64>,
}

impl BitCalculator {
    /// The track to work on.
    pub closed spec fn source(&self) -> (u32, Seq<(u64, i64)>) {
        self.track@
    }

    pub fn new(track: AudioTrack) -> (made: Self)
        ensures
            made.source() == track@,
    {
        Self { track, x: Vec::new(), y: Vec::new() }
    }

    /// The value that occurs most often, and of several that do the one
    /// that comes first. There is none among no values.
    pub fn get_mode(numbervec: &Vec<i64>) -> (mode: Option<i64>)
        ensures
            mode.is_none() <==> numbervec@.len() == 0,
            mode.is_some() ==> exists|k: int|
                is_mode_at(numbervec@, k) && numbervec@[k] == mode.unwrap(),
    {
        let ghost values = numbervec@;
        let len: usize = numbervec.len();
        if len == 0 {
            return None;
        }
        let mut counts: HashMap<i64, usize> = HashMap::new();
        let mut i: usize = 0;
        while i < len
            invariant
                i <= len,
                len == values.len(),
                values == numbervec@,
                forall|x: i64| #[trigger]
                    counts@.contains_key(x) <==> occurrences(values.take(i as int), x) > 0,
                forall|x: i64| #[trigger]
                    counts@.contains_key(x) ==> counts@[x] == occurrences(
                        values.take(i as int),
                        x,
                    ),
            decreases len - i,
        {
            let value: i64 = numbervec[i];
            let ghost seen = values.take(i as int);
            let ghost next = values.take(i + 1);
            proof {
                assert(next.drop_last() =~= seen);
                assert(next.last() == value);
                lemma_occurrences_bounded(seen, value);
            }
            let before: usize = match counts.get(&value) {
                Some(count) => *count,
                None => 0,
            };
            counts.insert(value, before + 1);
            i += 1;
        }
        assert(values.take(len as int) =~= values);
        let mut best: usize = 0;
        let mut most: usize = 0;
        let mut j: usize = 0;
        while j < len
            invariant
                j <= len,
                len == values.len(),
                len > 0,
                values == numbervec@,
                best < len,
                j == 0 ==> most == 0 && best == 0,
                j > 0 ==> best < j && most == occurrences(values, values[best as int]),
                forall|x: i64| #[trigger]
                    counts@.contains_key(x) <==> occurrences(values, x) > 0,
                forall|x: i64| #[trigger]
                    counts@.contains_key(x) ==> counts@[x] == occurrences(values, x),
                forall|l: int| 0 <= l < j ==> occurrences(values, #[trigger] values[l]) <= most,
                forall|l: int| 0 <= l < best ==> occurrences(values, #[trigger] values[l]) < most,
            decreases len - j,
        {
            let value: i64 = numbervec[j];
            proof {
                lemma_occurrences_bounded(values, value);
                assert(values.contains(value));
            }
            let count: usize = match counts.get(&value) {
                Some(count) => *count,
                None => 0,
            };
            if count > most {
                most = count;
                best = j;
            }
            j += 1;
        }
        assert(is_mode_at(values, best as int));
        Some(numbervec[best])
    }

    /// The values with the mode and all below it replaced by zero.
    pub fn remove_mode(input: &Vec<i64>) -> (out: Vec<i64>)
        ensures
            out@.len() == input@.len(),
            input@.len() == 0 ==> out@ == input@,
            input@.len() > 0 ==> exists|k: int|
                is_mode_at(input@, k) && out@ == above_mode(input@, input@[k]),
    {
        match BitCalculator::get_mode(input) {
            Some(mode) => {
                let mut out: Vec<i64> = Vec::new();
                let mut i: usize = 0;
                while i < input.len()
                    invariant
                        i <= input.len(),
                        out@ == above_mode(input@, mode).take(i as int),
                    decreases input.len() - i,
                {
                    let value: i64 = input[i];
                    out.push(
                        if value > mode {
                            value
                        } else {
                            0
                        },
                    );
                    i += 1;
                    assert(out@ =~= above_mode(input@, mode).take(i as int));
                }
                assert(above_mode(input@, mode).take(i as int) =~= above_mode(input@, mode));
                out
            },
            None => Vec::new(),
        }
    }

    /// The envelope of the track: what is below the noise floor is zeroed
    /// and the rest taken by its magnitude; around each sample the
    /// magnitudes are summed over a window of a millisecond; and of the
    /// sums the commonest and all below it are zeroed. The ticks and the
    /// rate are those of the track.
    pub fn run_calculator(&self) -> (out: AudioTrack)
        requires
            self.source().1.len() >= 2 * half_window(self.source().0 as int),
        ensures
            out.samplerate == self.source().0,
            times_of(out.track@) == times_of(self.source().1),
            out.track@.len() == self.source().1.len(),
            ({
                let conditioned = rectified(
                    suppressed(self.source().1, noise_floor(volumes_of(self.source().1))),
                );
                let sums = windowed(volumes_of(conditioned), half_window(self.source().0 as int));
                &&& sums.len() == 0 ==> out.track@.len() == 0
                &&& sums.len() > 0 ==> exists|k: int|
                    is_mode_at(sums, k) && volumes_of(out.track@) == above_mode(sums, sums[k])
            }),
    {
        let samplerate: u32 = self.track.get_sample_rate();
        assert(1_000 * samplerate <= 1_000 * 0xffff_ffff) by (nonlinear_arith)
            requires
                samplerate <= 0xffff_ffff,
        ;
        let frame_size: u64 = ((1_000 * (samplerate as u64)) + 500_000) / 1_000_000;
        let half_frame: usize = (frame_size / 2) as usize;
        let floored = remove_mean(&self.track);
        let track = abs(&floored);
        let time = track.get_time();
        let volu = track.get_volume();
        let track_len: usize = time.len();
        let ghost volumes = volu@;
        let ghost goal = windowed(volumes, half_frame as int);
        let mut integral_vol: Vec<i64> = Vec::new();
        let mut ind: usize = 0;
        while ind < track_len
            invariant
                ind <= track_len,
                track_len == volu@.len(),
                track_len >= 2 * half_frame,
                volumes == volu@,
                goal == windowed(volumes, half_frame as int),
                integral_vol@ == goal.take(ind as int),
            decreases track_len - ind,
        {
            let from: usize = if ind < half_frame {
                0
            } else {
                ind - half_frame
            };
            let to: usize = if ind < track_len - half_frame {
                ind + half_frame
            } else {
                track_len - 1
            };
            let sum: i64 = sum_between(&volu, from, to);
            integral_vol.push(sum);
            ind += 1;
            assert(integral_vol@ =~= goal.take(ind as int));
        }
        assert(goal.take(track_len as int) =~= goal);
        let cleared = BitCalculator::remove_mode(&integral_vol);
        let mut made = AudioTrack::from_rate_track(samplerate, track.get_track());
        let out = made.update_volume(cleared);
        proof {
            assert(times_of(out.track@) =~= times_of(self.source().1));
            assert(volumes_of(out.track@) =~= cleared@);
        }
        out
    }
}

/// The sum of the amplitudes from `from` up to `to`, kept within the range
/// of an amplitude; nothing where `to` is not past `from`.
fn sum_between(volumes: &Vec<i64>, from: usize, to: usize) -> (sum: i64)
    requires
        to <= volumes@.len(),
    ensures
        sum as int == clamp_i64(block_sum(volumes@, from as int, to - from)),
{
    let mut total: i128 = 0;
    let mut i: usize = from;
    if to <= from {
        return 0;
    }
    while i < to
        invariant
            from <= i <= to <= volumes@.len(),
            total as int == block_sum(volumes@, from as int, i - from),
            -0x8000_0000_0000_0000 * (i - from) <= total <= 0x7fff_ffff_ffff_ffff * (i - from),
        decreases to - i,
    {
        proof {
            assert(-0x8000_0000_0000_0000 * 0xffff_ffff_ffff_ffff <= -0x8000_0000_0000_0000 * (i
                - from)) by (nonlinear_arith)
                requires
                    0 <= i - from <= 0xffff_ffff_ffff_ffff,
            ;
            assert(0x7fff_ffff_ffff_ffff * (i - from) <= 0x7fff_ffff_ffff_ffff
                * 0xffff_ffff_ffff_ffff) by (nonlinear_arith)
                requires
                    0 <= i - from <= 0xffff_ffff_ffff_ffff,
            ;
        }
        total = total + (volumes[i] as i128);
        i += 1;
    }
    saturate(total)
}

} // verus!
