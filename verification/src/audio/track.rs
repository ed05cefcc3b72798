//! The track: a sample rate and the samples taken at it, oldest first.

use vstd::prelude::*;
use crate::units::SCALE;

verus! {

/// The ticks of `samples`, in order.
pub open spec fn times_of(samples: Seq<(u64, i64)>) -> Seq<u64> {
    Seq::new(samples.len(), |i: int| samples[i].0)
}

/// The amplitudes of `samples`, in order.
pub open spec fn volumes_of(samples: Seq<(u64, i64)>) -> Seq<i64> {
    Seq::new(samples.len(), |i: int| samples[i].1)
}

/// Ticks and amplitudes paired position by position, as far as the shorter
/// of the two reaches.
pub open spec fn zip_samples(times: Seq<u64>, volumes: Seq<i64>) -> Seq<(u64, i64)> {
    Seq::new(
        if times.len() <= volumes.len() {
            times.len()
        } else {
            volumes.len()
        },
        |i: int| (times[i], volumes[i]),
    )
}

/// Whether each sample lies exactly one tick after the one before it.
pub open spec fn contiguous(samples: Seq<(u64, i64)>) -> bool {
    forall|i: int| 0 <= i && i + 1 < samples.len() ==> #[trigger] samples[i + 1].0 == samples[i].0 + 1
}

/// The least of the amplitudes, and zero where there is none.
pub open spec fn least_volume(volumes: Seq<i64>) -> i64
    decreases volumes.len(),
{
    if volumes.len() == 0 {
        0
    } else if volumes.len() == 1 {
        volumes[0]
    } else {
        let rest = least_volume(volumes.drop_last());
        if volumes.last() < rest {
            volumes.last()
        } else {
            rest
        }
    }
}

/// The greatest of the amplitudes, and zero where there is none.
pub open spec fn greatest_volume(volumes: Seq<i64>) -> i64
    decreases volumes.len(),
{
    if volumes.len() == 0 {
        0
    } else if volumes.len() == 1 {
        volumes[0]
    } else {
        let rest = greatest_volume(volumes.drop_last());
        if volumes.last() > rest {
            volumes.last()
        } else {
            rest
        }
    }
}

/// The least and the greatest amplitude are amplitudes of the run, and
/// every amplitude lies between them.
pub proof fn lemma_least_and_greatest(volumes: Seq<i64>)
    requires
        volumes.len() > 0,
    ensures
        volumes.contains(least_volume(volumes)),
        volumes.contains(greatest_volume(volumes)),
        forall|i: int|
            0 <= i < volumes.len() ==> least_volume(volumes) <= #[trigger] volumes[i]
                <= greatest_volume(volumes),
    decreases volumes.len(),
{
    if volumes.len() == 1 {
        assert(volumes[0] == least_volume(volumes));
    } else {
        let front = volumes.drop_last();
        lemma_least_and_greatest(front);
        let last = volumes.len() - 1;
        let i = choose|i: int| 0 <= i < front.len() && front[i] == least_volume(front);
        let j = choose|j: int| 0 <= j < front.len() && front[j] == greatest_volume(front);
        assert(volumes[i] == front[i]);
        assert(volumes[j] == front[j]);
        assert(volumes[last] == volumes.last());
        assert forall|k: int| 0 <= k < volumes.len() implies least_volume(volumes)
            <= #[trigger] volumes[k] <= greatest_volume(volumes) by {
            if k < last {
                assert(volumes[k] == front[k]);
            }
        }
    }
}

/// A sample rate in Hz and an ordered run of `(tick, amplitude)` samples.
#[derive(Debug)]
pub struct AudioTrack {
    pub samplerate: u32,
    pub track: Vec<(u64, i64)>,
}

impl View for AudioTrack {
    type V = (u32, Seq<(u64, i64)>);

    /// The rate and the samples.
    open spec fn view(&self) -> (u32, Seq<(u64, i64)>) {
        (self.samplerate, self.track@)
    }
}

impl Clone for AudioTrack {
    fn clone(&self) -> (copy: Self)
        ensures
            copy.samplerate == self.samplerate,
            copy.track@ == self.track@,
    {
        AudioTrack { samplerate: self.samplerate, track: self.get_track() }
    }
}

impl Default for AudioTrack {
    fn default() -> (empty: Self)
        ensures
            empty.samplerate == 0,
            empty.track@ == Seq::<(u64, i64)>::empty(),
    {
        AudioTrack { samplerate: 0, track: Vec::new() }
    }
}

impl AudioTrack {
    /// The empty track, with the rate still unset.
    pub fn new() -> (empty: Self)
        ensures
            empty.samplerate == 0,
            empty.track@ == Seq::<(u64, i64)>::empty(),
    {
        AudioTrack { samplerate: 0, track: Vec::new() }
    }

    /// The tick of every sample.
    pub fn get_time(&self) -> (times: Vec<u64>)
        ensures
            times@ == times_of(self.track@),
    {
        let mut times: Vec<u64> = Vec::new();
        let mut i: usize = 0;
        while i < self.track.len()
            invariant
                i <= self.track.len(),
                times@ == times_of(self.track@.take(i as int)),
            decreases self.track.len() - i,
        {
            times.push(self.track[i].0);
            i += 1;
            assert(times@ =~= times_of(self.track@.take(i as int)));
        }
        assert(self.track@.take(i as int) =~= self.track@);
        times
    }

    /// The amplitude of every sample.
    pub fn get_volume(&self) -> (volumes: Vec<i64>)
        ensures
            volumes@ == volumes_of(self.track@),
    {
        let mut volumes: Vec<i64> = Vec::new();
        let mut i: usize = 0;
        while i < self.track.len()
            invariant
                i <= self.track.len(),
                volumes@ == volumes_of(self.track@.take(i as int)),
            decreases self.track.len() - i,
        {
            volumes.push(self.track[i].1);
            i += 1;
            assert(volumes@ =~= volumes_of(self.track@.take(i as int)));
        }
        assert(self.track@.take(i as int) =~= self.track@);
        volumes
    }

    pub fn get_sample_rate(&self) -> (rate: u32)
        ensures
            rate == self.samplerate,
    {
        self.samplerate
    }

    /// A copy of the samples.
    pub fn get_track(&self) -> (samples: Vec<(u64, i64)>)
        ensures
            samples@ == self.track@,
    {
        let mut samples: Vec<(u64, i64)> = Vec::new();
        let mut i: usize = 0;
        while i < self.track.len()
            invariant
                i <= self.track.len(),
                samples@ == self.track@.take(i as int),
            decreases self.track.len() - i,
        {
            samples.push(self.track[i]);
            i += 1;
            assert(samples@ =~= self.track@.take(i as int));
        }
        assert(self.track@.take(i as int) =~= self.track@);
        samples
    }

    pub fn from_rate_track(samplerate: u32, track: Vec<(u64, i64)>) -> (made: Self)
        ensures
            made.samplerate == samplerate,
            made.track@ == track@,
    {
        AudioTrack { samplerate, track }
    }

    /// A track with the amplitudes of this one at the ticks given, as far
    /// as the shorter of the two reaches. This track stays as it is.
    pub fn update_time(&mut self, time: Vec<u64>) -> (made: Self)
        ensures
            final(self).samplerate == old(self).samplerate,
            final(self).track@ == old(self).track@,
            made.samplerate == old(self).samplerate,
            made.track@ == zip_samples(time@, volumes_of(old(self).track@)),
    {
        let volume = self.get_volume();
        let track = pair_up(&time, &volume);
        AudioTrack { samplerate: self.samplerate, track }
    }

    /// A track with the ticks of this one and the amplitudes given, as far
    /// as the shorter of the two reaches. This track stays as it is.
    pub fn update_volume(&mut self, volume: Vec<i64>) -> (made: Self)
        ensures
            final(self).samplerate == old(self).samplerate,
            final(self).track@ == old(self).track@,
            made.samplerate == old(self).samplerate,
            made.track@ == zip_samples(times_of(old(self).track@), volume@),
    {
        let time = self.get_time();
        let track = pair_up(&time, &volume);
        AudioTrack { samplerate: self.samplerate, track }
    }

    /// Whether each sample lies one tick after the one before it, which is
    /// so where no sample was dropped on the way.
    pub fn is_contiguous(&self) -> (yes: bool)
        ensures
            yes == contiguous(self.track@),
    {
        let mut i: usize = 1;
        while i < self.track.len()
            invariant
                1 <= i,
                forall|j: int|
                    0 <= j && j + 1 < i ==> #[trigger] self.track@[j + 1].0 == self.track@[j].0 + 1,
            decreases self.track.len() - i,
        {
            let before: u64 = self.track[i - 1].0;
            if before == u64::MAX || self.track[i].0 != before + 1 {
                assert(self.track@[(i - 1) + 1].0 != self.track@[i - 1].0 + 1);
                return false;
            }
            i += 1;
        }
        true
    }

    /// Appends one sample.
    pub fn add_sample(&mut self, time: u64, value: i64)
        ensures
            final(self).samplerate == old(self).samplerate,
            final(self).track@ == old(self).track@.push((time, value)),
    {
        self.track.push((time, value));
    }

    /// How long the track lasts at its rate, in microseconds rounded down:
    /// the number of samples divided by the rate. A track without a rate
    /// has no duration.
    pub fn get_duration(&self) -> (duration: Option<u128>)
        ensures
            duration.is_none() <==> self.samplerate == 0,
            duration.is_some() ==> duration.unwrap() == (self.track@.len() * SCALE)
                / (self.samplerate as int),
    {
        if self.samplerate == 0 {
            None
        } else {
            let len: u128 = self.track.len() as u128;
            assert(len * 1_000_000 <= 0xffff_ffff_ffff_ffff * 1_000_000) by (nonlinear_arith)
                requires
                    len <= 0xffff_ffff_ffff_ffff,
            ;
            Some(len * 1_000_000 / (self.samplerate as u128))
        }
    }

    /// The least and the greatest amplitude, both zero for an empty track.
    pub fn get_min_max(&self) -> (ends: (i64, i64))
        ensures
            ends.0 == least_volume(volumes_of(self.track@)),
            ends.1 == greatest_volume(volumes_of(self.track@)),
    {
        let ghost volumes = volumes_of(self.track@);
        if self.track.len() == 0 {
            return (0, 0);
        }
        let mut low: i64 = self.track[0].1;
        let mut high: i64 = self.track[0].1;
        let mut i: usize = 1;
        assert(volumes.take(1)[0] == self.track@[0].1);
        while i < self.track.len()
            invariant
                1 <= i <= self.track.len(),
                volumes == volumes_of(self.track@),
                low == least_volume(volumes.take(i as int)),
                high == greatest_volume(volumes.take(i as int)),
            decreases self.track.len() - i,
        {
            let volume: i64 = self.track[i].1;
            proof {
                assert(volumes.take(i + 1).drop_last() =~= volumes.take(i as int));
                assert(volumes.take(i + 1).last() == volume);
            }
            if volume < low {
                low = volume;
            }
            if volume > high {
                high = volume;
            }
            i += 1;
        }
        assert(volumes.take(i as int) =~= volumes);
        (low, high)
    }
}

/// Pairs ticks and amplitudes position by position, as far as the shorter
/// of the two reaches.
fn pair_up(time: &Vec<u64>, volume: &Vec<i64>) -> (samples: Vec<(u64, i64)>)
    ensures
        samples@ == zip_samples(time@, volume@),
{
    let len: usize = if time.len() <= volume.len() {
        time.len()
    } else {
        volume.len()
    };
    let mut samples: Vec<(u64, i64)> = Vec::new();
    let mut i: usize = 0;
    while i < len
        invariant
            i <= len,
            len <= time.len(),
            len <= volume.len(),
            samples@ == zip_samples(time@, volume@).take(i as int),
        decreases len - i,
    {
        samples.push((time[i], volume[i]));
        i += 1;
        assert(samples@ =~= zip_samples(time@, volume@).take(i as int));
    }
    assert(zip_samples(time@, volume@).take(len as int) =~= zip_samples(time@, volume@));
    samples
}

} // verus!
