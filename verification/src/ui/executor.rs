//! The conditioning loop, as the decisions between its waits.
//!
//! The loop pulls a frame, publishes it as it came, has the engine process
//! its amplitudes on a worker of their own, cuts the result off at the
//! configured level and publishes that. Pulling, publishing and the engine
//! are the caller's; what to do with what they hand back is decided here.

use vstd::prelude::*;
use vstd::arithmetic::div_mod::{lemma_fundamental_div_mod, lemma_mod_bound};
use crate::audio::io::AudioStream;
use crate::audio::track::{times_of, volumes_of, zip_samples, AudioTrack};
use crate::signal::speexdsp::{DenoiseRequest, SetControll};
use crate::signal::utils::{cut_off, cutt_off};
use crate::units::SCALE;

verus! {

/// The settings of a run of the loop. They are taken when the loop starts
/// and stay as they are while it runs.
#[derive(Clone, Copy, Debug, PartialEq, Eq, Structural)]
pub struct ExecutorCTL {
    /// The length of a frame, in microseconds.
    pub duration: u64,
    /// `1` to suppress noise, `0` not to.
    pub use_denoiser: i32,
    /// How far noise may be attenuated.
    pub noise_supr_level: i32,
    /// `1` to control the gain, `0` not to.
    pub use_agc: i32,
    /// The level that the gain control aims at.
    pub agc_level: i32,
    /// The level, in tenths of a decibel, under which a sample is zeroed.
    pub cutoff: i32,
}

/// The number of samples in a frame of `duration` microseconds at `rate`
/// Hz, rounded to the nearest whole number, a half rounded up.
pub open spec fn frame_len(duration: int, rate: int) -> int {
    (duration * rate + SCALE / 2) / (SCALE as int)
}

/// The control with its value where the control takes the value, and
/// nothing where it does not: a control that would fail is left out.
pub open spec fn admitted(control: SetControll, value: i32) -> Seq<(SetControll, i32)> {
    if control.admits(value) {
        seq![(control, value)]
    } else {
        Seq::empty()
    }
}

/// The controls that the settings ask for, in the order in which they are
/// set: noise suppression and its level, then gain control and its level.
pub open spec fn planned_controls(ctl: ExecutorCTL) -> Seq<(SetControll, i32)> {
    admitted(SetControll::Denoise, ctl.use_denoiser) + admitted(
        SetControll::NoiseSuppress,
        ctl.noise_supr_level,
    ) + admitted(SetControll::Agc, ctl.use_agc) + admitted(SetControll::AgcLevel, ctl.agc_level)
}

/// The state of the loop between two waits.
pub struct Executor {
    ctl: ExecutorCTL,
    samplerate: u32,
    frame_size: usize,
    held: Option<AudioTrack>,
}

impl Executor {
    /// The settings of the run.
    pub closed spec fn config(&self) -> ExecutorCTL {
        self.ctl
    }

    /// The rate of the stream, in Hz.
    pub closed spec fn rate(&self) -> u32 {
        self.samplerate
    }

    /// The number of samples to pull for a frame.
    pub closed spec fn size(&self) -> usize {
        self.frame_size
    }

    /// The frame whose amplitudes are with the engine, if one is.
    pub closed spec fn waiting(&self) -> Option<(u32, Seq<(u64, i64)>)> {
        match self.held {
            Some(track) => Some(track@),
            None => None,
        }
    }

    /// Whether an engine can be made for a frame of `len` samples: the
    /// frame is a full one, and its size and the rate are numbers that the
    /// engine can be given.
    pub open spec fn can_bind(&self, len: nat) -> bool {
        &&& len == self.size()
        &&& self.size() <= i32::MAX
        &&& self.rate() <= i32::MAX
    }

    /// The loop at its start, for a stream of `samplerate` Hz: the frame
    /// size is the frame's length in samples, or the largest size there is
    /// where that is less.
    pub fn new(ctl: ExecutorCTL, samplerate: u32) -> (made: Self)
        ensures
            made.config() == ctl,
            made.rate() == samplerate,
            made.waiting().is_none(),
            made.size() == if frame_len(ctl.duration as int, samplerate as int) <= usize::MAX {
                frame_len(ctl.duration as int, samplerate as int)
            } else {
                usize::MAX as int
            },
    {
        assert(ctl.duration * samplerate <= 0xffff_ffff_ffff_ffff * 0xffff_ffff) by (nonlinear_arith)
            requires
                ctl.duration <= 0xffff_ffff_ffff_ffff,
                samplerate <= 0xffff_ffff,
        ;
        let wide: u128 = ((ctl.duration as u128) * (samplerate as u128) + 500_000) / 1_000_000;
        let frame_size: usize = if wide <= usize::MAX as u128 {
            wide as usize
        } else {
            usize::MAX
        };
        Executor { ctl, samplerate, frame_size, held: None }
    }

    pub fn frame_size(&self) -> (size: usize)
        ensures
            size == self.size(),
    {
        self.frame_size
    }

    /// Whether a frame is with the engine.
    pub fn is_waiting(&self) -> (yes: bool)
        ensures
            yes == self.waiting().is_some(),
    {
        self.held.is_some()
    }

    /// The controls that the settings ask for.
    pub fn controls(&self) -> (controls: Vec<(SetControll, i32)>)
        ensures
            controls@ == planned_controls(self.config()),
            forall|i: int|
                0 <= i < controls@.len() ==> (#[trigger] controls@[i]).0.admits(controls@[i].1),
    {
        let mut controls: Vec<(SetControll, i32)> = Vec::new();
        if SetControll::Denoise.accepts(self.ctl.use_denoiser) {
            controls.push((SetControll::Denoise, self.ctl.use_denoiser));
        }
        assert(controls@ =~= admitted(SetControll::Denoise, self.ctl.use_denoiser));
        if SetControll::NoiseSuppress.accepts(self.ctl.noise_supr_level) {
            controls.push((SetControll::NoiseSuppress, self.ctl.noise_supr_level));
        }
        assert(controls@ =~= admitted(SetControll::Denoise, self.ctl.use_denoiser) + admitted(
            SetControll::NoiseSuppress,
            self.ctl.noise_supr_level,
        ));
        if SetControll::Agc.accepts(self.ctl.use_agc) {
            controls.push((SetControll::Agc, self.ctl.use_agc));
        }
        assert(controls@ =~= admitted(SetControll::Denoise, self.ctl.use_denoiser) + admitted(
            SetControll::NoiseSuppress,
            self.ctl.noise_supr_level,
        ) + admitted(SetControll::Agc, self.ctl.use_agc));
        if SetControll::AgcLevel.accepts(self.ctl.agc_level) {
            controls.push((SetControll::AgcLevel, self.ctl.agc_level));
        }
        assert(controls@ =~= planned_controls(self.ctl));
        controls
    }

    /// A frame has been pulled. It is handed back as it came, to be
    /// published as the raw snapshot. Where an engine can be made for it,
    /// the work for the engine comes with it, and the frame is kept until
    /// the engine's answer arrives; a frame that was still waiting for an
    /// answer is given up. A frame for which no engine can be made, such
    /// as the short one that a stream ends with, goes no further.
    pub fn on_frame(&mut self, track: AudioTrack) -> (out: (AudioTrack, Option<DenoiseRequest>))
        ensures
            final(self).config() == old(self).config(),
            final(self).rate() == old(self).rate(),
            final(self).size() == old(self).size(),
            out.0@ == track@,
            out.1.is_some() <==> old(self).can_bind(track.track@.len()),
            final(self).waiting() == if old(self).can_bind(track.track@.len()) {
                Some(track@)
            } else {
                None
            },
            out.1.is_some() ==> {
                let request = out.1.unwrap();
                &&& request.frame_size == track.track@.len()
                &&& request.sampling_rate == old(self).rate()
                &&& request.controls@ == planned_controls(old(self).config())
                &&& request.frame@ == volumes_of(track.track@)
                &&& request.wf()
            },
    {
        let len: usize = track.track.len();
        if len == self.frame_size && self.frame_size <= 0x7fff_ffff && self.samplerate
            <= 0x7fff_ffff {
            let request = DenoiseRequest {
                frame_size: len as i32,
                sampling_rate: self.samplerate as i32,
                controls: self.controls(),
                frame: track.get_volume(),
            };
            let raw = track.clone();
            self.held = Some(track);
            (raw, Some(request))
        } else {
            self.held = None;
            (track, None)
        }
    }

    /// The engine has answered with the processed amplitudes. They take the
    /// place of the amplitudes of the frame that was waiting, tick by tick
    /// as far as the shorter of the two reaches, and what is below the
    /// configured level is zeroed: the result is to be published as the
    /// processed snapshot. Where no frame was waiting there is nothing to
    /// publish.
    pub fn on_denoised(&mut self, amplitudes: Vec<i64>) -> (processed: Option<AudioTrack>)
        ensures
            final(self).config() == old(self).config(),
            final(self).rate() == old(self).rate(),
            final(self).size() == old(self).size(),
            final(self).waiting().is_none(),
            processed.is_some() <==> old(self).waiting().is_some(),
            processed.is_some() ==> processed.unwrap()@ == (
                old(self).waiting().unwrap().0,
                cut_off(
                    zip_samples(times_of(old(self).waiting().unwrap().1), amplitudes@),
                    old(self).config().cutoff as int,
                ),
            ),
    {
        let held = self.held.take();
        match held {
            None => None,
            Some(track) => {
                let mut track = track;
                let rebuilt = track.update_volume(amplitudes);
                Some(cutt_off(&rebuilt, self.ctl.cutoff))
            },
        }
    }
}

/// The conditioning loop for a stream, at its start: nothing is with the
/// engine, and a frame is as many samples as the configured duration lasts
/// at the stream's rate.
pub fn spawn_executor(aust: &AudioStream, ctl: ExecutorCTL) -> (made: Executor)
    ensures
        made.config() == ctl,
        made.rate() == aust.rate(),
        made.waiting().is_none(),
        made.size() == if frame_len(ctl.duration as int, aust.rate() as int) <= usize::MAX {
            frame_len(ctl.duration as int, aust.rate() as int)
        } else {
            usize::MAX as int
        },
{
    Executor::new(ctl, aust.samplerate())
}

/// A frame of a whole number of sample periods is as many samples long as
/// it has periods: at `rate` Hz, `count` periods make `count` samples.
pub proof fn lemma_frame_len_of_periods(count: int, rate: int, duration: int)
    requires
        0 <= count,
        0 < rate,
        duration * rate == count * SCALE,
    ensures
        frame_len(duration, rate) == count,
{
    let top = count * SCALE + SCALE / 2;
    vstd::arithmetic::div_mod::lemma_fundamental_div_mod_converse(
        top,
        SCALE as int,
        count,
        SCALE / 2,
    );
}

/// The frame length is the nearest whole number of samples: it differs
/// from `duration * rate / SCALE` by half a sample at most.
pub proof fn lemma_frame_len_is_nearest(duration: int, rate: int)
    requires
        0 <= duration,
        0 <= rate,
    ensures
        2 * frame_len(duration, rate) * SCALE <= 2 * duration * rate + SCALE,
        2 * duration * rate < 2 * frame_len(duration, rate) * SCALE + SCALE,
{
    let product = duration * rate;
    assert(0 <= product) by (nonlinear_arith)
        requires
            product == duration * rate,
            0 <= duration,
            0 <= rate,
    ;
    let top = product + SCALE / 2;
    lemma_fundamental_div_mod(top, SCALE as int);
    lemma_mod_bound(top, SCALE as int);
    let q = top / (SCALE as int);
    assert(SCALE * q == q * SCALE) by (nonlinear_arith);
    assert(2 * q * SCALE == 2 * (q * SCALE)) by (nonlinear_arith);
    assert(2 * duration * rate == 2 * product) by (nonlinear_arith)
        requires
            product == duration * rate,
    ;
}

} // verus!
