//! The controls of the noise-suppression and gain-control engine, and what
//! may be asked of it.
//!
//! The engine is bound to one frame size and one rate when it is made, and
//! takes its controls as a request number with one integer value.

use vstd::prelude::*;

verus! {

/// What kind of value a control takes.
#[derive(Clone, Copy, Debug, PartialEq, Eq, Structural)]
pub enum ControlKind {
    /// Off or on: `0` or `1`.
    Switch,
    /// Any whole number.
    Level,
    /// A link to another engine, which no whole number can stand for.
    Handle,
}

/// The controls that can be set.
#[derive(Clone, Copy, Debug, PartialEq, Eq, Structural)]
pub enum SetControll {
    /// Denoiser state
    Denoise,
    /// Automatic gain control state
    Agc,
    /// Voice activity detection state
    Vad,
    /// Automatic gain control level
    AgcLevel,
    /// Reverberation removal state
    Dereverb,
    /// Reverberation removal level
    DereverbLevel,
    /// Reverberation removal decay
    DereverbDecay,
    /// Probability required for the detector to go from silence to voice
    ProbStart,
    /// Probability required for the detector to stay in the voice state
    ProbContinue,
    /// Maximum attenuation of the noise in dB (a negative number)
    NoiseSuppress,
    /// Maximum attenuation of the residual echo in dB (a negative number)
    EchoSuppress,
    /// Maximum attenuation of the residual echo in dB when the near end is
    /// active (a negative number)
    EchoSuppressActive,
    /// The echo canceller whose residual echo is to be suppressed
    EchoState,
    /// Maximal gain increase in dB per second
    AgcIncrement,
    /// Maximal gain decrease in dB per second
    AgcDecrement,
    /// Maximal gain in dB
    AgcMaxGain,
    /// Automatic gain control target level
    AgcTarget,
}

/// The controls that can be read.
#[derive(Clone, Copy, Debug, PartialEq, Eq, Structural)]
pub enum GetControll {
    Denoise,
    Agc,
    Vad,
    AgcLevel,
    Dereverb,
    DereverbLevel,
    DereverbDecay,
    ProbStart,
    ProbContinue,
    NoiseSuppress,
    EchoSuppress,
    EchoSuppressActive,
    EchoState,
    AgcIncrement,
    AgcDecrement,
    AgcMaxGain,
    /// Loudness
    AgcLoudness,
    /// Current gain, in percent
    AgcGain,
    /// Size of the power spectrum
    PsdSize,
    /// Power spectrum, as squared values
    Psd,
    /// Size of the noise estimate
    NoisePsdSize,
    /// Noise estimate, as squared values
    NoisePsd,
    /// Speech probability in the last frame
    Prob,
    AgcTarget,
}

impl SetControll {
    /// The request number under which the engine knows the control.
    pub open spec fn request(self) -> int {
        match self {
            SetControll::Denoise => 0,
            SetControll::Agc => 2,
            SetControll::Vad => 4,
            SetControll::AgcLevel => 6,
            SetControll::Dereverb => 8,
            SetControll::DereverbLevel => 10,
            SetControll::DereverbDecay => 12,
            SetControll::ProbStart => 14,
            SetControll::ProbContinue => 16,
            SetControll::NoiseSuppress => 18,
            SetControll::EchoSuppress => 20,
            SetControll::EchoSuppressActive => 22,
            SetControll::EchoState => 24,
            SetControll::AgcIncrement => 26,
            SetControll::AgcDecrement => 28,
            SetControll::AgcMaxGain => 30,
            SetControll::AgcTarget => 46,
        }
    }

    /// The kind of value that the control takes.
    pub open spec fn kind(self) -> ControlKind {
        match self {
            SetControll::Denoise | SetControll::Agc | SetControll::Vad | SetControll::Dereverb =>
                ControlKind::Switch,
            SetControll::EchoState => ControlKind::Handle,
            _ => ControlKind::Level,
        }
    }

    /// Whether `value` is a value that the control can be set to.
    pub open spec fn admits(self, value: i32) -> bool {
        match self.kind() {
            ControlKind::Switch => value == 0 || value == 1,
            ControlKind::Level => true,
            ControlKind::Handle => false,
        }
    }

    /// The control under which the value that this one sets is read back.
    pub open spec fn reader(self) -> GetControll {
        match self {
            SetControll::Denoise => GetControll::Denoise,
            SetControll::Agc => GetControll::Agc,
            SetControll::Vad => GetControll::Vad,
            SetControll::AgcLevel => GetControll::AgcLevel,
            SetControll::Dereverb => GetControll::Dereverb,
            SetControll::DereverbLevel => GetControll::DereverbLevel,
            SetControll::DereverbDecay => GetControll::DereverbDecay,
            SetControll::ProbStart => GetControll::ProbStart,
            SetControll::ProbContinue => GetControll::ProbContinue,
            SetControll::NoiseSuppress => GetControll::NoiseSuppress,
            SetControll::EchoSuppress => GetControll::EchoSuppress,
            SetControll::EchoSuppressActive => GetControll::EchoSuppressActive,
            SetControll::EchoState => GetControll::EchoState,
            SetControll::AgcIncrement => GetControll::AgcIncrement,
            SetControll::AgcDecrement => GetControll::AgcDecrement,
            SetControll::AgcMaxGain => GetControll::AgcMaxGain,
            SetControll::AgcTarget => GetControll::AgcTarget,
        }
    }

    pub fn code(self) -> (code: i32)
        ensures
            code as int == self.request(),
    {
        match self {
            SetControll::Denoise => 0,
            SetControll::Agc => 2,
            SetControll::Vad => 4,
            SetControll::AgcLevel => 6,
            SetControll::Dereverb => 8,
            SetControll::DereverbLevel => 10,
            SetControll::DereverbDecay => 12,
            SetControll::ProbStart => 14,
            SetControll::ProbContinue => 16,
            SetControll::NoiseSuppress => 18,
            SetControll::EchoSuppress => 20,
            SetControll::EchoSuppressActive => 22,
            SetControll::EchoState => 24,
            SetControll::AgcIncrement => 26,
            SetControll::AgcDecrement => 28,
            SetControll::AgcMaxGain => 30,
            SetControll::AgcTarget => 46,
        }
    }

    pub fn value_kind(self) -> (kind: ControlKind)
        ensures
            kind == self.kind(),
    {
        match self {
            SetControll::Denoise | SetControll::Agc | SetControll::Vad | SetControll::Dereverb =>
                ControlKind::Switch,
            SetControll::EchoState => ControlKind::Handle,
            _ => ControlKind::Level,
        }
    }

    /// Whether the control can be set to `value`; to be asked before the
    /// engine is.
    pub fn accepts(self, value: i32) -> (yes: bool)
        ensures
            yes == self.admits(value),
    {
        match self.value_kind() {
            ControlKind::Switch => value == 0 || value == 1,
            ControlKind::Level => true,
            ControlKind::Handle => false,
        }
    }

    pub fn getter(self) -> (reader: GetControll)
        ensures
            reader == self.reader(),
    {
        match self {
            SetControll::Denoise => GetControll::Denoise,
            SetControll::Agc => GetControll::Agc,
            SetControll::Vad => GetControll::Vad,
            SetControll::AgcLevel => GetControll::AgcLevel,
            SetControll::Dereverb => GetControll::Dereverb,
            SetControll::DereverbLevel => GetControll::DereverbLevel,
            SetControll::DereverbDecay => GetControll::DereverbDecay,
            SetControll::ProbStart => GetControll::ProbStart,
            SetControll::ProbContinue => GetControll::ProbContinue,
            SetControll::NoiseSuppress => GetControll::NoiseSuppress,
            SetControll::EchoSuppress => GetControll::EchoSuppress,
            SetControll::EchoSuppressActive => GetControll::EchoSuppressActive,
            SetControll::EchoState => GetControll::EchoState,
            SetControll::AgcIncrement => GetControll::AgcIncrement,
            SetControll::AgcDecrement => GetControll::AgcDecrement,
            SetControll::AgcMaxGain => GetControll::AgcMaxGain,
            SetControll::AgcTarget => GetControll::AgcTarget,
        }
    }
}

impl GetControll {
    /// The request number under which the engine knows the control.
    pub open spec fn request(self) -> int {
        match self {
            GetControll::Denoise => 1,
            GetControll::Agc => 3,
            GetControll::Vad => 5,
            GetControll::AgcLevel => 7,
            GetControll::Dereverb => 9,
            GetControll::DereverbLevel => 11,
            GetControll::DereverbDecay => 13,
            GetControll::ProbStart => 15,
            GetControll::ProbContinue => 17,
            GetControll::NoiseSuppress => 19,
            GetControll::EchoSuppress => 21,
            GetControll::EchoSuppressActive => 23,
            GetControll::EchoState => 25,
            GetControll::AgcIncrement => 27,
            GetControll::AgcDecrement => 29,
            GetControll::AgcMaxGain => 31,
            GetControll::AgcLoudness => 33,
            GetControll::AgcGain => 35,
            GetControll::PsdSize => 37,
            GetControll::Psd => 39,
            GetControll::NoisePsdSize => 41,
            GetControll::NoisePsd => 43,
            GetControll::Prob => 45,
            GetControll::AgcTarget => 47,
        }
    }

    pub fn code(self) -> (code: i32)
        ensures
            code as int == self.request(),
    {
        match self {
            GetControll::Denoise => 1,
            GetControll::Agc => 3,
            GetControll::Vad => 5,
            GetControll::AgcLevel => 7,
            GetControll::Dereverb => 9,
            GetControll::DereverbLevel => 11,
            GetControll::DereverbDecay => 13,
            GetControll::ProbStart => 15,
            GetControll::ProbContinue => 17,
            GetControll::NoiseSuppress => 19,
            GetControll::EchoSuppress => 21,
            GetControll::EchoSuppressActive => 23,
            GetControll::EchoState => 25,
            GetControll::AgcIncrement => 27,
            GetControll::AgcDecrement => 29,
            GetControll::AgcMaxGain => 31,
            GetControll::AgcLoudness => 33,
            GetControll::AgcGain => 35,
            GetControll::PsdSize => 37,
            GetControll::Psd => 39,
            GetControll::NoisePsdSize => 41,
            GetControll::NoisePsd => 43,
            GetControll::Prob => 45,
            GetControll::AgcTarget => 47,
        }
    }
}

/// Setting a control and reading it back go by request numbers that lie
/// side by side: the even one sets, and the odd one after it reads. No
/// request that sets is one that reads.
pub proof fn lemma_requests_are_paired(control: SetControll, reader: GetControll)
    ensures
        control.request() % 2 == 0,
        control.reader().request() == control.request() + 1,
        control.request() != reader.request(),
{
}

/// No two controls that can be set share a request number, and no two that
/// can be read do.
pub proof fn lemma_requests_are_distinct(a: SetControll, b: SetControll, c: GetControll, d: GetControll)
    ensures
        a.request() == b.request() ==> a == b,
        c.request() == d.request() ==> c == d,
{
}

/// One piece of work for the engine: a frame to process in place, by an
/// engine made for the frame's size and the rate, after the controls have
/// been set in the order given.
#[derive(Debug)]
pub struct DenoiseRequest {
    pub frame_size: i32,
    pub sampling_rate: i32,
    pub controls: Vec<(SetControll, i32)>,
    pub frame: Vec<i64>,
}

impl DenoiseRequest {
    /// What the engine demands of a request: the frame is exactly as long
    /// as the size the engine is made for, and each control is set to a
    /// value that it takes.
    pub open spec fn wf(&self) -> bool {
        &&& self.frame@.len() == self.frame_size
        &&& forall|i: int|
            0 <= i < self.controls@.len() ==> (#[trigger] self.controls@[i]).0.admits(
                self.controls@[i].1,
            )
    }

    /// Whether the request meets what the engine demands.
    pub fn is_valid(&self) -> (ok: bool)
        ensures
            ok == self.wf(),
    {
        if self.frame_size < 0 || self.frame.len() != self.frame_size as usize {
            return false;
        }
        let mut i: usize = 0;
        while i < self.controls.len()
            invariant
                i <= self.controls.len(),
                self.frame@.len() == self.frame_size,
                forall|j: int|
                    0 <= j < i ==> (#[trigger] self.controls@[j]).0.admits(self.controls@[j].1),
            decreases self.controls.len() - i,
        {
            let (control, value) = self.controls[i];
            if !control.accepts(value) {
                return false;
            }
            i += 1;
        }
        true
    }
}

} // verus!
