//! The settings of the application and its error notice.

use vstd::prelude::*;
use crate::ui::defs::{AppSetting, AppSettingCollection, ProcessError, Setting};
use crate::units::Decimal;

verus! {

/// How the audio is taken and conditioned.
#[derive(Debug, Clone)]
pub struct AudioSettings {
    is_open: bool,
    /// The length of a frame, in seconds.
    pub sample_size: Setting<Decimal>,
    pub use_denoiser: Setting<bool>,
    pub noise_supr_level: Setting<i32>,
    pub use_agc: Setting<bool>,
    pub agc_level: Setting<i32>,
    /// The level, in decibels, under which a sample is zeroed.
    pub cutoff: Setting<Decimal>,
}

/// The values of the audio settings.
#[derive(Clone, Copy, Debug, PartialEq, Eq, Structural)]
pub struct AudioValues {
    pub sample_size: Decimal,
    pub use_denoiser: bool,
    pub noise_supr_level: i32,
    pub use_agc: bool,
    pub agc_level: i32,
    pub cutoff: Decimal,
}

/// The values that the audio settings start with: frames of five seconds,
/// noise suppressed down to 8000, the gain controlled toward 16000, and a
/// cutoff at -60 dB.
pub open spec fn initial_audio_values() -> AudioValues {
    AudioValues {
        sample_size: Decimal { micros: 5_000_000 },
        use_denoiser: true,
        noise_supr_level: 8000,
        use_agc: true,
        agc_level: 16000,
        cutoff: Decimal { micros: (-60_000_000i64) as i64 },
    }
}

impl AudioSettings {
    /// The values that the settings stand at.
    pub closed spec fn values(&self) -> AudioValues {
        AudioValues {
            sample_size: self.sample_size.content(),
            use_denoiser: self.use_denoiser.content(),
            noise_supr_level: self.noise_supr_level.content(),
            use_agc: self.use_agc.content(),
            agc_level: self.agc_level.content(),
            cutoff: self.cutoff.content(),
        }
    }

    /// The values that the settings stand at.
    pub fn current(&self) -> (values: AudioValues)
        ensures
            values == self.values(),
    {
        AudioValues {
            sample_size: *self.sample_size.get_value(),
            use_denoiser: *self.use_denoiser.get_value(),
            noise_supr_level: *self.noise_supr_level.get_value(),
            use_agc: *self.use_agc.get_value(),
            agc_level: *self.agc_level.get_value(),
            cutoff: *self.cutoff.get_value(),
        }
    }
}

impl Default for AudioSettings {
    /// The settings at their initial values; the window closed.
    fn default() -> (made: Self)
        ensures
            !made.opened(),
            made.values() == initial_audio_values(),
    {
        Self {
            is_open: false,
            sample_size: Setting::new(Decimal { micros: 5_000_000 }),
            use_denoiser: Setting::new(true),
            noise_supr_level: Setting::new(8000),
            use_agc: Setting::new(true),
            agc_level: Setting::new(16000),
            cutoff: Setting::new(Decimal { micros: -60_000_000 }),
        }
    }
}

impl AppSettingCollection for AudioSettings {
    closed spec fn opened(&self) -> bool {
        self.is_open
    }

    fn is_open(&self) -> (open: &bool) {
        &self.is_open
    }

    fn is_open_mut(&mut self) -> (open: &mut bool)
        ensures
            final(self).values() == old(self).values(),
    {
        &mut self.is_open
    }

    fn open(&mut self)
        ensures
            final(self).values() == old(self).values(),
    {
        self.is_open = true;
    }
}

/// How the signal is drawn.
#[derive(Debug, Clone)]
pub struct PlotSettings {
    is_open: bool,
    /// The limit of the vertical axis, on either side of zero.
    pub y_limit: Setting<Decimal>,
}

impl PlotSettings {
    /// The limit that the vertical axis stands at.
    pub closed spec fn limit(&self) -> Decimal {
        self.y_limit.content()
    }

    /// The limit that the vertical axis stands at.
    pub fn current(&self) -> (limit: Decimal)
        ensures
            limit == self.limit(),
    {
        *self.y_limit.get_value()
    }
}

impl Default for PlotSettings {
    /// A vertical axis from -0.01 to 0.01; the window closed.
    fn default() -> (made: Self)
        ensures
            !made.opened(),
            made.limit() == (Decimal { micros: 10_000 }),
    {
        Self { is_open: false, y_limit: Setting::new(Decimal { micros: 10_000 }) }
    }
}

impl AppSettingCollection for PlotSettings {
    closed spec fn opened(&self) -> bool {
        self.is_open
    }

    fn is_open(&self) -> (open: &bool) {
        &self.is_open
    }

    fn is_open_mut(&mut self) -> (open: &mut bool)
        ensures
            final(self).limit() == old(self).limit(),
    {
        &mut self.is_open
    }

    fn open(&mut self)
        ensures
            final(self).limit() == old(self).limit(),
    {
        self.is_open = true;
    }
}

/// The error notice of the application.
#[derive(Debug)]
pub struct NewError {
    is_error: bool,
    msg: String,
}

impl Clone for NewError {
    fn clone(&self) -> (copy: Self)
        ensures
            copy.raised() == self.raised(),
            copy.message() == self.message(),
    {
        Self { is_error: self.is_error, msg: self.msg.clone() }
    }
}

impl Default for NewError {
    /// Nothing raised and nothing to show.
    fn default() -> (made: Self)
        ensures
            !made.raised(),
            made.message() == Seq::<char>::empty(),
    {
        Self { is_error: false, msg: String::new() }
    }
}

impl ProcessError for NewError {
    closed spec fn raised(&self) -> bool {
        self.is_error
    }

    closed spec fn message(&self) -> Seq<char> {
        self.msg@
    }

    fn is_error(&self) -> (flag: &bool) {
        &self.is_error
    }

    fn is_error_mut(&mut self) -> (flag: &mut bool) {
        &mut self.is_error
    }

    fn get_message(&self) -> (text: &String) {
        &self.msg
    }

    fn get_message_mut(&mut self) -> (text: &mut String) {
        &mut self.msg
    }
}

} // verus!
