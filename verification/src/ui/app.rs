//! The state of the front end, apart from what is drawn.

use vstd::prelude::*;
use crate::audio::io::{name_views, Connector};
use crate::audio::track::AudioTrack;
use crate::ui::defs::{AppSettingCollection, ProcessError};
use crate::ui::executor::ExecutorCTL;
use crate::ui::extras::{
    initial_audio_values,
    AudioSettings,
    AudioValues,
    NewError,
    PlotSettings,
};
use crate::units::{clamp_i64, saturate, Decimal};

verus! {

/// Which of the two published snapshots is shown.
#[derive(Clone, Copy, Debug, PartialEq, Eq, Structural)]
pub enum ShowData {
    Raw,
    Processed,
}

/// The settings of a run of the conditioning loop that the audio settings
/// ask for: a frame as long as the sample size, which is none where that is
/// negative; the two switches as `1` and `0`; and the cutoff in tenths of
/// a decibel, rounded to the nearest and kept within the range of the
/// field.
pub open spec fn ctl_of(values: AudioValues) -> ExecutorCTL {
    ExecutorCTL {
        duration: if values.sample_size.micros < 0 {
            0
        } else {
            values.sample_size.micros as u64
        },
        use_denoiser: if values.use_denoiser {
            1
        } else {
            0
        },
        noise_supr_level: values.noise_supr_level,
        use_agc: if values.use_agc {
            1
        } else {
            0
        },
        agc_level: values.agc_level,
        cutoff: if values.cutoff.nearest_tenth() < i32::MIN {
            i32::MIN
        } else if values.cutoff.nearest_tenth() > i32::MAX {
            i32::MAX
        } else {
            values.cutoff.nearest_tenth() as i32
        },
    }
}

/// The state of the front end.
pub struct TimeGrapherUi {
    pub process_error: NewError,
    pub host: Connector,
    /// The name of the device that is selected.
    pub device: String,
    /// The names to select from.
    pub device_list: Vec<String>,
    /// Whether the conditioning loop runs.
    pub running: bool,
    pub start_btn: bool,
    pub stop_btn: bool,
    pub clear_btn: bool,
    pub show_data_type: ShowData,
    /// The snapshot that was shown last.
    pub last_data: AudioTrack,
    pub audio_settings: AudioSettings,
    pub plot_settings: PlotSettings,
}

/// The one entry of the device list of a host without devices.
pub open spec fn no_devices() -> Seq<char> {
    "Devices not found!"@
}

impl TimeGrapherUi {
    /// The front end at its start, on the first of the hosts: nothing
    /// runs, sampling can be started and the data cleared, the processed
    /// snapshot is shown, and the first device of the host is selected. A
    /// host without devices has one entry in its list that says so.
    pub fn new(cons: Vec<Connector>) -> (made: Self)
        requires
            cons@.len() > 0,
        ensures
            made.host == cons@[0],
            made.device_list@.len() > 0,
            made.device@ == made.device_list@[0]@,
            name_views(made.device_list@) == if cons@[0].names().len() == 0 {
                seq![no_devices()]
            } else {
                cons@[0].names()
            },
            !made.running,
            made.start_btn && !made.stop_btn && made.clear_btn,
            made.show_data_type == ShowData::Processed,
            made.last_data@ == (0u32, Seq::<(u64, i64)>::empty()),
            !made.process_error.raised(),
            made.audio_settings.values() == initial_audio_values(),
            !made.audio_settings.opened(),
            made.plot_settings.limit() == (Decimal { micros: 10_000 }),
            !made.plot_settings.opened(),
    {
        let mut cons = cons;
        let host = cons.remove(0);
        let devices: Vec<String> = match host.list_device_names() {
            Some(names) => names,
            None => {
                let mut names: Vec<String> = Vec::new();
                names.push("Devices not found!".to_owned());
                assert(name_views(names@) =~= seq![no_devices()]);
                names
            },
        };
        let device = devices[0].clone();
        Self {
            process_error: NewError::default(),
            host,
            device,
            device_list: devices,
            running: false,
            start_btn: true,
            stop_btn: false,
            clear_btn: true,
            show_data_type: ShowData::Processed,
            last_data: AudioTrack::new(),
            audio_settings: AudioSettings::default(),
            plot_settings: PlotSettings::default(),
        }
    }

    /// Sampling was asked to start: it can now be stopped, and neither
    /// started again nor the data cleared. The answer says whether a stream
    /// has to be set up, which is so where none runs.
    pub fn press_start(&mut self) -> (launch: bool)
        ensures
            launch == !old(self).running,
            *final(self) == (TimeGrapherUi {
                stop_btn: true,
                start_btn: false,
                clear_btn: false,
                ..*old(self)
            }),
    {
        self.stop_btn = true;
        self.start_btn = false;
        self.clear_btn = false;
        !self.running
    }

    /// The stream has been set up and the conditioning loop runs.
    pub fn launched(&mut self)
        ensures
            *final(self) == (TimeGrapherUi { running: true, ..*old(self) }),
    {
        self.running = true;
    }

    /// The stream could not be set up: the notice is raised with `message`,
    /// and nothing runs.
    pub fn launch_failed(&mut self, message: String)
        ensures
            final(self).process_error.raised(),
            final(self).process_error.message() == message@,
            *final(self) == (TimeGrapherUi {
                process_error: final(self).process_error,
                ..*old(self)
            }),
    {
        self.process_error.rais(message);
    }

    /// Sampling was asked to stop: it can now be started again and the data
    /// cleared. The answer says whether a running loop has to be cancelled;
    /// after this none runs.
    pub fn press_stop(&mut self) -> (cancel: bool)
        ensures
            cancel == old(self).running,
            *final(self) == (TimeGrapherUi {
                running: false,
                stop_btn: false,
                start_btn: true,
                clear_btn: true,
                ..*old(self)
            }),
    {
        self.stop_btn = false;
        self.start_btn = true;
        self.clear_btn = true;
        let cancel = self.running;
        self.running = false;
        cancel
    }

    /// The snapshot to draw. `read` is what the published slot gave where
    /// it could be read without waiting, and `None` where it was held by
    /// the writer: then the snapshot that was drawn last is drawn again.
    /// Either way the snapshot drawn is kept as the last one.
    pub fn snapshot(&mut self, read: Option<AudioTrack>) -> (shown: &AudioTrack)
        ensures
            shown@ == match read {
                Some(track) => track@,
                None => old(self).last_data@,
            },
            final(self).last_data@ == shown@,
            *final(self) == (TimeGrapherUi { last_data: final(self).last_data, ..*old(self) }),
    {
        match read {
            Some(track) => {
                self.last_data = track;
            },
            None => {},
        }
        &self.last_data
    }

    /// The settings for a run of the conditioning loop, as the audio
    /// settings stand.
    pub fn executor_ctl(&self) -> (ctl: ExecutorCTL)
        ensures
            ctl == ctl_of(self.audio_settings.values()),
    {
        ctl_from(self.audio_settings.current())
    }

    /// The ends of the vertical axis: the limit of the plot settings below
    /// zero and above it.
    pub fn y_bounds(&self) -> (ends: (i64, i64))
        ensures
            ends.0 as int == clamp_i64(-(self.plot_settings.limit().micros as int)),
            ends.1 == self.plot_settings.limit().micros,
    {
        let limit: i64 = self.plot_settings.current().micros;
        (saturate(-(limit as i128)), limit)
    }
}

/// The settings for a run of the conditioning loop that `values` ask for.
pub fn ctl_from(values: AudioValues) -> (ctl: ExecutorCTL)
    ensures
        ctl == ctl_of(values),
{
    let tenths: i64 = values.cutoff.tenths();
    let cutoff: i32 = if tenths < -0x8000_0000 {
        -0x8000_0000
    } else if tenths > 0x7fff_ffff {
        0x7fff_ffff
    } else {
        tenths as i32
    };
    ExecutorCTL {
        duration: if values.sample_size.micros < 0 {
            0
        } else {
            values.sample_size.micros as u64
        },
        use_denoiser: if values.use_denoiser {
            1
        } else {
            0
        },
        noise_supr_level: values.noise_supr_level,
        use_agc: if values.use_agc {
            1
        } else {
            0
        },
        agc_level: values.agc_level,
        cutoff,
    }
}

} // verus!
