use timegrapher::audio::io::Connector;
use timegrapher::audio::track::AudioTrack;
use timegrapher::ui::app::{ctl_from, ShowData, TimeGrapherUi};
use timegrapher::ui::defs::{AppSetting, ProcessError};
use timegrapher::ui::executor::ExecutorCTL;
use timegrapher::ui::extras::AudioValues;
use timegrapher::units::Decimal;

fn front(devices: &[&str]) -> TimeGrapherUi {
    let names = devices.iter().map(|s| s.to_string()).collect();
    TimeGrapherUi::new(vec![
        Connector::new("first".to_string(), names),
        Connector::new("second".to_string(), vec!["other".to_string()]),
    ])
}

#[test]
fn front_end_starts_on_the_first_host() {
    let ui = front(&["mic", "line"]);
    assert_eq!(ui.host.host(), "first");
    assert_eq!(ui.device_list, vec!["mic".to_string(), "line".to_string()]);
    assert_eq!(ui.device, "mic");
    assert!(!ui.running);
    assert!(ui.start_btn && !ui.stop_btn && ui.clear_btn);
    assert_eq!(ui.show_data_type, ShowData::Processed);
    assert!(ui.last_data.track.is_empty());
    assert!(!*ui.process_error.is_error());
}

#[test]
fn front_end_without_devices_says_so() {
    let ui = front(&[]);
    assert_eq!(ui.device_list, vec!["Devices not found!".to_string()]);
    assert_eq!(ui.device, "Devices not found!");
}

#[test]
fn start_and_stop_toggle_the_buttons() {
    let mut ui = front(&["mic"]);
    assert!(ui.press_start());
    assert!(!ui.start_btn && ui.stop_btn && !ui.clear_btn);
    ui.launched();
    assert!(ui.running);
    // a second start sets up nothing while the loop runs
    assert!(!ui.press_start());
    assert!(ui.press_stop());
    assert!(ui.start_btn && !ui.stop_btn && ui.clear_btn);
    assert!(!ui.running);
    // nothing is left to cancel
    assert!(!ui.press_stop());
}

#[test]
fn failed_start_raises_the_notice() {
    let mut ui = front(&["mic"]);
    assert!(ui.press_start());
    ui.launch_failed("Error While building stream: no device".to_string());
    assert!(*ui.process_error.is_error());
    assert_eq!(ui.process_error.get_message(), "Error While building stream: no device");
    assert!(!ui.running);
    assert!(ui.stop_btn);
}

#[test]
fn snapshot_falls_back_to_the_last_one() {
    let mut ui = front(&["mic"]);
    assert!(ui.snapshot(None).track.is_empty());
    let fresh = AudioTrack::from_rate_track(8, vec![(1, 5), (2, 6)]);
    assert_eq!(ui.snapshot(Some(fresh)).track, vec![(1, 5), (2, 6)]);
    // the slot is held by the writer: the last snapshot is shown again
    let again = ui.snapshot(None);
    assert_eq!(again.track, vec![(1, 5), (2, 6)]);
    assert_eq!(again.samplerate, 8);
    let newer = AudioTrack::from_rate_track(8, vec![(3, 7)]);
    assert_eq!(ui.snapshot(Some(newer)).track, vec![(3, 7)]);
    assert_eq!(ui.last_data.track, vec![(3, 7)]);
}

#[test]
fn executor_settings_follow_the_audio_settings() {
    let mut ui = front(&["mic"]);
    assert_eq!(
        ui.executor_ctl(),
        ExecutorCTL {
            duration: 5_000_000,
            use_denoiser: 1,
            noise_supr_level: 8000,
            use_agc: 1,
            agc_level: 16000,
            cutoff: -600,
        }
    );
    ui.audio_settings.use_denoiser.update_value(false);
    ui.audio_settings.sample_size.parse("0.5".to_string());
    ui.audio_settings.cutoff.parse("-12.9".to_string());
    let ctl = ui.executor_ctl();
    assert_eq!(ctl.use_denoiser, 0);
    assert_eq!(ctl.duration, 500_000);
    assert_eq!(ctl.cutoff, -129);
}

#[test]
fn cutoff_is_taken_to_the_nearest_tenth() {
    let mut ui = front(&["mic"]);
    for (text, tenths) in [
        ("-12.94", -129),
        ("-12.95", -130),
        ("-12.96", -130),
        ("12.94", 129),
        ("12.95", 130),
        ("0.04", 0),
        ("-0.04", 0),
        ("-0.05", -1),
        ("3", 30),
    ] {
        ui.audio_settings.cutoff.parse(text.to_string());
        assert_eq!(ui.executor_ctl().cutoff, tenths, "{text}");
    }
}

#[test]
fn executor_settings_at_the_edges() {
    let values = AudioValues {
        sample_size: Decimal { micros: -1 },
        use_denoiser: false,
        noise_supr_level: i32::MIN,
        use_agc: true,
        agc_level: i32::MAX,
        cutoff: Decimal { micros: i64::MAX },
    };
    let ctl = ctl_from(values);
    assert_eq!(ctl.duration, 0);
    assert_eq!(ctl.use_denoiser, 0);
    assert_eq!(ctl.use_agc, 1);
    assert_eq!(ctl.noise_supr_level, i32::MIN);
    assert_eq!(ctl.agc_level, i32::MAX);
    assert_eq!(ctl.cutoff, i32::MAX);
    let low = ctl_from(AudioValues { cutoff: Decimal { micros: i64::MIN }, ..values });
    assert_eq!(low.cutoff, i32::MIN);
    let long = ctl_from(AudioValues { sample_size: Decimal { micros: i64::MAX }, ..values });
    assert_eq!(long.duration, i64::MAX as u64);
}

#[test]
fn plot_bounds_mirror_the_limit() {
    let mut ui = front(&["mic"]);
    assert_eq!(ui.y_bounds(), (-10_000, 10_000));
    ui.plot_settings.y_limit.parse("2.5".to_string());
    assert_eq!(ui.y_bounds(), (-2_500_000, 2_500_000));
    ui.plot_settings.y_limit.update_value(Decimal { micros: i64::MIN });
    assert_eq!(ui.y_bounds(), (i64::MAX, i64::MIN));
}
