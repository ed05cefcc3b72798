use timegrapher::audio::track::AudioTrack;
use timegrapher::signal::speexdsp::SetControll;
use timegrapher::ui::executor::{Executor, ExecutorCTL};

fn ctl() -> ExecutorCTL {
    ExecutorCTL {
        duration: 1_000,
        use_denoiser: 1,
        noise_supr_level: -30,
        use_agc: 0,
        agc_level: 16_000,
        cutoff: -600,
    }
}

fn frame(len: u64) -> AudioTrack {
    let mut samples = Vec::new();
    for tick in 1..=len {
        samples.push((tick, tick as i64 * 1_000));
    }
    AudioTrack::from_rate_track(4_000, samples)
}

#[test]
fn frame_size_is_duration_times_rate() {
    // a millisecond at 48 kHz
    assert_eq!(Executor::new(ctl(), 48_000).frame_size(), 48);
    // five seconds at 44.1 kHz
    let long = ExecutorCTL { duration: 5_000_000, ..ctl() };
    assert_eq!(Executor::new(long, 44_100).frame_size(), 220_500);
    assert_eq!(Executor::new(ctl(), 0).frame_size(), 0);
    let none = ExecutorCTL { duration: 0, ..ctl() };
    assert_eq!(Executor::new(none, 48_000).frame_size(), 0);
}

#[test]
fn frame_size_rounds_to_the_nearest() {
    // 1 ms at 1499 Hz is 1.499 samples, at 1500 Hz 1.5, at 2499 Hz 2.499
    assert_eq!(Executor::new(ctl(), 1_499).frame_size(), 1);
    assert_eq!(Executor::new(ctl(), 1_500).frame_size(), 2);
    assert_eq!(Executor::new(ctl(), 2_499).frame_size(), 2);
    assert_eq!(Executor::new(ctl(), 499).frame_size(), 0);
    assert_eq!(Executor::new(ctl(), 500).frame_size(), 1);
}

#[test]
fn frame_size_stops_at_the_largest_size() {
    let huge = ExecutorCTL { duration: u64::MAX, ..ctl() };
    assert_eq!(Executor::new(huge, u32::MAX).frame_size(), usize::MAX);
}

#[test]
fn controls_follow_the_settings_in_order() {
    let controls = Executor::new(ctl(), 4_000).controls();
    assert_eq!(
        controls,
        vec![
            (SetControll::Denoise, 1),
            (SetControll::NoiseSuppress, -30),
            (SetControll::Agc, 0),
            (SetControll::AgcLevel, 16_000),
        ]
    );
}

#[test]
fn controls_leave_out_what_would_fail() {
    let odd = ExecutorCTL { use_denoiser: 2, use_agc: -1, ..ctl() };
    let controls = Executor::new(odd, 4_000).controls();
    assert_eq!(controls, vec![(SetControll::NoiseSuppress, -30), (SetControll::AgcLevel, 16_000)]);
}

#[test]
fn full_frame_goes_to_the_engine() {
    let mut executor = Executor::new(ctl(), 4_000);
    assert_eq!(executor.frame_size(), 4);
    assert!(!executor.is_waiting());
    let (raw, request) = executor.on_frame(frame(4));
    assert_eq!(raw.track, frame(4).track);
    assert_eq!(raw.samplerate, 4_000);
    let request = request.unwrap();
    assert_eq!(request.frame_size, 4);
    assert_eq!(request.sampling_rate, 4_000);
    assert_eq!(request.frame, vec![1_000, 2_000, 3_000, 4_000]);
    assert_eq!(request.controls.len(), 4);
    assert!(request.is_valid());
    assert!(executor.is_waiting());
}

#[test]
fn processed_frame_keeps_ticks_and_is_cut_off() {
    let mut executor = Executor::new(ctl(), 4_000);
    executor.on_frame(frame(4));
    // -60 dB is a thousandth: 999 millionths are below it, 1000 are not
    let processed = executor.on_denoised(vec![999, -1_000, 500_000, -3]).unwrap();
    assert_eq!(processed.samplerate, 4_000);
    assert_eq!(processed.track, vec![(1, 0), (2, -1_000), (3, 500_000), (4, 0)]);
    assert!(!executor.is_waiting());
}

#[test]
fn answer_without_a_frame_is_dropped() {
    let mut executor = Executor::new(ctl(), 4_000);
    assert!(executor.on_denoised(vec![1, 2, 3, 4]).is_none());
    executor.on_frame(frame(4));
    assert!(executor.on_denoised(vec![1, 2, 3, 4]).is_some());
    assert!(executor.on_denoised(vec![1, 2, 3, 4]).is_none());
}

#[test]
fn short_frame_is_published_raw_only() {
    let mut executor = Executor::new(ctl(), 4_000);
    let (raw, request) = executor.on_frame(frame(3));
    assert_eq!(raw.track, frame(3).track);
    assert!(request.is_none());
    assert!(!executor.is_waiting());
    assert!(executor.on_denoised(vec![1, 2, 3]).is_none());
}

#[test]
fn short_frame_gives_up_the_frame_before_it() {
    let mut executor = Executor::new(ctl(), 4_000);
    executor.on_frame(frame(4));
    assert!(executor.is_waiting());
    executor.on_frame(frame(2));
    assert!(!executor.is_waiting());
}

#[test]
fn shorter_answer_shortens_the_frame() {
    let mut executor = Executor::new(ctl(), 4_000);
    executor.on_frame(frame(4));
    let processed = executor.on_denoised(vec![5_000, 6_000]).unwrap();
    assert_eq!(processed.track, vec![(1, 5_000), (2, 6_000)]);
}

#[test]
fn rate_beyond_the_engine_is_not_bound() {
    let mut executor = Executor::new(ExecutorCTL { duration: 1, ..ctl() }, 3_000_000_000);
    assert_eq!(executor.frame_size(), 3_000);
    let mut samples = Vec::new();
    for tick in 1..=3_000u64 {
        samples.push((tick, 0));
    }
    let (_, request) = executor.on_frame(AudioTrack::from_rate_track(3_000_000_000, samples));
    assert!(request.is_none());
}
