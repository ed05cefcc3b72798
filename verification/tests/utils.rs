use timegrapher::audio::track::AudioTrack;
use timegrapher::signal::utils::{
    abs, apply_diff, apply_gain, cutt_off, noise_floor_of, remove_mean, sliding_max, sliding_mean,
    suppress_below,
};

fn track_of(volumes: &[i64]) -> AudioTrack {
    let mut samples = Vec::new();
    for (i, v) in volumes.iter().enumerate() {
        samples.push((i as u64 + 1, *v));
    }
    AudioTrack::from_rate_track(48_000, samples)
}

fn volumes_of(track: &AudioTrack) -> Vec<i64> {
    track.get_volume()
}

#[test]
fn gain_scales_every_amplitude() {
    // 2.5 times 3.0, -1.0 and 0.0
    let out = apply_gain(&track_of(&[3_000_000, -1_000_000, 0]), 2_500_000);
    assert_eq!(volumes_of(&out), vec![7_500_000, -2_500_000, 0]);
    assert_eq!(out.samplerate, 48_000);
    assert_eq!(out.get_time(), vec![1, 2, 3]);
}

#[test]
fn gain_rounds_toward_zero() {
    // half of 1.000001 and of -1.000001
    let out = apply_gain(&track_of(&[1_000_001, -1_000_001, 1, -1]), 500_000);
    assert_eq!(volumes_of(&out), vec![500_000, -500_000, 0, 0]);
}

#[test]
fn gain_of_one_changes_nothing_and_of_zero_silences() {
    let track = track_of(&[5, -7, i64::MAX, i64::MIN]);
    assert_eq!(volumes_of(&apply_gain(&track, 1_000_000)), vec![5, -7, i64::MAX, i64::MIN]);
    assert_eq!(volumes_of(&apply_gain(&track, 0)), vec![0, 0, 0, 0]);
}

#[test]
fn gain_saturates() {
    let out = apply_gain(&track_of(&[i64::MAX, i64::MIN, i64::MIN]), 2_000_000);
    assert_eq!(volumes_of(&out), vec![i64::MAX, i64::MIN, i64::MIN]);
    let flipped = apply_gain(&track_of(&[i64::MIN, i64::MAX]), -1_000_000);
    assert_eq!(volumes_of(&flipped), vec![i64::MAX, -i64::MAX]);
}

#[test]
fn noise_floor_is_the_larger_mean() {
    // nonnegative: 4, 2, 0 with mean 2; negative: -1, -5 with mean magnitude 3
    assert_eq!(noise_floor_of(&track_of(&[4, 2, -1, -5, 0])), 3);
    // nonnegative: 10, 20 with mean 15; negative: -4 with mean magnitude 4
    assert_eq!(noise_floor_of(&track_of(&[10, -4, 20])), 15);
    assert_eq!(noise_floor_of(&track_of(&[])), 0);
    assert_eq!(noise_floor_of(&track_of(&[-8])), 8);
    assert_eq!(noise_floor_of(&track_of(&[i64::MIN, i64::MIN])), 9_223_372_036_854_775_808);
}

#[test]
fn noise_floor_of_a_fraction_is_the_next_whole() {
    // the mean of 1 and 2 is 1.5: 1 is below it, 2 is not
    assert_eq!(noise_floor_of(&track_of(&[1, 2])), 2);
    assert_eq!(volumes_of(&remove_mean(&track_of(&[1, 2]))), vec![0, 2]);
}

#[test]
fn remove_mean_zeroes_what_is_below_the_floor() {
    let out = remove_mean(&track_of(&[4, 2, -1, -5, 0]));
    assert_eq!(volumes_of(&out), vec![4, 0, 0, -5, 0]);
    assert_eq!(out.samplerate, 48_000);
    assert_eq!(out.get_time(), vec![1, 2, 3, 4, 5]);
}

#[test]
fn remove_mean_keeps_only_what_reaches_the_floor() {
    let track = track_of(&[12, -3, 7, 0, -20, 5, 9, -1]);
    let floor = noise_floor_of(&track);
    let out = remove_mean(&track);
    for (before, after) in track.get_volume().iter().zip(out.get_volume().iter()) {
        if *after != 0 {
            assert_eq!(after, before);
            assert!(after.unsigned_abs() >= floor);
        } else {
            assert!(before.unsigned_abs() < floor || *before == 0);
        }
    }
}

#[test]
fn flooring_again_at_the_same_floor_changes_nothing() {
    let track = track_of(&[12, -3, 7, 0, -20, 5, 9, -1]);
    let floor = noise_floor_of(&track);
    let once = suppress_below(&track, floor);
    let twice = suppress_below(&once, floor);
    assert_eq!(once.track, twice.track);
    assert_eq!(once.track, remove_mean(&track).track);
}

#[test]
fn remove_mean_of_an_empty_track() {
    let out = remove_mean(&track_of(&[]));
    assert!(out.track.is_empty());
    assert_eq!(out.samplerate, 48_000);
}

#[test]
fn suppress_below_is_strict() {
    let out = suppress_below(&track_of(&[9, 10, 11, -9, -10, -11, 0]), 10);
    assert_eq!(volumes_of(&out), vec![0, 10, 11, 0, -10, -11, 0]);
    let all = suppress_below(&track_of(&[9, -10, i64::MIN]), u64::MAX);
    assert_eq!(volumes_of(&all), vec![0, 0, 0]);
    let none = suppress_below(&track_of(&[9, -10, 0]), 0);
    assert_eq!(volumes_of(&none), vec![9, -10, 0]);
}

#[test]
fn cutoff_at_minus_sixty_decibels_is_a_thousandth() {
    let out = cutt_off(&track_of(&[999, 1_000, 1_001, -999, -1_000, 0, 5_000_000]), -600);
    assert_eq!(volumes_of(&out), vec![0, 1_000, 1_001, 0, -1_000, 0, 5_000_000]);
    assert_eq!(out.samplerate, 48_000);
    assert_eq!(out.get_time(), vec![1, 2, 3, 4, 5, 6, 7]);
}

#[test]
fn cutoff_at_zero_decibels_is_one() {
    let out = cutt_off(&track_of(&[999_999, 1_000_000, -999_999, -1_000_000]), 0);
    assert_eq!(volumes_of(&out), vec![0, 1_000_000, 0, -1_000_000]);
}

#[test]
fn cutoff_between_whole_decibels() {
    // -12.9 dB is 0.2264644...: 226464 millionths are below it, 226465 are not
    let out = cutt_off(&track_of(&[226_464, 226_465, -226_464, -226_465, 223_873]), -129);
    assert_eq!(volumes_of(&out), vec![0, 226_465, 0, -226_465, 0]);
    // -13 dB is 0.2238721...
    let lower = cutt_off(&track_of(&[223_872, 223_873, 226_464]), -130);
    assert_eq!(volumes_of(&lower), vec![0, 223_873, 226_464]);
}

#[test]
fn cutoff_twice_is_cutoff_once() {
    let track = track_of(&[999, 1_000, -5, 123_456, -1_000_000, 0, i64::MIN, i64::MAX]);
    for level in [-2000, -1200, -600, -129, 0, 7, 1000, 2599, 2600, 4000] {
        let once = cutt_off(&track, level);
        let twice = cutt_off(&once, level);
        assert_eq!(once.track, twice.track);
    }
}

#[test]
fn sliding_max_over_seven_samples_in_blocks_of_three() {
    let out = sliding_max(&track_of(&[1, 5, 3, -2, -7, -4, 9]), 3);
    assert_eq!(volumes_of(&out), vec![5, 5, 5, -2, -2, -2, 9]);
    assert_eq!(out.get_time(), vec![1, 2, 3, 4, 5, 6, 7]);
    assert_eq!(out.samplerate, 48_000);
}

#[test]
fn sliding_mean_over_seven_samples_in_blocks_of_three() {
    // (1 + 5 + 3) / 3 = 3; (-2 - 7 - 4) / 3 = -4.33, toward zero -4
    let out = sliding_mean(&track_of(&[1, 5, 3, -2, -7, -4, 9]), 3);
    assert_eq!(volumes_of(&out), vec![3, 3, 3, -4, -4, -4, 9]);
    assert_eq!(out.get_time(), vec![1, 2, 3, 4, 5, 6, 7]);
}

#[test]
fn sliding_window_of_one_changes_nothing() {
    let track = track_of(&[1, 5, 3, -2]);
    assert_eq!(volumes_of(&sliding_max(&track, 1)), vec![1, 5, 3, -2]);
    assert_eq!(volumes_of(&sliding_mean(&track, 1)), vec![1, 5, 3, -2]);
}

#[test]
fn sliding_window_longer_than_the_track_changes_nothing() {
    let track = track_of(&[1, 5, 3, -2]);
    assert_eq!(volumes_of(&sliding_max(&track, 5)), vec![1, 5, 3, -2]);
    assert_eq!(volumes_of(&sliding_mean(&track, 5)), vec![1, 5, 3, -2]);
    assert!(sliding_max(&track_of(&[]), 3).track.is_empty());
    assert!(sliding_mean(&track_of(&[]), 3).track.is_empty());
}

#[test]
fn sliding_window_that_divides_the_length() {
    let track = track_of(&[1, 5, 3, -2]);
    assert_eq!(volumes_of(&sliding_max(&track, 2)), vec![5, 5, 3, 3]);
    assert_eq!(volumes_of(&sliding_mean(&track, 2)), vec![3, 3, 0, 0]);
    assert_eq!(volumes_of(&sliding_max(&track, 4)), vec![5, 5, 5, 5]);
    assert_eq!(volumes_of(&sliding_mean(&track, 4)), vec![1, 1, 1, 1]);
}

#[test]
fn sliding_mean_at_the_ends_of_the_range() {
    let high = track_of(&[i64::MAX, i64::MAX, i64::MAX]);
    assert_eq!(volumes_of(&sliding_mean(&high, 3)), vec![i64::MAX, i64::MAX, i64::MAX]);
    let low = track_of(&[i64::MIN, i64::MIN]);
    assert_eq!(volumes_of(&sliding_mean(&low, 2)), vec![i64::MIN, i64::MIN]);
}

#[test]
fn diff_starts_at_zero() {
    let out = apply_diff(&track_of(&[3, 5, 2, 2]));
    assert_eq!(volumes_of(&out), vec![0, 2, -3, 0]);
    assert_eq!(out.get_time(), vec![1, 2, 3, 4]);
    assert_eq!(out.samplerate, 48_000);
}

#[test]
fn diff_of_short_tracks() {
    assert!(apply_diff(&track_of(&[])).track.is_empty());
    assert_eq!(volumes_of(&apply_diff(&track_of(&[42]))), vec![0]);
}

#[test]
fn diff_saturates() {
    let out = apply_diff(&track_of(&[i64::MIN, i64::MAX, i64::MIN]));
    assert_eq!(volumes_of(&out), vec![0, i64::MAX, i64::MIN]);
}

#[test]
fn abs_takes_magnitudes() {
    let out = abs(&track_of(&[-3, 4, 0, i64::MIN, i64::MAX]));
    assert_eq!(volumes_of(&out), vec![3, 4, 0, i64::MAX, i64::MAX]);
    assert_eq!(out.get_time(), vec![1, 2, 3, 4, 5]);
    assert_eq!(out.samplerate, 48_000);
}
