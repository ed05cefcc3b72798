use timegrapher::audio::track::AudioTrack;
use timegrapher::signal::calculator::BitCalculator;

fn track_at(rate: u32, volumes: &[i64]) -> AudioTrack {
    let mut samples = Vec::new();
    for (i, v) in volumes.iter().enumerate() {
        samples.push((i as u64 + 10, *v));
    }
    AudioTrack::from_rate_track(rate, samples)
}

#[test]
fn mode_is_the_commonest_value() {
    assert_eq!(BitCalculator::get_mode(&vec![4, 1, 4, 2, 4, 1]), Some(4));
    assert_eq!(BitCalculator::get_mode(&vec![7]), Some(7));
    assert_eq!(BitCalculator::get_mode(&vec![-5, -5, 0]), Some(-5));
    assert_eq!(BitCalculator::get_mode(&vec![i64::MIN, i64::MAX, i64::MIN]), Some(i64::MIN));
}

#[test]
fn mode_of_nothing() {
    assert_eq!(BitCalculator::get_mode(&Vec::new()), None);
}

#[test]
fn mode_among_equals_is_the_first() {
    assert_eq!(BitCalculator::get_mode(&vec![3, 1, 3, 2, 1]), Some(3));
    assert_eq!(BitCalculator::get_mode(&vec![1, 3, 3, 2, 1]), Some(1));
    assert_eq!(BitCalculator::get_mode(&vec![9, 8, 7]), Some(9));
}

#[test]
fn remove_mode_keeps_what_is_above_it() {
    assert_eq!(BitCalculator::remove_mode(&vec![5, 2, 2, 9, -3, 2]), vec![5, 0, 0, 9, 0, 0]);
    assert_eq!(BitCalculator::remove_mode(&vec![1, 1, 1]), vec![0, 0, 0]);
    assert_eq!(BitCalculator::remove_mode(&Vec::new()), Vec::<i64>::new());
}

#[test]
fn envelope_of_six_samples() {
    // at 4 kHz a millisecond is four samples, half of it two;
    // the floor is 5: the mean of 1 and 9, above the mean of 5, 7, 0 and 3
    let calculator = BitCalculator::new(track_at(4_000, &[5, -1, 7, 0, -9, 3]));
    let out = calculator.run_calculator();
    // magnitudes 5 0 7 0 9 0 sum to 5 12 12 16 16 9 over their windows,
    // and 12 comes first among the commonest
    assert_eq!(out.get_volume(), vec![0, 0, 0, 16, 16, 0]);
    assert_eq!(out.get_time(), vec![10, 11, 12, 13, 14, 15]);
    assert_eq!(out.samplerate, 4_000);
}

#[test]
fn envelope_without_a_window() {
    // under 1500 Hz half a millisecond holds no sample, and every sum is zero
    let out = BitCalculator::new(track_at(1_000, &[5, -1, 7])).run_calculator();
    assert_eq!(out.get_volume(), vec![0, 0, 0]);
    assert_eq!(out.get_time(), vec![10, 11, 12]);
    let none = BitCalculator::new(track_at(0, &[])).run_calculator();
    assert!(none.track.is_empty());
}

#[test]
fn envelope_saturates() {
    let calculator = BitCalculator::new(track_at(2_000, &[i64::MAX, i64::MIN, i64::MAX, 0]));
    let out = calculator.run_calculator();
    // the floor is the mean magnitude of the one negative sample, 2^63,
    // which only that sample reaches; its magnitude is kept as the
    // largest amplitude, and lies in the windows of two samples
    assert_eq!(out.get_volume(), vec![0, i64::MAX, i64::MAX, 0]);
}
