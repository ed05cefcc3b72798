use timegrapher::audio::io::{
    get_connectors, sample_collector, stamp, tally, AudioStream, AudioStreamBuilder,
    CollectReport, Connector, Delivery, Producer, RawSample, SampleFormat, StreamConfig,
    StreamError, CHANNEL_CAPACITY,
};
use tokio::sync::mpsc::channel;

fn names(list: &[&str]) -> Vec<String> {
    list.iter().map(|s| s.to_string()).collect()
}

fn config(format: SampleFormat) -> Option<StreamConfig> {
    Some(StreamConfig { sample_rate: 48_000, sample_format: format })
}

fn stream_at(rate: u32) -> AudioStream {
    let con = Connector::new("host".to_string(), names(&["mic"]));
    let cfg = Some(StreamConfig { sample_rate: rate, sample_format: SampleFormat::I16 });
    match AudioStreamBuilder::new(&con, &"mic".to_string(), cfg) {
        Ok(builder) => builder.build(),
        Err(_) => panic!("the device exists and its format is read"),
    }
}

#[test]
fn connector_lists_each_name_once() {
    let con = Connector::new("ALSA".to_string(), names(&["mic", "line", "mic", "aux", "line"]));
    // each name stands where it came first
    assert_eq!(con.list_device_names(), Some(names(&["mic", "line", "aux"])));
    assert_eq!(con.device_count(), 3);
    assert_eq!(con.host(), "ALSA");
}

#[test]
fn connector_without_devices_lists_none() {
    let con = Connector::new("ALSA".to_string(), Vec::new());
    assert_eq!(con.list_device_names(), None);
    assert_eq!(con.device_count(), 0);
    assert_eq!(con.resolve(&"mic".to_string()), None);
}

#[test]
fn later_device_takes_the_name() {
    let con = Connector::new("ALSA".to_string(), names(&["mic", "line", "mic", "aux"]));
    assert_eq!(con.resolve(&"mic".to_string()), Some(2));
    assert_eq!(con.resolve(&"line".to_string()), Some(1));
    assert_eq!(con.resolve(&"aux".to_string()), Some(3));
    assert_eq!(con.resolve(&"none".to_string()), None);
    assert_eq!(con.resolve(&"".to_string()), None);
}

#[test]
fn connectors_for_every_host() {
    let hosts = vec![
        Some(("ALSA".to_string(), names(&["mic", "line"]))),
        Some(("JACK".to_string(), names(&[]))),
    ];
    let connectors = get_connectors(&hosts).unwrap();
    assert_eq!(connectors.len(), 2);
    assert_eq!(connectors[0].host(), "ALSA");
    assert_eq!(connectors[0].resolve(&"line".to_string()), Some(1));
    assert_eq!(connectors[1].host(), "JACK");
    assert_eq!(connectors[1].list_device_names(), None);
    assert_eq!(get_connectors(&Vec::new()).unwrap().len(), 0);
}

#[test]
fn one_failed_host_fails_them_all() {
    let hosts = vec![Some(("ALSA".to_string(), names(&["mic"]))), None];
    assert!(get_connectors(&hosts).is_none());
    assert!(get_connectors(&vec![None]).is_none());
}

#[test]
fn stream_conf_of_a_known_device() {
    let con = Connector::new("ALSA".to_string(), names(&["mic", "line"]));
    let found = con.get_stream_conf(&"line".to_string(), config(SampleFormat::U8));
    assert_eq!(
        found,
        Ok((1, StreamConfig { sample_rate: 48_000, sample_format: SampleFormat::U8 }))
    );
}

#[test]
fn stream_conf_device_not_found() {
    let con = Connector::new("ALSA".to_string(), names(&["mic"]));
    let none = con.get_stream_conf(&"line".to_string(), config(SampleFormat::I16));
    assert_eq!(none, Err(StreamError::DeviceNotFound));
    // the device is looked up before its configuration is looked at
    assert_eq!(con.get_stream_conf(&"line".to_string(), None), Err(StreamError::DeviceNotFound));
}

#[test]
fn stream_conf_config_unavailable() {
    let con = Connector::new("ALSA".to_string(), names(&["mic"]));
    assert_eq!(con.get_stream_conf(&"mic".to_string(), None), Err(StreamError::ConfigUnavailable));
}

#[test]
fn builder_takes_the_four_formats() {
    let con = Connector::new("ALSA".to_string(), names(&["a", "mic"]));
    for format in [SampleFormat::I8, SampleFormat::I16, SampleFormat::I32, SampleFormat::F32] {
        assert!(format.is_supported());
        match AudioStreamBuilder::new(&con, &"mic".to_string(), config(format)) {
            Ok(builder) => {
                assert_eq!(builder.samplerate(), 48_000);
                assert_eq!(builder.device(), 1);
                assert_eq!(builder.format(), format);
            }
            Err(e) => panic!("{:?} refused: {:?}", format, e),
        }
    }
}

#[test]
fn builder_refuses_the_other_formats() {
    let con = Connector::new("ALSA".to_string(), names(&["mic"]));
    for format in [
        SampleFormat::I64,
        SampleFormat::U8,
        SampleFormat::U16,
        SampleFormat::U32,
        SampleFormat::U64,
        SampleFormat::F64,
    ] {
        assert!(!format.is_supported());
        let made = AudioStreamBuilder::new(&con, &"mic".to_string(), config(format));
        assert!(matches!(made, Err(StreamError::UnsupportedFormat)));
    }
}

#[test]
fn builder_reports_a_missing_device_and_a_missing_config() {
    let con = Connector::new("ALSA".to_string(), names(&["mic"]));
    let missing = AudioStreamBuilder::new(&con, &"line".to_string(), config(SampleFormat::U8));
    assert!(matches!(missing, Err(StreamError::DeviceNotFound)));
    let silent = AudioStreamBuilder::new(&con, &"mic".to_string(), None);
    assert!(matches!(silent, Err(StreamError::ConfigUnavailable)));
}

#[test]
fn built_stream_starts_empty() {
    let stream = stream_at(44_100);
    assert_eq!(stream.samplerate(), 44_100);
    assert!(stream.get_stream().is_empty());
    assert!(!stream.is_ended());
}

#[test]
fn raw_samples_pass_through_as_their_value() {
    assert_eq!(100i16.amplitude(), 100_000_000);
    assert_eq!((-50i16).amplitude(), -50_000_000);
    assert_eq!(0i16.amplitude(), 0);
    assert_eq!(i8::MIN.amplitude(), -128_000_000);
    assert_eq!(i8::MAX.amplitude(), 127_000_000);
    assert_eq!(i16::MIN.amplitude(), -32_768_000_000);
    assert_eq!(i32::MAX.amplitude(), 2_147_483_647_000_000);
    assert_eq!(i32::MIN.amplitude(), -2_147_483_648_000_000);
}

#[test]
fn stamp_advances_the_clock_by_one_tick() {
    let mut clock = 41;
    assert_eq!(stamp(&mut clock, -7), (42, -7));
    assert_eq!(clock, 42);
    assert_eq!(stamp(&mut clock, 9), (43, 9));
    assert_eq!(clock, 43);
}

#[test]
fn channel_holds_ten_thousand_samples() {
    assert_eq!(CHANNEL_CAPACITY, 10_000);
    let (tx, _rx) = channel::<(u64, i64)>(CHANNEL_CAPACITY);
    let mut producer = Producer::new(tx);
    let buffer = vec![1i16; 10_001];
    let report = sample_collector(&buffer, &mut producer);
    assert_eq!(report, CollectReport { taken: 10_001, sent: 10_000, dropped: 1, closed: false });
}

#[test]
fn collector_stamps_consecutive_ticks() {
    let (tx, mut rx) = channel::<(u64, i64)>(CHANNEL_CAPACITY);
    let mut producer = Producer::new(tx);
    assert_eq!(producer.last_time(), 0);
    let first = sample_collector(&[1i8, 2, 3], &mut producer);
    assert_eq!(first, CollectReport { taken: 3, sent: 3, dropped: 0, closed: false });
    assert_eq!(producer.last_time(), 3);
    // the clock carries over to the next buffer
    let second = sample_collector(&[4i8, 5], &mut producer);
    assert_eq!(second, CollectReport { taken: 2, sent: 2, dropped: 0, closed: false });
    assert_eq!(producer.last_time(), 5);
    let mut last = 0;
    let mut level = 1;
    while let Ok((tick, amplitude)) = rx.try_recv() {
        assert_eq!(tick, last + 1);
        assert_eq!(amplitude, level * 1_000_000);
        last = tick;
        level += 1;
    }
    assert_eq!(last, 5);
}

#[test]
fn collector_drops_what_a_full_channel_cannot_take() {
    let (tx, mut rx) = channel::<(u64, i64)>(2);
    let mut producer = Producer::new(tx);
    let report = sample_collector(&[7i32, 8, 9, 10], &mut producer);
    assert_eq!(report, CollectReport { taken: 4, sent: 2, dropped: 2, closed: false });
    // the clock counts the dropped samples too
    assert_eq!(producer.last_time(), 4);
    assert_eq!(rx.try_recv().ok(), Some((1, 7_000_000)));
    assert_eq!(rx.try_recv().ok(), Some((2, 8_000_000)));
    assert!(rx.try_recv().is_err());
    // with room again, the next sample is taken, three ticks after the last
    let next = sample_collector(&[11i32], &mut producer);
    assert_eq!(next, CollectReport { taken: 1, sent: 1, dropped: 0, closed: false });
    assert_eq!(rx.try_recv().ok(), Some((5, 11_000_000)));
}

#[test]
fn collector_stops_when_the_receiver_is_gone() {
    let (tx, rx) = channel::<(u64, i64)>(8);
    drop(rx);
    let mut producer = Producer::new(tx);
    let report = sample_collector(&[1i16, 2, 3], &mut producer);
    assert_eq!(report, CollectReport { taken: 1, sent: 0, dropped: 0, closed: true });
    assert_eq!(producer.last_time(), 1);
}

#[test]
fn collector_stops_at_the_last_tick() {
    let (tx, mut rx) = channel::<(u64, i64)>(8);
    let mut producer = Producer::resume(tx, u64::MAX - 2);
    assert_eq!(producer.last_time(), u64::MAX - 2);
    let report = sample_collector(&[1i16, 2, 3, 4], &mut producer);
    assert_eq!(report, CollectReport { taken: 2, sent: 2, dropped: 0, closed: false });
    assert_eq!(producer.last_time(), u64::MAX);
    assert_eq!(rx.try_recv().ok(), Some((u64::MAX - 1, 1_000_000)));
    assert_eq!(rx.try_recv().ok(), Some((u64::MAX, 2_000_000)));
    assert!(rx.try_recv().is_err());
    // nothing more is counted
    let next = sample_collector(&[5i16], &mut producer);
    assert_eq!(next, CollectReport { taken: 0, sent: 0, dropped: 0, closed: false });
    assert_eq!(producer.last_time(), u64::MAX);
}

#[test]
fn producer_takes_up_the_count() {
    let (tx, mut rx) = channel::<(u64, i64)>(8);
    let mut producer = Producer::resume(tx, 41);
    let report = sample_collector(&[7i8, 8], &mut producer);
    assert_eq!(report, CollectReport { taken: 2, sent: 2, dropped: 0, closed: false });
    assert_eq!(rx.try_recv().ok(), Some((42, 7_000_000)));
    assert_eq!(rx.try_recv().ok(), Some((43, 8_000_000)));
}

#[test]
fn collector_on_an_empty_buffer() {
    let (tx, mut rx) = channel::<(u64, i64)>(8);
    let mut producer = Producer::new(tx);
    let data: [i16; 0] = [];
    let report = sample_collector(&data, &mut producer);
    assert_eq!(report, CollectReport { taken: 0, sent: 0, dropped: 0, closed: false });
    assert_eq!(producer.last_time(), 0);
    assert!(rx.try_recv().is_err());
}

#[test]
fn offer_reports_what_became_of_the_sample() {
    let (tx, mut rx) = channel::<(u64, i64)>(1);
    let mut producer = Producer::new(tx);
    assert_eq!(producer.offer_sample(5), Delivery::Sent);
    assert_eq!(producer.offer_sample(6), Delivery::Full);
    assert_eq!(producer.last_time(), 2);
    assert_eq!(rx.try_recv().ok(), Some((1, 5)));
    assert_eq!(producer.offer_sample(7), Delivery::Sent);
    assert_eq!(rx.try_recv().ok(), Some((3, 7)));
    rx.close();
    assert_eq!(producer.offer_sample(8), Delivery::Closed);
    assert_eq!(producer.last_time(), 4);
}

#[test]
fn tally_counts_each_outcome() {
    let start = CollectReport { taken: 0, sent: 0, dropped: 0, closed: false };
    let one = tally(start, Delivery::Sent);
    assert_eq!(one, CollectReport { taken: 1, sent: 1, dropped: 0, closed: false });
    let two = tally(one, Delivery::Full);
    assert_eq!(two, CollectReport { taken: 2, sent: 1, dropped: 1, closed: false });
    let three = tally(two, Delivery::Closed);
    assert_eq!(three, CollectReport { taken: 3, sent: 1, dropped: 1, closed: true });
}

#[test]
fn three_int16_samples_end_to_end() {
    let (tx, mut rx) = channel::<(u64, i64)>(CHANNEL_CAPACITY);
    let mut producer = Producer::new(tx);
    sample_collector(&[100i16, -50, 0], &mut producer);
    let mut stream = stream_at(48_000);
    while let Ok(sample) = rx.try_recv() {
        stream.feed(sample);
    }
    let track = stream.get_track_by_framesize(3).unwrap();
    assert_eq!(track.samplerate, 48_000);
    // ticks 1, 2, 3 of 1/48000 s, and the values 100, -50 and 0 in millionths
    assert_eq!(track.track, vec![(1, 100_000_000), (2, -50_000_000), (3, 0)]);
    assert!(stream.get_stream().is_empty());
}

#[test]
fn frame_by_size_waits_for_enough_samples() {
    let mut stream = stream_at(8);
    stream.feed((1, 10));
    stream.feed((2, 20));
    assert!(stream.get_track_by_framesize(3).is_none());
    assert_eq!(stream.get_stream(), vec![(1, 10), (2, 20)]);
    stream.feed((3, 30));
    stream.feed((4, 40));
    let track = stream.get_track_by_framesize(3).unwrap();
    assert_eq!(track.track, vec![(1, 10), (2, 20), (3, 30)]);
    assert_eq!(track.samplerate, 8);
    assert_eq!(stream.get_stream(), vec![(4, 40)]);
}

#[test]
fn frame_by_size_is_short_when_the_stream_ends() {
    let mut stream = stream_at(8);
    stream.feed((1, 10));
    stream.feed((2, 20));
    stream.end();
    assert!(stream.is_ended());
    let track = stream.get_track_by_framesize(3).unwrap();
    assert_eq!(track.track, vec![(1, 10), (2, 20)]);
    assert!(stream.get_stream().is_empty());
    // nothing is left, and nothing will come
    assert!(stream.get_track_by_framesize(3).unwrap().track.is_empty());
}

#[test]
fn frame_of_no_samples_is_ready_at_once() {
    let mut stream = stream_at(8);
    assert!(stream.get_track_by_framesize(0).unwrap().track.is_empty());
    stream.feed((1, 10));
    assert!(stream.get_track_by_framesize(0).unwrap().track.is_empty());
    assert_eq!(stream.get_stream(), vec![(1, 10)]);
}

#[test]
fn frame_by_duration_includes_the_sample_that_passes_it() {
    // at 4 Hz half a second is passed by the third sample
    let mut stream = stream_at(4);
    for tick in 1..=5 {
        stream.feed((tick, tick as i64));
    }
    let track = stream.get_track_by_duration(500_000).unwrap();
    assert_eq!(track.track, vec![(1, 1), (2, 2), (3, 3)]);
    assert_eq!(track.samplerate, 4);
    assert_eq!(stream.get_stream(), vec![(4, 4), (5, 5)]);
    // two samples are left, and 0.3 s are passed by the second
    let next = stream.get_track_by_duration(300_000).unwrap();
    assert_eq!(next.track, vec![(4, 4), (5, 5)]);
}

#[test]
fn frame_by_duration_lasts_at_least_the_duration() {
    for (rate, duration) in [(4u32, 600_000u64), (48_000, 1_000), (44_100, 333), (3, 1_000_000)] {
        let mut stream = stream_at(rate);
        for tick in 1..=200 {
            stream.feed((tick, 0));
        }
        let count = stream.get_track_by_duration(duration).unwrap().track.len() as u128;
        // count / rate > duration / 10^6, and (count - 1) / rate is not
        assert!(count * 1_000_000 > duration as u128 * rate as u128);
        assert!((count - 1) * 1_000_000 <= duration as u128 * rate as u128);
    }
}

#[test]
fn frame_by_duration_waits_and_ends() {
    let mut stream = stream_at(4);
    stream.feed((1, 1));
    assert!(stream.get_track_by_duration(500_000).is_none());
    assert_eq!(stream.get_stream(), vec![(1, 1)]);
    stream.end();
    assert_eq!(stream.get_track_by_duration(500_000).unwrap().track, vec![(1, 1)]);
}

#[test]
fn frame_by_duration_of_nothing_is_one_sample() {
    let mut stream = stream_at(4);
    assert!(stream.get_track_by_duration(0).is_none());
    stream.feed((1, 1));
    stream.feed((2, 2));
    assert_eq!(stream.get_track_by_duration(0).unwrap().track, vec![(1, 1)]);
}

#[test]
fn frame_by_duration_too_long_to_hold() {
    let mut stream = stream_at(u32::MAX);
    stream.feed((1, 1));
    assert!(stream.get_track_by_duration(u64::MAX).is_none());
    stream.end();
    assert_eq!(stream.get_track_by_duration(u64::MAX).unwrap().track, vec![(1, 1)]);
}
