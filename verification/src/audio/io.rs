//! From the devices of an audio host to a stream of timestamped samples.
//!
//! Nothing here talks to the hardware. A [`Connector`] is built from the
//! device names that a host reported, an [`AudioStreamBuilder`] from what
//! the device said of its default input, and an [`AudioStream`] is fed the
//! samples as they leave the channel.

use vstd::prelude::*;
use vstd::arithmetic::div_mod::{lemma_fundamental_div_mod, lemma_mod_bound};
use crate::audio::track::{contiguous, AudioTrack};
use crate::units::SCALE;

verus! {

/// How many samples the channel between the capture callback and the
/// stream holds before further ones are dropped.
pub const CHANNEL_CAPACITY: usize = 10000;

/// Why no stream could be set up.
#[derive(Clone, Copy, Debug, PartialEq, Eq, Structural)]
pub enum StreamError {
    /// The connector knows no device of that name.
    DeviceNotFound,
    /// The device gave no default input configuration.
    ConfigUnavailable,
    /// The device delivers samples in a form that is not read here.
    UnsupportedFormat,
}

/// The forms in which a device may deliver its samples.
#[derive(Clone, Copy, Debug, PartialEq, Eq, Structural)]
pub enum SampleFormat {
    I8,
    I16,
    I32,
    I64,
    U8,
    U16,
    U32,
    U64,
    F32,
    F64,
}

impl SampleFormat {
    /// The forms that are read: signed integers of 8, 16 and 32 bits, and
    /// 32-bit floating point.
    pub open spec fn supported(self) -> bool {
        self == SampleFormat::I8 || self == SampleFormat::I16 || self == SampleFormat::I32 || self
            == SampleFormat::F32
    }

    pub fn is_supported(self) -> (yes: bool)
        ensures
            yes == self.supported(),
    {
        match self {
            SampleFormat::I8 | SampleFormat::I16 | SampleFormat::I32 | SampleFormat::F32 => true,
            _ => false,
        }
    }
}

/// What a device says of its default input: the rate in Hz and the form of
/// the samples.
#[derive(Clone, Copy, Debug, PartialEq, Eq, Structural)]
pub struct StreamConfig {
    pub sample_rate: u32,
    pub sample_format: SampleFormat,
}

/// The handles that a host's devices end up with when they are entered
/// under their names one after the other: each device's handle is its
/// place in the enumeration, and of two devices with one name the later
/// takes the name.
pub open spec fn enumerated(names: Seq<Seq<char>>) -> Map<Seq<char>, usize>
    decreases names.len(),
{
    if names.len() == 0 {
        Map::empty()
    } else {
        enumerated(names.drop_last()).insert(names.last(), (names.len() - 1) as usize)
    }
}

/// The names without their repetitions: each name once, at the place where
/// it came first.
pub open spec fn distinct(names: Seq<Seq<char>>) -> Seq<Seq<char>>
    decreases names.len(),
{
    if names.len() == 0 {
        Seq::empty()
    } else {
        let front = distinct(names.drop_last());
        if front.contains(names.last()) {
            front
        } else {
            front.push(names.last())
        }
    }
}

/// The names as texts, in order.
pub open spec fn name_views(names: Seq<String>) -> Seq<Seq<char>> {
    Seq::new(names.len(), |i: int| names[i]@)
}

/// The names of `entries`, in order.
spec fn entry_names(entries: Seq<(String, usize)>) -> Seq<Seq<char>> {
    Seq::new(entries.len(), |i: int| entries[i].0@)
}

/// The map from name to handle that `entries` spell out, where no name
/// occurs twice.
spec fn entry_map(entries: Seq<(String, usize)>) -> Map<Seq<char>, usize> {
    Map::new(
        |name: Seq<char>| entry_names(entries).contains(name),
        |name: Seq<char>| entries[entry_names(entries).index_of(name)].1,
    )
}

/// One audio host and its input devices, each under its name.
pub struct Connector {
    host: String,
    devices: Vec<(String, usize)>,
}

impl Connector {
    /// The name of the host.
    pub closed spec fn host_name(&self) -> Seq<char> {
        self.host@
    }

    /// The handle of each device, by the device's name.
    pub closed spec fn handles(&self) -> Map<Seq<char>, usize> {
        entry_map(self.devices@)
    }

    /// The names of the devices, in the order in which they are listed.
    pub closed spec fn names(&self) -> Seq<Seq<char>> {
        entry_names(self.devices@)
    }

    /// No name is entered twice.
    #[verifier::type_invariant]
    spec fn wf(&self) -> bool {
        entry_names(self.devices@).no_duplicates()
    }

    /// Enters the devices of `host` under their names, in the order in
    /// which the host reported them.
    pub fn new(host: String, names: Vec<String>) -> (made: Self)
        ensures
            made.host_name() == host@,
            made.handles() == enumerated(name_views(names@)),
            made.names() == distinct(name_views(names@)),
    {
        let ghost all = name_views(names@);
        let mut devices: Vec<(String, usize)> = Vec::new();
        let mut i: usize = 0;
        assert(entry_map(devices@) =~= enumerated(all.take(0)));
        assert(entry_names(devices@) =~= distinct(all.take(0)));
        while i < names.len()
            invariant
                i <= names.len(),
                all == name_views(names@),
                entry_names(devices@).no_duplicates(),
                entry_map(devices@) == enumerated(all.take(i as int)),
                entry_names(devices@) == distinct(all.take(i as int)),
            decreases names.len() - i,
        {
            let name = names[i].clone();
            let ghost before = devices@;
            let found = position_of(&devices, &name);
            match found {
                Some(at) => {
                    devices.set(at, (name, i));
                    assert(entry_names(devices@) =~= entry_names(before));
                },
                None => {
                    devices.push((name, i));
                    assert(entry_names(devices@) =~= entry_names(before).push(name@));
                },
            }
            proof {
                assert(all.take(i + 1).drop_last() =~= all.take(i as int));
                assert(all.take(i + 1).last() == name@);
                let names_now = entry_names(devices@);
                let names_before = entry_names(before);
                assert forall|key: Seq<char>|
                    entry_map(devices@).dom().contains(key) <==> entry_map(before).insert(
                        name@,
                        i,
                    ).dom().contains(key) by {
                    if names_now.contains(key) {
                        let j = names_now.index_of(key);
                        if j < names_before.len() {
                            assert(names_before[j] == key);
                        }
                    }
                    if names_before.contains(key) {
                        let j = names_before.index_of(key);
                        assert(names_now[j] == key);
                    }
                    if key == name@ {
                        if found.is_some() {
                            assert(names_now[found.unwrap() as int] == key);
                        } else {
                            assert(names_now[before.len() as int] == key);
                        }
                    }
                }
                assert forall|key: Seq<char>| entry_map(devices@).dom().contains(key) implies (
                #[trigger] entry_map(devices@)[key]) == entry_map(before).insert(name@, i)[key] by {
                    let j = names_now.index_of(key);
                    assert(names_now[j] == key);
                    if key == name@ {
                        if found.is_some() {
                            assert(names_now[found.unwrap() as int] == key);
                        } else {
                            assert(names_now[before.len() as int] == key);
                        }
                    } else {
                        assert(names_before[j] == key);
                        let k = names_before.index_of(key);
                        assert(names_before[k] == key);
                    }
                }
                assert(entry_map(devices@) =~= entry_map(before).insert(name@, i));
                if found.is_some() {
                    assert(names_before[found.unwrap() as int] == name@);
                    assert(names_before.contains(name@));
                }
            }
            i += 1;
        }
        assert(all.take(i as int) =~= all);
        Connector { host, devices }
    }

    /// The names of the devices, or `None` where the host has none. Each
    /// name is listed once, and they are the names that have a handle.
    pub fn list_device_names(&self) -> (names: Option<Vec<String>>)
        ensures
            names.is_none() <==> self.names().len() == 0,
            names.is_none() <==> self.handles().dom() =~= Set::<Seq<char>>::empty(),
            names.is_some() ==> {
                let listed = name_views(names.unwrap()@);
                &&& listed == self.names()
                &&& listed.no_duplicates()
                &&& listed.to_set() =~= self.handles().dom()
            },
    {
        proof {
            use_type_invariant(self);
        }
        if self.devices.len() == 0 {
            assert(forall|name: Seq<char>| !entry_names(self.devices@).contains(name));
            return None;
        }
        let mut names: Vec<String> = Vec::new();
        let mut i: usize = 0;
        while i < self.devices.len()
            invariant
                i <= self.devices.len(),
                names@.len() == i,
                forall|j: int| 0 <= j < i ==> (#[trigger] names@[j])@ == self.devices@[j].0@,
            decreases self.devices.len() - i,
        {
            names.push(self.devices[i].0.clone());
            i += 1;
        }
        proof {
            let listed = name_views(names@);
            assert(listed =~= entry_names(self.devices@));
            assert(entry_names(self.devices@)[0] == self.devices@[0].0@);
            assert(self.handles().dom().contains(self.devices@[0].0@));
            assert forall|name: Seq<char>| listed.to_set().contains(name)
                <==> self.handles().dom().contains(name) by {}
        }
        Some(names)
    }

    /// The handle of the device called `name`, if there is one.
    pub fn resolve(&self, name: &String) -> (handle: Option<usize>)
        ensures
            handle.is_some() <==> self.handles().dom().contains(name@),
            handle.is_some() ==> handle.unwrap() == self.handles()[name@],
    {
        proof {
            use_type_invariant(self);
        }
        match position_of(&self.devices, name) {
            Some(at) => {
                assert(entry_names(self.devices@)[at as int] == name@);
                Some(self.devices[at].1)
            },
            None => None,
        }
    }

    /// The device called `name` with its default input configuration, which
    /// the device was asked for and is handed in as `config`, `None` where
    /// the device gave none.
    pub fn get_stream_conf(&self, name: &String, config: Option<StreamConfig>) -> (found: Result<
        (usize, StreamConfig),
        StreamError,
    >)
        ensures
            match found {
                Ok((handle, conf)) => {
                    &&& self.handles().dom().contains(name@)
                    &&& handle == self.handles()[name@]
                    &&& config == Some(conf)
                },
                Err(StreamError::DeviceNotFound) => !self.handles().dom().contains(name@),
                Err(StreamError::ConfigUnavailable) => self.handles().dom().contains(name@)
                    && config.is_none(),
                Err(StreamError::UnsupportedFormat) => false,
            },
    {
        match self.resolve(name) {
            None => Err(StreamError::DeviceNotFound),
            Some(handle) => match config {
                None => Err(StreamError::ConfigUnavailable),
                Some(conf) => Ok((handle, conf)),
            },
        }
    }

    /// How many devices the host has under names of their own.
    pub fn device_count(&self) -> (count: usize)
        ensures
            count == self.handles().dom().len(),
    {
        proof {
            use_type_invariant(self);
            let names = entry_names(self.devices@);
            names.unique_seq_to_set();
            assert(names.to_set() =~= self.handles().dom());
        }
        self.devices.len()
    }

    /// The name of the host.
    pub fn host(&self) -> (name: &String)
        ensures
            name@ == self.host_name(),
    {
        &self.host
    }
}

/// One connector for each host. `hosts` holds what each host reported, in
/// the order of the hosts: its name and the names of its input devices, or
/// `None` where the host or its devices could not be had. One such host and
/// there are no connectors at all.
pub fn get_connectors(hosts: &Vec<Option<(String, Vec<String>)>>) -> (connectors: Option<
    Vec<Connector>,
>)
    ensures
        connectors.is_none() <==> exists|i: int| 0 <= i < hosts@.len() && hosts@[i].is_none(),
        connectors.is_some() ==> {
            &&& connectors.unwrap()@.len() == hosts@.len()
            &&& forall|i: int|
                0 <= i < hosts@.len() ==> {
                    &&& (#[trigger] connectors.unwrap()@[i]).host_name() == hosts@[i].unwrap().0@
                    &&& connectors.unwrap()@[i].handles() == enumerated(
                        name_views(hosts@[i].unwrap().1@),
                    )
                    &&& connectors.unwrap()@[i].names() == distinct(
                        name_views(hosts@[i].unwrap().1@),
                    )
                }
        },
{
    let mut connectors: Vec<Connector> = Vec::new();
    let mut i: usize = 0;
    while i < hosts.len()
        invariant
            i <= hosts.len(),
            connectors@.len() == i,
            forall|j: int| 0 <= j < i ==> hosts@[j].is_some(),
            forall|j: int|
                0 <= j < i ==> {
                    &&& (#[trigger] connectors@[j]).host_name() == hosts@[j].unwrap().0@
                    &&& connectors@[j].handles() == enumerated(name_views(hosts@[j].unwrap().1@))
                    &&& connectors@[j].names() == distinct(name_views(hosts@[j].unwrap().1@))
                },
        decreases hosts.len() - i,
    {
        match &hosts[i] {
            None => {
                return None;
            },
            Some((host, names)) => {
                let mut copied: Vec<String> = Vec::new();
                let mut k: usize = 0;
                while k < names.len()
                    invariant
                        k <= names.len(),
                        copied@.len() == k,
                        forall|l: int| 0 <= l < k ==> (#[trigger] copied@[l])@ == names@[l]@,
                    decreases names.len() - k,
                {
                    copied.push(names[k].clone());
                    k += 1;
                }
                assert(name_views(copied@) =~= name_views(names@));
                connectors.push(Connector::new(host.clone(), copied));
            },
        }
        i += 1;
    }
    Some(connectors)
}

/// What is known of a device once it has been found and has said how it
/// delivers its samples; all that is left to do is to start it.
pub struct AudioStreamBuilder {
    samplerate: u32,
    device: usize,
    format: SampleFormat,
}

impl View for AudioStreamBuilder {
    type V = (u32, usize, SampleFormat);

    /// The rate, the device's handle and the form of its samples.
    closed spec fn view(&self) -> (u32, usize, SampleFormat) {
        (self.samplerate, self.device, self.format)
    }
}

impl AudioStreamBuilder {
    /// Prepares a stream from the device called `dev`. `config` is the
    /// default input configuration that the device gave when asked, `None`
    /// where it gave none; it is looked at only where the device exists.
    pub fn new(con: &Connector, dev: &String, config: Option<StreamConfig>) -> (made: Result<
        Self,
        StreamError,
    >)
        ensures
            match made {
                Ok(builder) => {
                    &&& con.handles().dom().contains(dev@)
                    &&& config.is_some()
                    &&& config.unwrap().sample_format.supported()
                    &&& builder@ == (
                        config.unwrap().sample_rate,
                        con.handles()[dev@],
                        config.unwrap().sample_format,
                    )
                },
                Err(StreamError::DeviceNotFound) => !con.handles().dom().contains(dev@),
                Err(StreamError::ConfigUnavailable) => con.handles().dom().contains(dev@)
                    && config.is_none(),
                Err(StreamError::UnsupportedFormat) => {
                    &&& con.handles().dom().contains(dev@)
                    &&& config.is_some()
                    &&& !config.unwrap().sample_format.supported()
                },
            },
    {
        match con.get_stream_conf(dev, config) {
            Err(e) => Err(e),
            Ok((device, conf)) => {
                if conf.sample_format.is_supported() {
                    Ok(
                        AudioStreamBuilder {
                            samplerate: conf.sample_rate,
                            device,
                            format: conf.sample_format,
                        },
                    )
                } else {
                    Err(StreamError::UnsupportedFormat)
                }
            },
        }
    }

    /// The stream that the started device feeds: at the builder's rate,
    /// with nothing received yet and the producer still there.
    pub fn build(self) -> (stream: AudioStream)
        ensures
            stream.rate() == self@.0,
            stream.pending() == Seq::<(u64, i64)>::empty(),
            !stream.ended(),
    {
        AudioStream { samplerate: self.samplerate, stream: Vec::new(), ended: false }
    }

    pub fn samplerate(&self) -> (rate: u32)
        ensures
            rate == self@.0,
    {
        self.samplerate
    }

    /// The handle of the device to start.
    pub fn device(&self) -> (handle: usize)
        ensures
            handle == self@.1,
    {
        self.device
    }

    /// The form in which the device delivers its samples.
    pub fn format(&self) -> (format: SampleFormat)
        ensures
            format == self@.2,
    {
        self.format
    }
}

/// A sample as the hardware delivers it.
pub trait RawSample: Copy {
    /// The numeric value of the sample.
    spec fn level(self) -> int;

    /// The sample as an amplitude: its numeric value, not rescaled, counted
    /// in millionths.
    fn amplitude(self) -> (amplitude: i64)
        ensures
            amplitude as int == self.level() * SCALE;
}

impl RawSample for i8 {
    open spec fn level(self) -> int {
        self as int
    }

    fn amplitude(self) -> (amplitude: i64) {
        (self as i64) * SCALE
    }
}

impl RawSample for i16 {
    open spec fn level(self) -> int {
        self as int
    }

    fn amplitude(self) -> (amplitude: i64) {
        (self as i64) * SCALE
    }
}

impl RawSample for i32 {
    open spec fn level(self) -> int {
        self as int
    }

    fn amplitude(self) -> (amplitude: i64) {
        (self as i64) * SCALE
    }
}

/// `tokio::sync::mpsc::Sender`, the sending half of a bounded channel. It is
/// carried through as it is; nothing is known of what is inside.
#[verifier::external_type_specification]
#[verifier::external_body]
#[verifier::reject_recursive_types(T)]
pub struct ExSender<T>(tokio::sync::mpsc::Sender<T>);

/// What became of a sample that was offered to the channel.
#[derive(Clone, Copy, Debug, PartialEq, Eq, Structural)]
pub enum Delivery {
    /// The channel took it.
    Sent,
    /// The channel was full, and the sample is lost.
    Full,
    /// The receiving half is gone, and the sample is lost.
    Closed,
}

/// `tokio::sync::mpsc::Sender::try_send`, which never waits: it hands the
/// sample to the channel, or says that the channel is full or that its
/// receiving half is closed. Which of the three happens depends on what the
/// receiving side has done, so nothing is claimed of the result.
#[verifier::external_body]
fn try_push(sender: &tokio::sync::mpsc::Sender<(u64, i64)>, sample: (u64, i64)) -> (delivery:
    Delivery) {
    match sender.try_send(sample) {
        Ok(()) => Delivery::Sent,
        Err(tokio::sync::mpsc::error::TrySendError::Full(_)) => Delivery::Full,
        Err(tokio::sync::mpsc::error::TrySendError::Closed(_)) => Delivery::Closed,
    }
}

/// `tokio::sync::mpsc::Sender::is_closed`: whether the receiving half has
/// been closed or dropped. It may be closed at any moment, so nothing is
/// claimed of the result.
#[verifier::external_body]
fn receiver_gone(sender: &tokio::sync::mpsc::Sender<(u64, i64)>) -> (gone: bool) {
    sender.is_closed()
}

/// The samples that a producer hands out for `amplitudes` when its clock
/// stands at `clock`: the first one tick later, each further one a tick
/// after the one before.
pub open spec fn stamped(clock: u64, amplitudes: Seq<i64>) -> Seq<(u64, i64)> {
    Seq::new(amplitudes.len(), |i: int| ((clock + i + 1) as u64, amplitudes[i]))
}

/// The amplitudes that a buffer of raw samples stands for.
pub open spec fn amplitudes_of<T: RawSample>(data: Seq<T>) -> Seq<i64> {
    Seq::new(data.len(), |i: int| (data[i].level() * SCALE) as i64)
}

/// Whether `sample` is one of the first `count` of `samples`.
pub open spec fn among(sample: (u64, i64), samples: Seq<(u64, i64)>, count: int) -> bool {
    exists|j: int| 0 <= j < count && j < samples.len() && samples[j] == sample
}

/// Whether the samples lie one tick apart and the last of them at `clock`:
/// what a run without drops has handed over when its clock stands at
/// `clock`.
pub open spec fn gapless(samples: Seq<(u64, i64)>, clock: u64) -> bool {
    &&& contiguous(samples)
    &&& samples.len() > 0 ==> samples.last().0 == clock
}

/// Whether the ticks of the samples rise from each to the next.
pub open spec fn rising(samples: Seq<(u64, i64)>) -> bool {
    forall|i: int, j: int| 0 <= i < j < samples.len() ==> samples[i].0 < samples[j].0
}

/// Advances the clock by one tick and stamps `amplitude` with it.
pub fn stamp(last_time: &mut u64, amplitude: i64) -> (sample: (u64, i64))
    requires
        *old(last_time) < u64::MAX,
    ensures
        *final(last_time) == *old(last_time) + 1,
        sample == (*final(last_time), amplitude),
        sample == stamped(*old(last_time), seq![amplitude])[0],
{
    *last_time = *last_time + 1;
    (*last_time, amplitude)
}

/// The producing side of a capture: the sending half of the channel, the
/// clock, and the record of what the channel has taken.
pub struct Producer {
    sender: tokio::sync::mpsc::Sender<(u64, i64)>,
    last_time: u64,
    delivered: Ghost<Seq<(u64, i64)>>,
}

impl Producer {
    /// The tick of the sample taken last, and zero before the first.
    pub closed spec fn clock(&self) -> u64 {
        self.last_time
    }

    /// The samples that the channel has taken, in the order in which it
    /// took them.
    pub closed spec fn delivered(&self) -> Seq<(u64, i64)> {
        self.delivered@
    }

    /// What the channel has taken rises in its ticks, and none of it is
    /// ahead of the clock.
    #[verifier::type_invariant]
    spec fn wf(&self) -> bool {
        &&& rising(self.delivered@)
        &&& forall|i: int|
            0 <= i < self.delivered@.len() ==> (#[trigger] self.delivered@[i]).0 <= self.last_time
    }

    /// A producer on the sending half of a channel, with the clock at zero.
    pub fn new(sender: tokio::sync::mpsc::Sender<(u64, i64)>) -> (made: Self)
        ensures
            made.clock() == 0,
            made.delivered() == Seq::<(u64, i64)>::empty(),
    {
        Producer { sender, last_time: 0, delivered: Ghost(Seq::empty()) }
    }

    /// A producer that takes up the count at `last_time`, the tick of the
    /// sample taken last.
    pub fn resume(sender: tokio::sync::mpsc::Sender<(u64, i64)>, last_time: u64) -> (made: Self)
        ensures
            made.clock() == last_time,
            made.delivered() == Seq::<(u64, i64)>::empty(),
    {
        Producer { sender, last_time, delivered: Ghost(Seq::empty()) }
    }

    pub fn last_time(&self) -> (tick: u64)
        ensures
            tick == self.clock(),
    {
        self.last_time
    }

    /// Takes one sample: advances the clock by one tick and, unless the
    /// receiving half of the channel is gone, offers the stamped sample to
    /// the channel without waiting. The clock advances whatever becomes of
    /// the sample; where the channel takes it, it is the next in the
    /// record.
    pub fn offer_sample(&mut self, amplitude: i64) -> (delivery: Delivery)
        requires
            old(self).clock() < u64::MAX,
        ensures
            final(self).clock() == old(self).clock() + 1,
            final(self).delivered() == if delivery == Delivery::Sent {
                old(self).delivered().push((final(self).clock(), amplitude))
            } else {
                old(self).delivered()
            },
            rising(final(self).delivered()),
            delivery == Delivery::Sent && gapless(old(self).delivered(), old(self).clock())
                ==> gapless(final(self).delivered(), final(self).clock()),
    {
        proof {
            use_type_invariant(&*self);
        }
        let ghost before = self.delivered@;
        let mut tick: u64 = self.last_time;
        let sample = stamp(&mut tick, amplitude);
        self.last_time = tick;
        let delivery = if receiver_gone(&self.sender) {
            Delivery::Closed
        } else {
            try_push(&self.sender, sample)
        };
        proof {
            if delivery == Delivery::Sent {
                self.delivered@ = self.delivered@.push(sample);
                if gapless(before, (tick - 1) as u64) {
                    let now = self.delivered@;
                    assert forall|i: int| 0 <= i && i + 1 < now.len() implies #[trigger] now[i
                        + 1].0 == now[i].0 + 1 by {
                        if i + 1 < before.len() {
                            assert(before[i + 1].0 == before[i].0 + 1);
                        } else {
                            assert(now[i] == before.last());
                        }
                    }
                }
            }
        }
        delivery
    }
}

/// What a run of the capture callback did with one buffer.
#[derive(Clone, Copy, Debug, PartialEq, Eq, Structural)]
pub struct CollectReport {
    /// How many samples of the buffer were taken, each for one tick.
    pub taken: usize,
    /// How many of them the channel took.
    pub sent: usize,
    /// How many of them were lost to a full channel.
    pub dropped: usize,
    /// Whether the run ended early because the receiving half was gone.
    pub closed: bool,
}

/// The report after one more sample met with `delivery`.
pub open spec fn tallied(report: CollectReport, delivery: Delivery) -> CollectReport {
    match delivery {
        Delivery::Sent => CollectReport {
            taken: (report.taken + 1) as usize,
            sent: (report.sent + 1) as usize,
            ..report
        },
        Delivery::Full => CollectReport {
            taken: (report.taken + 1) as usize,
            dropped: (report.dropped + 1) as usize,
            ..report
        },
        Delivery::Closed => CollectReport {
            taken: (report.taken + 1) as usize,
            closed: true,
            ..report
        },
    }
}

/// Whether the counts of a report add up.
pub open spec fn balanced(report: CollectReport) -> bool {
    report.sent + report.dropped + (if report.closed {
        1int
    } else {
        0
    }) == report.taken
}

/// Enters into the report what became of one more sample.
pub fn tally(report: CollectReport, delivery: Delivery) -> (next: CollectReport)
    requires
        balanced(report),
        report.taken < usize::MAX,
        !report.closed,
    ensures
        next == tallied(report, delivery),
        balanced(next),
{
    match delivery {
        Delivery::Sent => CollectReport {
            taken: report.taken + 1,
            sent: report.sent + 1,
            dropped: report.dropped,
            closed: report.closed,
        },
        Delivery::Full => CollectReport {
            taken: report.taken + 1,
            sent: report.sent,
            dropped: report.dropped + 1,
            closed: report.closed,
        },
        Delivery::Closed => CollectReport {
            taken: report.taken + 1,
            sent: report.sent,
            dropped: report.dropped,
            closed: true,
        },
    }
}

/// The capture callback: takes the samples of one buffer in order, each
/// one tick after the one before, and offers each to the channel without
/// waiting. A sample that meets a full channel is dropped. Once the
/// receiving half is found gone, the rest of the buffer is left alone; so
/// it is once the clock has reached the last tick that it can count.
///
/// The clock ends as many ticks further as samples were taken. What the
/// channel took is added to the record: each such sample is one of the
/// buffer's, stamped with its tick, and where the channel took every
/// sample that was taken, the record grows by exactly these samples. So a
/// run without drops stays one tick apart from sample to sample, within a
/// buffer and from one buffer to the next.
pub fn sample_collector<T: RawSample>(data: &[T], producer: &mut Producer) -> (report:
    CollectReport)
    ensures
        balanced(report),
        report.taken <= data@.len(),
        !report.closed ==> (report.taken == data@.len() || final(producer).clock() == u64::MAX),
        final(producer).clock() == old(producer).clock() + report.taken,
        final(producer).delivered().len() == old(producer).delivered().len() + report.sent,
        final(producer).delivered().take(old(producer).delivered().len() as int) == old(
            producer,
        ).delivered(),
        rising(final(producer).delivered()),
        forall|k: int|
            old(producer).delivered().len() <= k < final(producer).delivered().len() ==> among(
                #[trigger] final(producer).delivered()[k],
                stamped(old(producer).clock(), amplitudes_of(data@)),
                report.taken as int,
            ),
        report.sent == report.taken ==> final(producer).delivered() == old(producer).delivered()
            + stamped(old(producer).clock(), amplitudes_of(data@)).take(report.taken as int),
        report.sent == report.taken && gapless(old(producer).delivered(), old(producer).clock())
            ==> gapless(final(producer).delivered(), final(producer).clock()),
{
    let ghost before = producer.delivered();
    let ghost start = producer.clock();
    let ghost all = stamped(start, amplitudes_of(data@));
    let mut report = CollectReport { taken: 0, sent: 0, dropped: 0, closed: false };
    let mut i: usize = 0;
    proof {
        use_type_invariant(&*producer);
        assert(producer.delivered().take(before.len() as int) =~= before);
        assert(before + all.take(0) =~= before);
    }
    while i < data.len() && !report.closed && producer.last_time() < u64::MAX
        invariant
            i <= data@.len(),
            start + i <= u64::MAX,
            all == stamped(start, amplitudes_of(data@)),
            balanced(report),
            report.taken == i,
            producer.clock() == start + i,
            producer.delivered().len() == before.len() + report.sent,
            producer.delivered().take(before.len() as int) == before,
            rising(producer.delivered()),
            forall|k: int|
                before.len() <= k < producer.delivered().len() ==> among(
                    #[trigger] producer.delivered()[k],
                    all,
                    i as int,
                ),
            report.sent == i ==> producer.delivered() == before + all.take(i as int),
        decreases data@.len() - i + (if report.closed { 0int } else { 1 }),
    {
        let ghost held = producer.delivered();
        let amplitude: i64 = data[i].amplitude();
        let delivery = producer.offer_sample(amplitude);
        report = tally(report, delivery);
        proof {
            assert(all[i as int] == ((start + i + 1) as u64, amplitude));
            let now = producer.delivered();
            assert(now.take(before.len() as int) =~= before) by {
                assert(held.take(before.len() as int) == before);
                assert forall|k: int| 0 <= k < before.len() implies now.take(
                    before.len() as int,
                )[k] == before[k] by {
                    assert(held.take(before.len() as int)[k] == held[k]);
                }
            }
            assert forall|k: int| before.len() <= k < now.len() implies among(
                #[trigger] now[k],
                all,
                i + 1,
            ) by {
                if k < held.len() {
                    assert(among(held[k], all, i as int));
                    let j = choose|j: int| 0 <= j < i && j < all.len() && all[j] == held[k];
                    assert(all[j] == now[k]);
                } else {
                    assert(all[i as int] == now[k]);
                }
            }
            if report.sent == i + 1 {
                assert(now =~= before + all.take(i + 1));
            }
        }
        i += 1;
    }
    proof {
        if report.sent == report.taken && gapless(before, start) {
            let fresh = amplitudes_of(data@).take(i as int);
            lemma_run_without_drops(before, start, fresh);
            assert(stamped(start, fresh) =~= all.take(i as int));
        }
    }
    report
}

/// The receiving side of a capture: the rate, the samples that have left
/// the channel and belong to no track yet, and whether the producer is
/// gone.
pub struct AudioStream {
    samplerate: u32,
    stream: Vec<(u64, i64)>,
    ended: bool,
}

/// How many samples make up a frame of `duration` microseconds at `rate`
/// Hz: a clock that advances by one sample period with each sample is past
/// `duration` with this sample, and was not with the one before.
pub open spec fn samples_to_pass(duration: int, rate: int) -> int {
    (duration * rate) / (SCALE as int) + 1
}

impl AudioStream {
    /// The rate in Hz.
    pub closed spec fn rate(&self) -> u32 {
        self.samplerate
    }

    /// The samples received and not yet handed out, oldest first.
    pub closed spec fn pending(&self) -> Seq<(u64, i64)> {
        self.stream@
    }

    /// Whether the producer is gone, so that no further sample will come.
    pub closed spec fn ended(&self) -> bool {
        self.ended
    }

    pub fn samplerate(&self) -> (rate: u32)
        ensures
            rate == self.rate(),
    {
        self.samplerate
    }

    /// A copy of the samples received and not yet handed out.
    pub fn get_stream(&self) -> (samples: Vec<(u64, i64)>)
        ensures
            samples@ == self.pending(),
    {
        let mut samples: Vec<(u64, i64)> = Vec::new();
        let mut i: usize = 0;
        while i < self.stream.len()
            invariant
                i <= self.stream.len(),
                samples@ == self.stream@.take(i as int),
            decreases self.stream.len() - i,
        {
            samples.push(self.stream[i]);
            i += 1;
            assert(samples@ =~= self.stream@.take(i as int));
        }
        assert(self.stream@.take(i as int) =~= self.stream@);
        samples
    }

    /// Whether the producer is gone.
    pub fn is_ended(&self) -> (ended: bool)
        ensures
            ended == self.ended(),
    {
        self.ended
    }

    /// Takes in a sample that has left the channel.
    pub fn feed(&mut self, sample: (u64, i64))
        ensures
            final(self).rate() == old(self).rate(),
            final(self).ended() == old(self).ended(),
            final(self).pending() == old(self).pending().push(sample),
    {
        self.stream.push(sample);
    }

    /// Notes that the channel has ended: the producer is gone.
    pub fn end(&mut self)
        ensures
            final(self).rate() == old(self).rate(),
            final(self).ended(),
            final(self).pending() == old(self).pending(),
    {
        self.ended = true;
    }

    /// Hands out the oldest `count` pending samples, or all of them where
    /// there are fewer.
    fn take_front(&mut self, count: usize) -> (front: Vec<(u64, i64)>)
        ensures
            final(self).rate() == old(self).rate(),
            final(self).ended() == old(self).ended(),
            count <= old(self).pending().len() ==> {
                &&& front@ == old(self).pending().take(count as int)
                &&& final(self).pending() == old(self).pending().skip(count as int)
            },
            count > old(self).pending().len() ==> {
                &&& front@ == old(self).pending()
                &&& final(self).pending() == Seq::<(u64, i64)>::empty()
            },
    {
        let len: usize = self.stream.len();
        let cut: usize = if count <= len {
            count
        } else {
            len
        };
        let mut front: Vec<(u64, i64)> = Vec::new();
        let mut rest: Vec<(u64, i64)> = Vec::new();
        let mut i: usize = 0;
        while i < cut
            invariant
                i <= cut <= len,
                len == self.stream.len(),
                self.stream@ == old(self).stream@,
                front@ == self.stream@.take(i as int),
            decreases cut - i,
        {
            front.push(self.stream[i]);
            i += 1;
            assert(front@ =~= self.stream@.take(i as int));
        }
        while i < len
            invariant
                cut <= i <= len,
                len == self.stream.len(),
                self.stream@ == old(self).stream@,
                rest@ == self.stream@.subrange(cut as int, i as int),
            decreases len - i,
        {
            rest.push(self.stream[i]);
            i += 1;
            assert(rest@ =~= self.stream@.subrange(cut as int, i as int));
        }
        proof {
            assert(self.stream@.subrange(cut as int, len as int) =~= self.stream@.skip(cut as int));
            if count > len {
                assert(self.stream@.take(len as int) =~= self.stream@);
                assert(self.stream@.skip(len as int) =~= Seq::<(u64, i64)>::empty());
            }
        }
        self.stream = rest;
        front
    }

    /// The next frame of `frame_size` samples. While fewer have come and
    /// the producer is still there, there is no frame yet and nothing
    /// changes. Once the producer is gone, what is left is handed out, be
    /// it fewer than asked for.
    pub fn get_track_by_framesize(&mut self, frame_size: usize) -> (frame: Option<AudioTrack>)
        ensures
            final(self).rate() == old(self).rate(),
            final(self).ended() == old(self).ended(),
            frame.is_some() <==> (old(self).pending().len() >= frame_size || old(self).ended()),
            frame.is_none() ==> final(self).pending() == old(self).pending(),
            frame.is_some() ==> {
                let count = if old(self).pending().len() >= frame_size {
                    frame_size as int
                } else {
                    old(self).pending().len() as int
                };
                &&& frame.unwrap().samplerate == old(self).rate()
                &&& frame.unwrap().track@ == old(self).pending().take(count)
                &&& final(self).pending() == old(self).pending().skip(count)
                &&& contiguous(old(self).pending()) ==> contiguous(frame.unwrap().track@)
            },
    {
        if self.stream.len() >= frame_size || self.ended {
            proof {
                let p = self.stream@;
                assert(p.take(p.len() as int) =~= p);
                assert(p.skip(p.len() as int) =~= Seq::<(u64, i64)>::empty());
                if contiguous(p) {
                    let count = if p.len() >= frame_size {
                        frame_size as int
                    } else {
                        p.len() as int
                    };
                    lemma_subrange_contiguous(p, 0, count);
                    assert(p.subrange(0, count) =~= p.take(count));
                }
            }
            let rate: u32 = self.samplerate;
            let track = self.take_front(frame_size);
            Some(AudioTrack { samplerate: rate, track })
        } else {
            None
        }
    }

    /// The next frame of `duration` microseconds: as many samples as it
    /// takes for a clock that advances by one sample period with each of
    /// them to pass `duration`, the sample that passes it included. While
    /// fewer have come and the producer is still there, there is no frame
    /// yet and nothing changes. Once the producer is gone, what is left is
    /// handed out, be it fewer than that.
    pub fn get_track_by_duration(&mut self, duration: u64) -> (frame: Option<AudioTrack>)
        ensures
            final(self).rate() == old(self).rate(),
            final(self).ended() == old(self).ended(),
            frame.is_some() <==> (old(self).pending().len() >= samples_to_pass(
                duration as int,
                old(self).rate() as int,
            ) || old(self).ended()),
            frame.is_none() ==> final(self).pending() == old(self).pending(),
            frame.is_some() ==> {
                let wanted = samples_to_pass(duration as int, old(self).rate() as int);
                let count = if old(self).pending().len() >= wanted {
                    wanted
                } else {
                    old(self).pending().len() as int
                };
                &&& frame.unwrap().samplerate == old(self).rate()
                &&& frame.unwrap().track@ == old(self).pending().take(count)
                &&& final(self).pending() == old(self).pending().skip(count)
                &&& contiguous(old(self).pending()) ==> contiguous(frame.unwrap().track@)
            },
    {
        assert(duration * self.samplerate <= 0xffff_ffff_ffff_ffff * 0xffff_ffff) by (nonlinear_arith)
            requires
                duration <= 0xffff_ffff_ffff_ffff,
                self.samplerate <= 0xffff_ffff,
        ;
        let wanted: u128 = (duration as u128) * (self.samplerate as u128) / 1_000_000 + 1;
        let len: usize = self.stream.len();
        if (len as u128) >= wanted {
            self.get_track_by_framesize(wanted as usize)
        } else if self.ended {
            self.get_track_by_framesize(len)
        } else {
            None
        }
    }
}

/// The samples that a producer hands out lie one tick apart: with none of
/// them dropped, each timestamp is exactly one sample period after the one
/// before, and the first is one period after the clock's start.
pub proof fn lemma_stamped_contiguous(clock: u64, amplitudes: Seq<i64>)
    requires
        clock + amplitudes.len() <= u64::MAX,
    ensures
        stamped(clock, amplitudes).len() == amplitudes.len(),
        contiguous(stamped(clock, amplitudes)),
        forall|i: int|
            0 <= i < amplitudes.len() ==> (#[trigger] stamped(clock, amplitudes)[i]) == (
                (clock + i + 1) as u64,
                amplitudes[i],
            ),
        amplitudes.len() > 0 ==> stamped(clock, amplitudes)[0].0 == clock + 1,
{
    let out = stamped(clock, amplitudes);
    assert forall|i: int| 0 <= i && i + 1 < out.len() implies #[trigger] out[i + 1].0 == out[i].0
        + 1 by {
        assert(out[i].0 == clock + i + 1);
        assert(out[i + 1].0 == clock + i + 2);
    }
}

/// A run without drops keeps the record one tick apart: where what the
/// channel took so far lies one tick apart and ends at the clock, it still
/// does once the channel has taken every sample of a further buffer.
pub proof fn lemma_run_without_drops(before: Seq<(u64, i64)>, clock: u64, amplitudes: Seq<i64>)
    requires
        contiguous(before),
        before.len() > 0 ==> before.last().0 == clock,
        clock + amplitudes.len() <= u64::MAX,
    ensures
        contiguous(before + stamped(clock, amplitudes)),
        amplitudes.len() > 0 ==> (before + stamped(clock, amplitudes)).last().0 == clock
            + amplitudes.len(),
{
    let fresh = stamped(clock, amplitudes);
    let joined = before + fresh;
    lemma_stamped_contiguous(clock, amplitudes);
    assert forall|i: int| 0 <= i && i + 1 < joined.len() implies #[trigger] joined[i + 1].0
        == joined[i].0 + 1 by {
        if i + 1 < before.len() {
            assert(before[i + 1].0 == before[i].0 + 1);
        } else if i + 1 == before.len() {
            assert(joined[i] == before.last());
            assert(joined[i + 1] == fresh[0]);
        } else {
            assert(joined[i] == fresh[i - before.len()]);
            assert(joined[i + 1] == fresh[i - before.len() + 1]);
            assert(fresh[i - before.len() + 1].0 == fresh[i - before.len()].0 + 1);
        }
    }
    if amplitudes.len() > 0 {
        assert(joined.last() == fresh[amplitudes.len() - 1]);
    }
}

/// The clock carries over from one buffer to the next: two buffers stamped
/// one after the other give the samples of the two buffers stamped as one.
pub proof fn lemma_stamped_joins(clock: u64, first: Seq<i64>, second: Seq<i64>)
    requires
        clock + first.len() + second.len() <= u64::MAX,
    ensures
        stamped(clock, first) + stamped((clock + first.len()) as u64, second) == stamped(
            clock,
            first + second,
        ),
{
    assert(stamped(clock, first) + stamped((clock + first.len()) as u64, second) =~= stamped(
        clock,
        first + second,
    ));
}

/// Any run cut out of samples that lie one tick apart lies one tick apart.
pub proof fn lemma_subrange_contiguous(samples: Seq<(u64, i64)>, from: int, to: int)
    requires
        contiguous(samples),
        0 <= from <= to <= samples.len(),
    ensures
        contiguous(samples.subrange(from, to)),
{
    let cut = samples.subrange(from, to);
    assert forall|i: int| 0 <= i && i + 1 < cut.len() implies #[trigger] cut[i + 1].0 == cut[i].0
        + 1 by {
        assert(samples[from + i + 1].0 == samples[from + i].0 + 1);
    }
}

/// A full frame by duration lasts longer than the duration asked for, and
/// longer by no more than one sample period. Both the frame's length,
/// `samples_to_pass(duration, rate) / rate` seconds, and the duration,
/// `duration / SCALE` seconds, are compared as fractions.
pub proof fn lemma_duration_frame_bounds(duration: int, rate: int)
    requires
        0 <= duration,
        0 < rate,
    ensures
        samples_to_pass(duration, rate) >= 1,
        samples_to_pass(duration, rate) * SCALE > duration * rate,
        (samples_to_pass(duration, rate) - 1) * SCALE <= duration * rate,
{
    let product = duration * rate;
    assert(0 <= product) by (nonlinear_arith)
        requires
            product == duration * rate,
            0 <= duration,
            0 < rate,
    ;
    lemma_fundamental_div_mod(product, SCALE as int);
    lemma_mod_bound(product, SCALE as int);
    let whole = product / (SCALE as int);
    assert(SCALE * whole == whole * SCALE) by (nonlinear_arith);
    assert((whole + 1) * SCALE == whole * SCALE + SCALE) by (nonlinear_arith);
    assert(0 <= whole) by (nonlinear_arith)
        requires
            product == SCALE * whole + product % (SCALE as int),
            product % (SCALE as int) < SCALE,
            0 <= product,
            SCALE == 1_000_000,
    ;
}

/// Where the duration is not a whole number of sample periods, a full
/// frame by duration lasts at least the duration and less than one sample
/// period more.
pub proof fn lemma_duration_frame_within_period(duration: int, rate: int)
    requires
        0 <= duration,
        0 < rate,
        (duration * rate) % (SCALE as int) != 0,
    ensures
        samples_to_pass(duration, rate) * SCALE >= duration * rate,
        (samples_to_pass(duration, rate) - 1) * SCALE < duration * rate,
{
    lemma_duration_frame_bounds(duration, rate);
    let product = duration * rate;
    lemma_fundamental_div_mod(product, SCALE as int);
    lemma_mod_bound(product, SCALE as int);
    let whole = product / (SCALE as int);
    assert(SCALE * whole == whole * SCALE) by (nonlinear_arith);
}

/// Where `name` stands among the entries.
fn position_of(entries: &Vec<(String, usize)>, name: &String) -> (found: Option<usize>)
    ensures
        match found {
            Some(at) => at < entries@.len() && entries@[at as int].0@ == name@,
            None => !entry_names(entries@).contains(name@),
        },
{
    let mut i: usize = 0;
    while i < entries.len()
        invariant
            i <= entries.len(),
            forall|j: int| 0 <= j < i ==> entries@[j].0@ != name@,
        decreases entries.len() - i,
    {
        if entries[i].0 == *name {
            return Some(i);
        }
        i += 1;
    }
    assert forall|j: int| 0 <= j < entry_names(entries@).len() implies entry_names(entries@)[j]
        != name@ by {}
    None
}

} // verus!
