//! Acquisition and conditioning of a mechanical-watch tick waveform.
//!
//! Every quantity is an integer. A timestamp is a tick: the number of sample
//! periods since the stream started, so that a tick `k` at a rate of `r` Hz
//! lies `k / r` seconds into the stream. Amplitudes, gains, durations and
//! frequencies are fixed-point numbers counted in millionths
//! (see [`units::SCALE`]).

pub mod audio;
pub mod signal;
pub mod ui;
pub mod units;
