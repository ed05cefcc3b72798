//! Conditioning of tracks.

pub mod calculator;
pub mod decibel;
pub mod fft;
pub mod speexdsp;
pub mod utils;
