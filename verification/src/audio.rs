//! Tracks of timestamped samples.

pub mod io;
pub mod track;
