//! What the front end decides: the conditioning loop, the settings and the
//! state of the controls.

pub mod app;
pub mod defs;
pub mod executor;
pub mod extras;
pub mod reading;
