//! Routing of MIDI input to user-defined commands.
//!
//! The crate holds the rules of a MIDI-to-command mapper: decoding raw MIDI
//! bytes into events, looking events up in a routing table built from the
//! configured rules, building the environment of each command, bounding the
//! per-device event queue and capping the connections of each device rule.
//! Everything here is a function from plain values to plain values; reading
//! devices and starting processes is left to the caller.

pub mod cli;
pub mod config;
pub mod error;
pub mod event;
pub mod eventmap;
pub mod midi;
pub mod run;
pub mod util;

pub use error::Error;
