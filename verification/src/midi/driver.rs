//! The drivers that input can come from.

use vstd::prelude::*;

verus! {

#[derive(Debug, Clone, Copy, PartialEq, Eq, Structural)]
pub enum MidiDriver {
    ALSA,
}

impl MidiDriver {
    /// The driver of the platform.
    pub fn new() -> (r: Self)
        ensures
            r == MidiDriver::ALSA,
    {
        MidiDriver::ALSA
    }
}

} // verus!
