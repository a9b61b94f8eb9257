//! Ports of MIDI devices: their addresses, how rules select them, and what
//! is done with the bytes that come from them.

pub mod addr;
pub mod alsa;
pub mod driver;
pub mod input;
pub mod port;
pub mod portfilter;

pub use addr::DeviceAddr;
pub use driver::MidiDriver;
pub use port::MidiPort;
pub use portfilter::PortFilter;
