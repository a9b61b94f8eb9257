//! The configuration as the document holds it, before it is checked.

use vstd::prelude::*;
use crate::midi::MidiDriver;

pub mod device;
pub mod event;
pub mod eventenv;
pub mod run;

pub use device::DeviceConfigSerializer;
pub use event::EventConfigSerializer;
pub use eventenv::EventEnvSerializer;
pub use run::RunConfigSerializer;

verus! {

/// The document: whether new devices are logged, the driver, the device
/// rules.
#[derive(Debug, Clone)]
pub struct ConfigSerializer {
    pub log_devices: Option<bool>,
    pub driver: Option<MidiDriver>,
    pub devices: Vec<DeviceConfigSerializer>,
}

} // verus!
