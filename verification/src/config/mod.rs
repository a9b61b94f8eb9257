//! The configuration: what the document holds, and the rules checked from it.

use vstd::prelude::*;
use crate::error::Error;
use crate::midi::MidiDriver;

pub mod device;
pub mod event;
pub mod run;
pub mod serializer;

pub use device::DeviceConfig;
pub use event::EventConfig;
pub use run::{Invocation, RunConfig};
pub use serializer::{ConfigSerializer, DeviceConfigSerializer};

verus! {

pub type EventEnvMap = serializer::EventEnvSerializer;

/// The checked configuration.
#[derive(Debug, Clone)]
pub struct Config {
    pub log: bool,
    pub driver: Option<MidiDriver>,
    pub devices: Vec<DeviceConfig>,
}

/// Whether one of the device rules `vs` is refused.
pub open spec fn any_refused(vs: Seq<DeviceConfigSerializer>) -> bool {
    exists|i: int| 0 <= i < vs.len() && (#[trigger] vs[i]).refused()
}

/// Whether `e` is the fault of the first of the device rules `vs` that is
/// refused.
pub open spec fn first_fault_is(vs: Seq<DeviceConfigSerializer>, e: Error) -> bool {
    exists|i: int|
        0 <= i < vs.len() && (#[trigger] vs[i]).fault_is(e) && vs[i].refused() && forall|j: int|
            0 <= j < i ==> !(#[trigger] vs[j]).refused()
}

impl ConfigSerializer {
    /// Whether `c` is the configuration that `self` describes: logging is off
    /// unless the document turns it on, and each device rule is the one that
    /// the document describes.
    pub open spec fn describes(&self, c: Config, windows: bool) -> bool {
        &&& c.log == (self.log_devices == Some(true))
        &&& c.driver == self.driver
        &&& c.devices@.len() == self.devices@.len()
        &&& forall|i: int|
            0 <= i < self.devices@.len() ==> (#[trigger] self.devices@[i]).describes(
                c.devices@[i],
                windows,
            ) && c.devices@[i].wf()
    }
}

impl Config {
    /// The configuration that `v` describes, or the fault of its first
    /// device rule that is refused.
    #[verifier::rlimit(50)]
    pub fn try_from(v: ConfigSerializer, windows: bool) -> (r: Result<Config, Error>)
        ensures
            r is Err <==> any_refused(v.devices@),
            r matches Err(e) ==> first_fault_is(v.devices@, e),
            r matches Ok(c) ==> v.describes(c, windows),
    {
        broadcast use vstd::std_specs::vec::axiom_spec_into_iter;

        let log = match v.log_devices {
            Some(l) => l,
            None => false,
        };
        let driver = v.driver;
        let ghost all = v.devices@;
        let mut devices: Vec<DeviceConfig> = Vec::new();
        for d in it: v.devices.into_iter()
            invariant
                it.seq() == all,
                devices@.len() == it.index(),
                forall|i: int| 0 <= i < it.index() ==> !(#[trigger] all[i]).refused(),
                forall|i: int|
                    0 <= i < it.index() ==> (#[trigger] all[i]).describes(devices@[i], windows)
                        && devices@[i].wf(),
        {
            match DeviceConfig::try_from(d, windows) {
                Ok(c) => {
                    devices.push(c);
                },
                Err(e) => {
                    assert(all[it.index() as int].refused());
                    return Err(e);
                },
            }
        }
        let c = Config { log, driver, devices };
        assert(v.describes(c, windows));
        Ok(c)
    }
}

} // verus!
