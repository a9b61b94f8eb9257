//! A port: its name and its address.

use vstd::prelude::*;
use vstd::string::StringExecFns;
use super::addr::DeviceAddr;

verus! {

/// A port of a device. The name is that of its client, a colon, and its own.
#[derive(Debug, Clone, PartialEq, Eq)]
pub struct MidiPort<T: Clone> {
    pub name: String,
    pub addr: T,
}

impl MidiPort<DeviceAddr> {
    /// The line that shows the port: its address, a tab, its name.
    pub fn to_text(&self) -> (s: String)
        ensures
            s@ == self.addr.spec_text() + seq!['\t'] + self.name@,
    {
        let mut s = self.addr.to_text();
        proof {
            reveal_strlit("\t");
        }
        s.append("\t");
        s.append(self.name.as_str());
        s
    }
}

} // verus!
