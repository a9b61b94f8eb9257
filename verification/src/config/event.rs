//! An event rule: which events it is for, and what it runs for them.

use vstd::prelude::*;
use super::run::{all_described, check_runs, first_run_fault, RunConfig};
use super::serializer::EventConfigSerializer;
use crate::error::Error;
use crate::event::{Event, EventType};
use crate::util::range::Range;
use crate::util::remap::Remapper;
use crate::util::smartset::{span_set, SmartSet};

verus! {

/// An event rule: the class, channels and ids of the events it is for, a
/// filter on their value, how the value is handed on, and the commands.
#[derive(Debug, Clone)]
pub struct EventConfig {
    pub run: Vec<RunConfig>,
    pub kind: EventType,
    pub channel: SmartSet,
    pub id: SmartSet,
    pub remap: Option<Remapper>,
    pub float: bool,
    pub value: Option<SmartSet>,
}

/// The class code in a routing key.
pub open spec fn key_code(key: u32) -> int {
    key as int / 65536
}

/// The channel in a routing key.
pub open spec fn key_channel(key: u32) -> int {
    (key as int / 256) % 256
}

/// The id in a routing key.
pub open spec fn key_id(key: u32) -> int {
    key as int % 256
}

/// The channels of a rule of class `kind` that names `given`: those named,
/// or all 16 where none is named; channel 0 alone for a class without
/// channels.
pub open spec fn rule_channels(kind: EventType, given: Option<SmartSet>) -> Set<u16> {
    if kind.spec_has_channel() {
        match given {
            Some(s) => s@,
            None => span_set(0, 15),
        }
    } else {
        span_set(0, 0)
    }
}

/// The ids of a rule of class `kind` that names `given`: those named, or all
/// 128 where none is named; id 0 alone for a class without ids.
pub open spec fn rule_ids(kind: EventType, given: Option<SmartSet>) -> Set<u16> {
    if kind.spec_has_id() {
        match given {
            Some(s) => s@,
            None => span_set(0, 127),
        }
    } else {
        span_set(0, 0)
    }
}

/// Whether a number lies inside the 64-bit signed integers.
pub open spec fn fits_i64(v: i128) -> bool {
    i64::MIN <= v <= i64::MAX
}

impl EventConfigSerializer {
    /// The fault of the remap range, if it has one: an end below the 64-bit
    /// signed integers, or else an end above them.
    pub open spec fn remap_fault(&self) -> Option<Error> {
        match self.remap {
            Some(r) => if r.start < i64::MIN || r.end < i64::MIN {
                Some(Error::RemapTooLow)
            } else if r.start > i64::MAX || r.end > i64::MAX {
                Some(Error::RemapTooBig)
            } else {
                None
            },
            None => None,
        }
    }

    /// Whether `c` is the rule that `self` describes.
    pub open spec fn describes(&self, c: EventConfig, windows: bool) -> bool {
        &&& all_described(self.run@, c.run@, windows)
        &&& c.kind == self.kind
        &&& c.channel@ == rule_channels(self.kind, self.channel)
        &&& c.id@ == rule_ids(self.kind, self.id)
        &&& c.float == (self.float == Some(true))
        &&& c.value == self.value
        &&& match self.remap {
            Some(r) => c.remap matches Some(m) && m.src.start == self.kind.spec_min_value()
                && m.src.end == self.kind.spec_max_value() && m.dst.start == r.start && m.dst.end
                == r.end,
            None => c.remap is None,
        }
    }

    /// The fault for which the rule is refused, if there is one: that of
    /// its first command that has one, or else a fault of the remap range.
    pub open spec fn fault(&self) -> Option<Error> {
        if first_run_fault(self.run@) is Some {
            first_run_fault(self.run@)
        } else {
            self.remap_fault()
        }
    }
}

impl EventConfig {
    /// Whether the rule is for events with the routing key `key`: the key
    /// holds the class of the rule, one of its channels and one of its ids.
    pub open spec fn covers(&self, key: u32) -> bool {
        &&& key_code(key) == self.kind.spec_code()
        &&& self.channel@.contains(key_channel(key) as u16)
        &&& self.id@.contains(key_id(key) as u16)
    }

    /// Whether the rule lets the value `value` pass: it has no filter, or
    /// the filter holds the value.
    pub open spec fn admits(&self, value: u16) -> bool {
        match self.value {
            Some(s) => s@.contains(value),
            None => true,
        }
    }

    /// Whether the rule lets the value of `event` pass.
    pub fn match_value(&self, event: &Event) -> (r: bool)
        ensures
            r == self.admits(event.value),
    {
        match &self.value {
            Some(v) => v.contains(event.value),
            None => true,
        }
    }

    /// The rule that `v` describes, or the fault for which it is refused.
    pub fn try_from(v: EventConfigSerializer, windows: bool) -> (r: Result<EventConfig, Error>)
        ensures
            match r {
                Ok(c) => v.fault() is None && v.describes(c, windows),
                Err(e) => v.fault() == Some(e),
            },
    {
        let run = match check_runs(v.run, windows) {
            Ok(run) => run,
            Err(e) => {
                return Err(e);
            },
        };
        let channel = if v.kind.has_channel() {
            match v.channel {
                Some(s) => s,
                None => SmartSet::span(0, 15),
            }
        } else {
            SmartSet::span(0, 0)
        };
        let id = if v.kind.has_id() {
            match v.id {
                Some(s) => s,
                None => SmartSet::span(0, 127),
            }
        } else {
            SmartSet::span(0, 0)
        };
        let remap = match v.remap {
            Some(r) => {
                if r.start < i64::MIN as i128 || r.end < i64::MIN as i128 {
                    return Err(Error::RemapTooLow);
                }
                if r.start > i64::MAX as i128 || r.end > i64::MAX as i128 {
                    return Err(Error::RemapTooBig);
                }
                Some(
                    Remapper::new(
                        Range::new(v.kind.min_value(), v.kind.max_value()),
                        Range::new(r.start as i64, r.end as i64),
                    ),
                )
            },
            None => None,
        };
        let float = match v.float {
            Some(f) => f,
            None => false,
        };
        Ok(EventConfig { run, kind: v.kind, channel, id, remap, float, value: v.value })
    }
}

} // verus!
