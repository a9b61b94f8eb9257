//! An event rule as the document holds it.

use vstd::prelude::*;
use super::RunConfigSerializer;
use crate::event::EventType;
use crate::util::range::Range;
use crate::util::smartset::SmartSet;

verus! {

/// An event rule of the document. The ends of `remap` are as wide as any
/// integer that the document can hold.
#[derive(Debug, Clone)]
pub struct EventConfigSerializer {
    pub run: Vec<RunConfigSerializer>,
    pub kind: EventType,
    pub channel: Option<SmartSet>,
    pub id: Option<SmartSet>,
    pub remap: Option<Range<i128>>,
    pub float: Option<bool>,
    pub value: Option<SmartSet>,
}

} // verus!
