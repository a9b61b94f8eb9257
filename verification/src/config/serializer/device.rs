//! A device rule as the document holds it.

use vstd::prelude::*;
use super::{EventConfigSerializer, RunConfigSerializer};
use crate::util::time::Span;

verus! {

/// A device rule of the document.
#[derive(Debug, Clone)]
pub struct DeviceConfigSerializer {
    pub name: Option<String>,
    pub regex: Option<String>,
    pub addr: Option<String>,
    pub connect: Option<Vec<RunConfigSerializer>>,
    pub disconnect: Option<Vec<RunConfigSerializer>>,
    pub events: Option<Vec<EventConfigSerializer>>,
    pub max_connections: Option<u32>,
    pub queue_length: Option<usize>,
    pub interval: Option<Span>,
    pub log_events: Option<bool>,
}

} // verus!
