//! A command as the document holds it.

use vstd::prelude::*;
use super::EventEnvSerializer;

verus! {

/// A command of the document: its words in `args`, or a shell line in `cmd`.
#[derive(Debug, Clone)]
pub struct RunConfigSerializer {
    pub args: Option<Vec<String>>,
    pub cmd: Option<String>,
    pub envconf: Option<EventEnvSerializer>,
    pub detach: Option<bool>,
}

} // verus!
