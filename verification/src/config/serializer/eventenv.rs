//! Names for the variables that a command receives.

use vstd::prelude::*;

verus! {

/// For each value of an event, the name of the environment variable that
/// carries it; a value without a name here keeps its default name.
#[derive(Debug, Clone)]
pub struct EventEnvSerializer {
    pub channel: Option<String>,
    pub id: Option<String>,
    pub raw: Option<String>,
    pub rawvalue: Option<String>,
    pub timestamp: Option<String>,
    pub value: Option<String>,
}

} // verus!
