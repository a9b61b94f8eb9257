//! The command line: what was asked for.

use vstd::prelude::*;
use crate::error::Error;

verus! {

/// The command line: the configuration file, and whether to list the
/// devices and leave.
#[derive(Debug, Clone)]
pub struct Cli {
    pub map_file: Option<String>,
    pub list: bool,
}

/// What the program is asked to do.
#[derive(Debug, Clone)]
pub enum Mode {
    /// List the ports and leave.
    ListDevices,
    /// Run the configuration of the file.
    RunConfig(String),
}

impl Cli {
    /// What the command line asks for: the list of devices where `list` is
    /// set, else a run of the configuration file; without a file this is
    /// refused.
    pub fn mode(self) -> (r: Result<Mode, Error>)
        ensures
            match r {
                Ok(Mode::ListDevices) => self.list,
                Ok(Mode::RunConfig(file)) => !self.list && self.map_file == Some(file),
                Err(e) => !self.list && self.map_file is None && e is NoArgument,
            },
    {
        if self.list {
            Ok(Mode::ListDevices)
        } else {
            match self.map_file {
                Some(file) => Ok(Mode::RunConfig(file)),
                None => Err(Error::NoArgument),
            }
        }
    }
}

} // verus!
