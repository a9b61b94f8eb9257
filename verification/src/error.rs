//! What can go wrong while a configuration is checked or an event is handled.

use vstd::prelude::*;
use vstd::string::StringExecFns;
use crate::util::number::IntErrorKind;

verus! {

/// A fault in the shape of the configuration.
#[derive(Debug, Clone, Copy, PartialEq, Eq, Structural)]
pub enum ConfigError {
    /// A command gives neither `args` nor `cmd`.
    RunMissingArgs,
}

/// A key of the configuration that cannot stand beside another: one of the
/// three ways to select a device, and one of the two ways to say what a
/// command runs.
#[derive(Debug, Clone, Copy, PartialEq, Eq, Structural)]
pub enum Selector {
    Name,
    Regex,
    Addr,
    Args,
    Cmd,
}

#[derive(Debug, Clone)]
pub enum Error {
    Config(ConfigError),
    /// A device pattern is no regular expression; the text is the reason.
    Regex(String),
    /// A number of the configuration cannot be read.
    ParseInt(IntErrorKind),
    /// An end of a remap range lies above the 64-bit signed integers.
    RemapTooBig,
    /// An end of a remap range lies below the 64-bit signed integers.
    RemapTooLow,
    /// Two keys stand together of which only one may: a device selected in
    /// two ways, or a command with both its words and a shell line.
    IncompatibleArgs(Selector, Selector),
    /// No configuration file is named on the command line.
    NoArgument,
}

impl Selector {
    /// The key under which the selector stands in the configuration.
    pub open spec fn spec_name(&self) -> Seq<char> {
        match self {
            Selector::Name => "name"@,
            Selector::Regex => "regex"@,
            Selector::Addr => "addr"@,
            Selector::Args => "args"@,
            Selector::Cmd => "cmd"@,
        }
    }

    /// The key under which the selector stands in the configuration.
    pub fn name(&self) -> (r: &'static str)
        ensures
            r@ == self.spec_name(),
    {
        match self {
            Selector::Name => "name",
            Selector::Regex => "regex",
            Selector::Addr => "addr",
            Selector::Args => "args",
            Selector::Cmd => "cmd",
        }
    }
}

impl ConfigError {
    /// The message shown for the error.
    pub fn message(&self) -> (r: String)
        ensures
            r@ == "run config is missing execution configuration, either \"args\" or \"cmd\" has to be specified"@,
    {
        String::from_str(
            "run config is missing execution configuration, either \"args\" or \"cmd\" has to be specified",
        )
    }
}

impl IntErrorKind {
    /// The message shown for the error.
    pub fn message(&self) -> (r: &'static str)
        ensures
            r@ == match self {
                IntErrorKind::Empty => "cannot parse integer from empty string"@,
                IntErrorKind::InvalidDigit => "invalid digit found in string"@,
                IntErrorKind::PosOverflow => "number too large to fit in target type"@,
                IntErrorKind::NegOverflow => "number too small to fit in target type"@,
            },
    {
        match self {
            IntErrorKind::Empty => "cannot parse integer from empty string",
            IntErrorKind::InvalidDigit => "invalid digit found in string",
            IntErrorKind::PosOverflow => "number too large to fit in target type",
            IntErrorKind::NegOverflow => "number too small to fit in target type",
        }
    }
}

impl Error {
    /// The text of the error's message.
    pub open spec fn spec_message(&self) -> Seq<char> {
        match self {
            Error::Config(_) => "run config is missing execution configuration, either \"args\" or \"cmd\" has to be specified"@,
            Error::Regex(reason) => reason@,
            Error::ParseInt(IntErrorKind::Empty) => "cannot parse integer from empty string"@,
            Error::ParseInt(IntErrorKind::InvalidDigit) => "invalid digit found in string"@,
            Error::ParseInt(IntErrorKind::PosOverflow) => "number too large to fit in target type"@,
            Error::ParseInt(IntErrorKind::NegOverflow) => "number too small to fit in target type"@,
            Error::RemapTooBig => "remap value is too large. Maximum value is 9223372036854775807"@,
            Error::RemapTooLow => "remap value is too low. Minimum value is -9223372036854775808"@,
            Error::IncompatibleArgs(a, b) => "'"@ + a.spec_name() + "' and '"@ + b.spec_name()
                + "' are incompatible"@,
            Error::NoArgument => "no map file was provided"@,
        }
    }

    /// The message shown for the error.
    pub fn message(&self) -> (r: String)
        ensures
            r@ == self.spec_message(),
    {
        match self {
            Error::Config(e) => e.message(),
            Error::Regex(reason) => reason.clone(),
            Error::ParseInt(kind) => String::from_str(kind.message()),
            Error::RemapTooBig => String::from_str(
                "remap value is too large. Maximum value is 9223372036854775807",
            ),
            Error::RemapTooLow => String::from_str(
                "remap value is too low. Minimum value is -9223372036854775808",
            ),
            Error::IncompatibleArgs(a, b) => {
                let mut s = String::from_str("'");
                s.append(a.name());
                s.append("' and '");
                s.append(b.name());
                s.append("' are incompatible");
                s
            },
            Error::NoArgument => String::from_str("no map file was provided"),
        }
    }
}

} // verus!
