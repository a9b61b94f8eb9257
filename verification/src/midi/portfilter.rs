//! Selecting ports: by name, by pattern, by address.

use vstd::prelude::*;
use super::addr::{addr_of, DeviceAddr};
use super::port::MidiPort;
use crate::config::device::{DeviceConfig, Identifier};
use crate::error::Error;
use crate::util::number::{to_chars, IntErrorKind};
use crate::util::text::{contains_chars, contains_text};

verus! {

/// What a rule asks of a port.
#[derive(Debug, Clone)]
pub enum PortFilter<T> {
    /// Any port will do.
    All,
    /// The name of the port holds the text.
    Name(String),
    /// The name of the port has a match for the regular expression.
    Regex(String),
    /// The port has the address.
    Addr(T),
}

/// Whether `pattern` is a regular expression that the crate `regex` compiles.
pub uninterp spec fn regex_valid(pattern: Seq<char>) -> bool;

/// Whether the regular expression `pattern` has a match somewhere in `text`.
pub uninterp spec fn regex_accepts(pattern: Seq<char>, text: Seq<char>) -> bool;

/// Whether `part` stands somewhere in `text`.
fn name_contains(text: &str, part: &str) -> (r: bool)
    ensures
        r == contains_text(text@, part@),
{
    contains_chars(&to_chars(text), &to_chars(part))
}

/// `Regex::new` and `Regex::is_match` of the crate `regex`: compiles
/// `pattern` and says whether it has a match anywhere in `text`. An error is
/// returned, as its text, exactly for the patterns that do not compile; the
/// verdict of a pattern that compiles depends on the pattern and the text
/// alone.
#[verifier::external_body]
fn regex_is_match(pattern: &str, text: &str) -> (r: Result<bool, String>)
    ensures
        r is Ok <==> regex_valid(pattern@),
        r matches Ok(found) ==> found == regex_accepts(pattern@, text@),
{
    match regex::Regex::new(pattern) {
        Ok(re) => Ok(re.is_match(text)),
        Err(e) => Err(e.to_string()),
    }
}

/// Checks that `pattern` is a regular expression.
pub fn check_regex(pattern: &str) -> (r: Result<(), Error>)
    ensures
        r is Ok <==> regex_valid(pattern@),
        r matches Err(e) ==> e is Regex,
{
    match regex_is_match(pattern, "") {
        Ok(_) => Ok(()),
        Err(reason) => Err(Error::Regex(reason)),
    }
}

impl PortFilter<DeviceAddr> {
    /// Whether the filter lets the port of name `name` and address `addr`
    /// pass. A pattern that is no regular expression lets nothing pass.
    pub open spec fn accepts(&self, name: Seq<char>, addr: DeviceAddr) -> bool {
        match self {
            PortFilter::All => true,
            PortFilter::Name(s) => contains_text(name, s@),
            PortFilter::Regex(s) => regex_valid(s@) && regex_accepts(s@, name),
            PortFilter::Addr(a) => addr == *a,
        }
    }

    /// Whether the filter lets `port` pass.
    pub fn matches(&self, port: &MidiPort<DeviceAddr>) -> (r: bool)
        ensures
            r == self.accepts(port.name@, port.addr),
    {
        match self {
            PortFilter::All => true,
            PortFilter::Name(s) => name_contains(port.name.as_str(), s.as_str()),
            PortFilter::Regex(s) => match regex_is_match(s.as_str(), port.name.as_str()) {
                Ok(found) => found,
                Err(_) => false,
            },
            PortFilter::Addr(a) => port.addr.client == a.client && port.addr.port == a.port,
        }
    }

    /// Whether `filter` is what the selector `identifier` asks of a port.
    pub open spec fn asked_by(&self, identifier: Identifier) -> bool {
        match identifier {
            Identifier::All => *self is All,
            Identifier::Name(s) => *self matches PortFilter::Name(t) && t@ == s@,
            Identifier::Regex(s) => *self matches PortFilter::Regex(t) && t@ == s@,
            Identifier::Addr(s) => *self matches PortFilter::Addr(a) && addr_of(s@) == Ok::<
                (int, int),
                IntErrorKind,
            >((a.client as int, a.port as int)),
        }
    }

    /// The filter that the selector of `conf` asks for. It is refused where
    /// the selector is an address that cannot be read.
    pub fn i_try_from(conf: &DeviceConfig) -> (r: Result<Self, Error>)
        ensures
            match r {
                Ok(f) => f.asked_by(conf.identifier),
                Err(e) => conf.identifier matches Identifier::Addr(s) && addr_of(s@) matches Err(kind)
                    && e == Error::ParseInt(kind),
            },
    {
        match &conf.identifier {
            Identifier::All => Ok(PortFilter::All),
            Identifier::Name(s) => Ok(PortFilter::Name(s.clone())),
            Identifier::Regex(s) => Ok(PortFilter::Regex(s.clone())),
            Identifier::Addr(s) => match DeviceAddr::parse(s.as_str()) {
                Ok(a) => Ok(PortFilter::Addr(a)),
                Err(kind) => Err(Error::ParseInt(kind)),
            },
        }
    }
}

/// The ports of `ports` that `filter` lets pass, in their order.
pub open spec fn passing(ports: Seq<MidiPort<DeviceAddr>>, filter: PortFilter<DeviceAddr>) -> Seq<
    MidiPort<DeviceAddr>,
>
    decreases ports.len(),
{
    if ports.len() == 0 {
        Seq::empty()
    } else if filter.accepts(ports.last().name@, ports.last().addr) {
        passing(ports.drop_last(), filter).push(ports.last())
    } else {
        passing(ports.drop_last(), filter)
    }
}

/// Keeps the ports that `filter` lets pass, in their order.
pub fn filter_ports(ports: Vec<MidiPort<DeviceAddr>>, filter: &PortFilter<DeviceAddr>) -> (r: Vec<
    MidiPort<DeviceAddr>,
>)
    ensures
        r@ == passing(ports@, *filter),
{
    broadcast use vstd::std_specs::vec::axiom_spec_into_iter;

    let ghost all = ports@;
    let mut out: Vec<MidiPort<DeviceAddr>> = Vec::new();
    for p in it: ports.into_iter()
        invariant
            it.seq() == all,
            out@ == passing(all.subrange(0, it.index()), *filter),
    {
        proof {
            let now = all.subrange(0, it.index() + 1);
            assert(now.drop_last() == all.subrange(0, it.index()));
            assert(now.last() == p);
        }
        if filter.matches(&p) {
            out.push(p);
        }
    }
    assert(all.subrange(0, all.len() as int) == all);
    out
}

} // verus!
