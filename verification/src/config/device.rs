//! A device rule: which ports it is for, and what happens on them.

use vstd::prelude::*;
use super::event::EventConfig;
use super::run::{all_described, check_runs, first_run_fault, Invocation, RunConfig};
use super::serializer::{DeviceConfigSerializer, EventConfigSerializer, RunConfigSerializer};
use crate::error::{Error, Selector};
use crate::event::{env_pairs_ok, no_message, Event};
use crate::midi::portfilter::{check_regex, regex_valid};
use crate::util::time::Span;

verus! {

/// How a device rule selects its ports.
#[derive(Debug, Clone)]
pub enum Identifier {
    /// Every port.
    All,
    /// The ports whose name holds the text.
    Name(String),
    /// The ports whose name has a match for the regular expression.
    Regex(String),
    /// The port of the address, written `client:port`.
    Addr(String),
}

/// A device rule.
#[derive(Debug, Clone)]
pub struct DeviceConfig {
    pub identifier: Identifier,
    pub max_connections: Option<u32>,
    pub connect: Option<Vec<RunConfig>>,
    pub disconnect: Option<Vec<RunConfig>>,
    pub events: Option<Vec<EventConfig>>,
    pub queue_length: usize,
    pub interval: Span,
}

/// The queue length of a device rule that names none.
pub const DEFAULT_QUEUE_LENGTH: usize = 256;

/// Whether `cs` holds, in order, the rules that `vs` describe.
pub open spec fn all_events_described(
    vs: Seq<EventConfigSerializer>,
    cs: Seq<EventConfig>,
    windows: bool,
) -> bool {
    &&& cs.len() == vs.len()
    &&& forall|i: int| 0 <= i < vs.len() ==> (#[trigger] vs[i]).describes(cs[i], windows)
}

/// The fault of the first rule of `vs` that has one.
pub open spec fn first_event_fault(vs: Seq<EventConfigSerializer>) -> Option<Error>
    decreases vs.len(),
{
    if vs.len() == 0 {
        None
    } else {
        match first_event_fault(vs.drop_last()) {
            Some(e) => Some(e),
            None => vs.last().fault(),
        }
    }
}

/// The rules that `vs` describe, in order, or the fault of the first rule
/// that has one.
pub fn check_events(vs: Vec<EventConfigSerializer>, windows: bool) -> (r: Result<
    Vec<EventConfig>,
    Error,
>)
    ensures
        match r {
            Ok(cs) => first_event_fault(vs@) is None && all_events_described(vs@, cs@, windows),
            Err(e) => first_event_fault(vs@) == Some(e),
        },
{
    broadcast use vstd::std_specs::vec::axiom_spec_into_iter;

    let ghost all = vs@;
    let mut out: Vec<EventConfig> = Vec::new();
    for v in it: vs.into_iter()
        invariant
            it.seq() == all,
            out@.len() == it.index(),
            first_event_fault(all.subrange(0, it.index())) is None,
            forall|i: int| 0 <= i < it.index() ==> (#[trigger] all[i]).describes(out@[i], windows),
    {
        proof {
            let now = all.subrange(0, it.index() + 1);
            assert(now.drop_last() == all.subrange(0, it.index()));
            assert(now.last() == v);
        }
        match EventConfig::try_from(v, windows) {
            Ok(c) => {
                out.push(c);
            },
            Err(e) => {
                proof {
                    lemma_fault_stays(all, it.index() + 1);
                }
                return Err(e);
            },
        }
    }
    assert(all.subrange(0, all.len() as int) == all);
    Ok(out)
}

/// A fault among the first `k` rules is the fault of the whole list.
proof fn lemma_fault_stays(vs: Seq<EventConfigSerializer>, k: int)
    requires
        0 <= k <= vs.len(),
        first_event_fault(vs.subrange(0, k)) is Some,
    ensures
        first_event_fault(vs) == first_event_fault(vs.subrange(0, k)),
    decreases vs.len() - k,
{
    if k < vs.len() {
        let next = vs.subrange(0, k + 1);
        assert(next.drop_last() == vs.subrange(0, k));
        lemma_fault_stays(vs, k + 1);
    } else {
        assert(vs.subrange(0, k) == vs);
    }
}

/// The fault of an optional list of commands, if it has one.
pub open spec fn runs_fault(vs: Option<Vec<RunConfigSerializer>>) -> Option<Error> {
    match vs {
        Some(list) => first_run_fault(list@),
        None => None,
    }
}

/// Whether `cs` are the commands that `vs` describe, where there are any.
pub open spec fn runs_described(
    vs: Option<Vec<RunConfigSerializer>>,
    cs: Option<Vec<RunConfig>>,
    windows: bool,
) -> bool {
    match vs {
        Some(list) => cs matches Some(out) && all_described(list@, out@, windows),
        None => cs is None,
    }
}

/// The commands that `vs` describe, where there are any.
fn check_optional_runs(vs: Option<Vec<RunConfigSerializer>>, windows: bool) -> (r: Result<
    Option<Vec<RunConfig>>,
    Error,
>)
    ensures
        match r {
            Ok(cs) => runs_fault(vs) is None && runs_described(vs, cs, windows),
            Err(e) => runs_fault(vs) == Some(e),
        },
{
    match vs {
        Some(list) => match check_runs(list, windows) {
            Ok(out) => Ok(Some(out)),
            Err(e) => Err(e),
        },
        None => Ok(None),
    }
}

impl DeviceConfigSerializer {
    /// The two selectors that the rule names together, if it names more than
    /// one: name and regex first, then name and addr, then regex and addr.
    pub open spec fn clash(&self) -> Option<(Selector, Selector)> {
        if self.name is Some && self.regex is Some {
            Some((Selector::Name, Selector::Regex))
        } else if self.name is Some && self.addr is Some {
            Some((Selector::Name, Selector::Addr))
        } else if self.regex is Some && self.addr is Some {
            Some((Selector::Regex, Selector::Addr))
        } else {
            None
        }
    }

    /// Whether the rule selects by a pattern that is no regular expression.
    pub open spec fn bad_pattern(&self) -> bool {
        self.regex matches Some(p) && !regex_valid(p@)
    }

    /// Whether the rule is refused: for two selectors at once, for a pattern
    /// that is no regular expression, or for a fault in its commands or in its
    /// event rules.
    pub open spec fn refused(&self) -> bool {
        ||| self.clash() is Some
        ||| self.bad_pattern()
        ||| runs_fault(self.connect) is Some
        ||| runs_fault(self.disconnect) is Some
        ||| (self.events matches Some(list) && first_event_fault(list@) is Some)
    }

    /// Whether `e` is the fault for which the rule is refused: the first of
    /// two selectors at once, a pattern that is no regular expression, a fault
    /// in the commands on connection, one in the commands on disconnection,
    /// one in the event rules.
    pub open spec fn fault_is(&self, e: Error) -> bool {
        if self.clash() is Some {
            e == Error::IncompatibleArgs(self.clash().unwrap().0, self.clash().unwrap().1)
        } else if self.bad_pattern() {
            e is Regex
        } else if runs_fault(self.connect) is Some {
            runs_fault(self.connect) == Some(e)
        } else if runs_fault(self.disconnect) is Some {
            runs_fault(self.disconnect) == Some(e)
        } else {
            self.events matches Some(list) && first_event_fault(list@) == Some(e)
        }
    }

    /// Whether `id` is the selector that the rule names.
    pub open spec fn selects(&self, id: Identifier) -> bool {
        match (self.name, self.regex, self.addr) {
            (Some(n), None, None) => id == Identifier::Name(n),
            (None, Some(r), None) => id == Identifier::Regex(r),
            (None, None, Some(a)) => id == Identifier::Addr(a),
            (None, None, None) => id is All,
            _ => false,
        }
    }

    /// Whether `c` is the device rule that `self` describes.
    pub open spec fn describes(&self, c: DeviceConfig, windows: bool) -> bool {
        &&& self.selects(c.identifier)
        &&& c.max_connections == self.max_connections
        &&& runs_described(self.connect, c.connect, windows)
        &&& runs_described(self.disconnect, c.disconnect, windows)
        &&& match self.events {
            Some(list) => c.events matches Some(out) && all_events_described(list@, out@, windows),
            None => c.events is None,
        }
        &&& c.queue_length == match self.queue_length {
            Some(n) => n,
            None => DEFAULT_QUEUE_LENGTH,
        }
        &&& c.interval == match self.interval {
            Some(d) => d,
            None => (Span { secs: 0, nanos: 0 }),
        }
    }
}

impl DeviceConfig {
    /// Whether the selector of the rule can be used: its pattern, if it has
    /// one, is a regular expression.
    pub open spec fn wf(&self) -> bool {
        self.identifier matches Identifier::Regex(p) ==> regex_valid(p@)
    }

    /// The device rule that `v` describes, or the fault for which it is
    /// refused.
    #[verifier::rlimit(50)]
    pub fn try_from(v: DeviceConfigSerializer, windows: bool) -> (r: Result<DeviceConfig, Error>)
        ensures
            r is Err <==> v.refused(),
            r matches Err(e) ==> v.fault_is(e),
            r matches Ok(c) ==> v.describes(c, windows) && c.wf(),
    {
        let identifier = match (v.name, v.regex, v.addr) {
            (Some(_), Some(_), _) => {
                return Err(Error::IncompatibleArgs(Selector::Name, Selector::Regex));
            },
            (Some(_), None, Some(_)) => {
                return Err(Error::IncompatibleArgs(Selector::Name, Selector::Addr));
            },
            (None, Some(_), Some(_)) => {
                return Err(Error::IncompatibleArgs(Selector::Regex, Selector::Addr));
            },
            (Some(n), None, None) => Identifier::Name(n),
            (None, Some(r), None) => {
                match check_regex(r.as_str()) {
                    Ok(()) => {},
                    Err(e) => {
                        return Err(e);
                    },
                }
                Identifier::Regex(r)
            },
            (None, None, Some(a)) => Identifier::Addr(a),
            (None, None, None) => Identifier::All,
        };
        let connect = match check_optional_runs(v.connect, windows) {
            Ok(c) => c,
            Err(e) => {
                return Err(e);
            },
        };
        let disconnect = match check_optional_runs(v.disconnect, windows) {
            Ok(c) => c,
            Err(e) => {
                return Err(e);
            },
        };
        let events = match v.events {
            Some(list) => match check_events(list, windows) {
                Ok(out) => Some(out),
                Err(e) => {
                    return Err(e);
                },
            },
            None => None,
        };
        let queue_length = match v.queue_length {
            Some(n) => n,
            None => DEFAULT_QUEUE_LENGTH,
        };
        let interval = match v.interval {
            Some(d) => d,
            None => Span { secs: 0, nanos: 0 },
        };
        Ok(
            DeviceConfig {
                identifier,
                max_connections: v.max_connections,
                connect,
                disconnect,
                events,
                queue_length,
                interval,
            },
        )
    }

    /// The starts of `runs`, each with the variables of the event of no
    /// message.
    fn run_internal<'a>(runs: &'a Option<Vec<RunConfig>>) -> (r: Vec<Invocation<'a>>)
        ensures
            starts_all(r@, *runs),
    {
        let mut out: Vec<Invocation<'a>> = Vec::new();
        match runs {
            Some(list) => {
                let mut i: usize = 0;
                while i < list.len()
                    invariant
                        i <= list.len(),
                        out@.len() == i,
                        forall|j: int| 0 <= j < i ==> starts_plain(#[trigger] out@[j], list@[j]),
                    decreases list.len() - i,
                {
                    let run = &list[i];
                    let event = Event::new();
                    let env = event.make_env(None, false);
                    let pairs = env.to_map(run.envconf.as_ref());
                    out.push(run.run(pairs));
                    i = i + 1;
                }
            },
            None => {},
        }
        out
    }

    /// What to start when a port of the rule is connected: each of its
    /// commands on connection, in order, with the variables of the event of
    /// no message.
    pub fn run_connect(&self) -> (r: Vec<Invocation<'_>>)
        ensures
            starts_all(r@, self.connect),
    {
        Self::run_internal(&self.connect)
    }

    /// What to start when a port of the rule is gone: each of its commands on
    /// disconnection, in order, with the variables of the event of no message.
    pub fn run_disconnect(&self) -> (r: Vec<Invocation<'_>>)
        ensures
            starts_all(r@, self.disconnect),
    {
        Self::run_internal(&self.disconnect)
    }
}

/// Whether `start` starts `run` with the variables of the event of no
/// message: class `Unknown`, all values 0, no bytes, no moment.
pub open spec fn starts_plain(start: Invocation, run: RunConfig) -> bool {
    &&& *start.args == run.args
    &&& start.detach == run.detach
    &&& env_pairs_ok(start.env@, no_message(), None, false, run.envconf)
}

/// Whether `starts` start the commands of `runs`, each in its turn.
pub open spec fn starts_all(starts: Seq<Invocation>, runs: Option<Vec<RunConfig>>) -> bool {
    match runs {
        Some(list) => starts.len() == list@.len() && forall|j: int|
            0 <= j < list@.len() ==> starts_plain(#[trigger] starts[j], list@[j]),
        None => starts.len() == 0,
    }
}

} // verus!
