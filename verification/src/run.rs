//! Running the daemon: the shell that wraps a command line, the count of
//! the connections of each device rule, and the binding of ports to rules.

use vstd::prelude::*;
use vstd::pervasive::unreached;
use vstd::string::StringExecFns;
use crate::config::device::{DeviceConfig, Identifier};
use crate::error::Error;
use crate::midi::addr::{addr_of, DeviceAddr};
use crate::midi::input::{fits, try_connect};
use crate::midi::port::MidiPort;
use crate::midi::portfilter::{regex_accepts, regex_valid, PortFilter};
use crate::util::text::contains_text;
use crate::util::number::IntErrorKind;

verus! {

/// The words that run `cmd` in the shell of the platform: `sh -c cmd`, or
/// `cmd /C cmd` on Windows.
pub open spec fn shell_words(cmd: Seq<char>, windows: bool) -> Seq<Seq<char>> {
    if windows {
        seq!["cmd"@, "/C"@, cmd]
    } else {
        seq!["sh"@, "-c"@, cmd]
    }
}

/// The texts of `words`.
pub open spec fn words_view(words: Seq<String>) -> Seq<Seq<char>> {
    Seq::new(words.len(), |i: int| words[i]@)
}

/// The command line that runs `cmd` in the shell of the platform.
pub fn cross_shell(cmd: &str, windows: bool) -> (r: Vec<String>)
    ensures
        words_view(r@) == shell_words(cmd@, windows),
{
    let mut r: Vec<String> = Vec::new();
    if windows {
        r.push(String::from_str("cmd"));
        r.push(String::from_str("/C"));
    } else {
        r.push(String::from_str("sh"));
        r.push(String::from_str("-c"));
    }
    r.push(String::from_str(cmd));
    assert(words_view(r@) =~= shell_words(cmd@, windows));
    r
}

/// The connections of one device rule: how many there are, and how many
/// there may be.
#[derive(Debug, Clone, Copy, PartialEq, Eq, Structural)]
pub struct ConnectionCounter {
    pub current: u32,
    pub max: u32,
}

impl ConnectionCounter {
    /// Whether there are no more connections than there may be.
    pub open spec fn wf(&self) -> bool {
        self.current <= self.max
    }

    /// Whether no further connection may be made.
    pub open spec fn spec_is_full(&self) -> bool {
        self.current >= self.max
    }

    /// The counter after a try to count one more connection: one more, unless
    /// no further one may be made.
    pub open spec fn spec_acquire(self) -> ConnectionCounter {
        if self.spec_is_full() {
            self
        } else {
            ConnectionCounter { current: (self.current + 1) as u32, max: self.max }
        }
    }

    /// The counter after a connection has ended: one less, where there was
    /// one.
    pub open spec fn spec_release(self) -> ConnectionCounter {
        if self.current > 0 {
            ConnectionCounter { current: (self.current - 1) as u32, max: self.max }
        } else {
            self
        }
    }

    /// The counter of a rule without connections that may have `max`.
    pub fn new(max: u32) -> (r: Self)
        ensures
            r.wf(),
            r.current == 0,
            r.max == max,
    {
        ConnectionCounter { current: 0, max }
    }

    #[verifier::when_used_as_spec(spec_is_full)]
    pub fn is_full(&self) -> (r: bool)
        ensures
            r == self.spec_is_full(),
    {
        self.current >= self.max
    }

    /// Counts one more connection, unless no further one may be made; says
    /// whether it did.
    pub fn acquire(&mut self) -> (r: bool)
        requires
            old(self).wf(),
        ensures
            final(self).wf(),
            *final(self) == old(self).spec_acquire(),
            r == !old(self).spec_is_full(),
    {
        if self.current >= self.max {
            false
        } else {
            self.current = self.current + 1;
            true
        }
    }

    /// Counts one connection less, where there is one.
    pub fn release(&mut self)
        requires
            old(self).wf(),
        ensures
            final(self).wf(),
            *final(self) == old(self).spec_release(),
    {
        if self.current > 0 {
            self.current = self.current - 1;
        }
    }
}

/// The counter after the connections and disconnections `ops`, in order: a
/// `true` is a try to connect, a `false` the end of a connection.
pub open spec fn counter_after(start: ConnectionCounter, ops: Seq<bool>) -> ConnectionCounter
    decreases ops.len(),
{
    if ops.len() == 0 {
        start
    } else if ops.last() {
        counter_after(start, ops.drop_last()).spec_acquire()
    } else {
        counter_after(start, ops.drop_last()).spec_release()
    }
}

/// Whatever the order of connections and disconnections, a counter never
/// holds more connections than there may be, and its cap stays.
pub proof fn lemma_cap_holds(start: ConnectionCounter, ops: Seq<bool>)
    requires
        start.wf(),
    ensures
        counter_after(start, ops).wf(),
        counter_after(start, ops).max == start.max,
    decreases ops.len(),
{
    if ops.len() > 0 {
        lemma_cap_holds(start, ops.drop_last());
    }
}

/// The counter of a device rule: one where the rule caps its connections.
pub fn counter_for(dev: &DeviceConfig) -> (r: Option<ConnectionCounter>)
    ensures
        match dev.max_connections {
            Some(max) => r == Some(ConnectionCounter { current: 0, max }),
            None => r is None,
        },
{
    match dev.max_connections {
        Some(max) => Some(ConnectionCounter::new(max)),
        None => None,
    }
}

/// Whether every counter of `counters` holds no more connections than there
/// may be.
pub open spec fn counters_wf(counters: Seq<Option<ConnectionCounter>>) -> bool {
    forall|i: int|
        0 <= i < counters.len() ==> ((#[trigger] counters[i]) matches Some(c) ==> c.wf())
}

/// The counters of the device rules `devices`, one for each rule in order.
pub fn counters_for(devices: &[DeviceConfig]) -> (r: Vec<Option<ConnectionCounter>>)
    ensures
        r@.len() == devices@.len(),
        counters_wf(r@),
        forall|i: int|
            0 <= i < devices@.len() ==> #[trigger] r@[i] == match devices@[i].max_connections {
                Some(max) => Some(ConnectionCounter { current: 0, max }),
                None => None,
            },
{
    let mut out: Vec<Option<ConnectionCounter>> = Vec::new();
    let mut i: usize = 0;
    while i < devices.len()
        invariant
            i <= devices.len(),
            out@.len() == i,
            counters_wf(out@),
            forall|j: int|
                0 <= j < i ==> #[trigger] out@[j] == match devices@[j].max_connections {
                    Some(max) => Some(ConnectionCounter { current: 0, max }),
                    None => None,
                },
        decreases devices.len() - i,
    {
        out.push(counter_for(&devices[i]));
        i = i + 1;
    }
    out
}

/// Whether a counter, where there is one, allows no further connection.
pub open spec fn full(counter: Option<ConnectionCounter>) -> bool {
    counter matches Some(c) && c.spec_is_full()
}

/// The fault of the selector of `dev`, if it is an address that cannot be
/// read.
pub open spec fn addr_fault(dev: DeviceConfig) -> Option<IntErrorKind> {
    match dev.identifier {
        Identifier::Addr(s) => match addr_of(s@) {
            Err(kind) => Some(kind),
            Ok(_) => None,
        },
        _ => None,
    }
}

/// Whether the device rule `dev` is for the port `candidate`, going by its
/// selector: every port; the ports whose name holds a text; those whose
/// name has a match for a regular expression; the port of an address.
pub open spec fn wants(dev: DeviceConfig, candidate: MidiPort<DeviceAddr>) -> bool {
    match dev.identifier {
        Identifier::All => true,
        Identifier::Name(s) => contains_text(candidate.name@, s@),
        Identifier::Regex(s) => regex_valid(s@) && regex_accepts(s@, candidate.name@),
        Identifier::Addr(s) => addr_of(s@) == Ok::<(int, int), IntErrorKind>(
            (candidate.addr.client as int, candidate.addr.port as int),
        ),
    }
}

/// Whether the device rule `dev` with the counter `counter` passes the
/// announced port `port` on to the rules behind it: it allows no further
/// connection, or none of `ports` has the address of `port` and is wanted by
/// the rule.
pub open spec fn passes_on(
    dev: DeviceConfig,
    counter: Option<ConnectionCounter>,
    ports: Seq<MidiPort<DeviceAddr>>,
    port: MidiPort<DeviceAddr>,
) -> bool {
    full(counter) || (addr_fault(dev) is None && forall|j: int|
        0 <= j < ports.len() ==> !((#[trigger] ports[j]).addr == port.addr && wants(dev, ports[j])))
}

/// A port bound to a device rule: the place of the rule among the rules and
/// the place of the port among the ports.
#[derive(Debug, Clone, Copy, PartialEq, Eq, Structural)]
pub struct Binding {
    pub device: usize,
    pub port: usize,
}

/// The filter that the selector of a device rule asks for lets the ports
/// pass that the rule wants.
pub proof fn lemma_filter_wants(
    dev: DeviceConfig,
    filter: PortFilter<DeviceAddr>,
    candidate: MidiPort<DeviceAddr>,
)
    requires
        filter.asked_by(dev.identifier),
    ensures
        filter.accepts(candidate.name@, candidate.addr) == wants(dev, candidate),
{
}

/// Whether `at` is the place in `ports` of the first port that has the
/// address of `port` and that the device rule `dev` wants, or nothing where
/// there is no such port.
pub open spec fn first_wanted(
    dev: DeviceConfig,
    ports: Seq<MidiPort<DeviceAddr>>,
    port: MidiPort<DeviceAddr>,
    at: Option<usize>,
) -> bool {
    match at {
        Some(j) => j < ports.len() && ports[j as int].addr == port.addr && wants(dev, ports[j as int])
            && forall|k: int|
            0 <= k < j ==> !((#[trigger] ports[k]).addr == port.addr && wants(dev, ports[k])),
        None => forall|k: int|
            0 <= k < ports.len() ==> !((#[trigger] ports[k]).addr == port.addr && wants(
                dev,
                ports[k],
            )),
    }
}

/// Whether `found` is what the device rule `dev` finds among `ports` for the
/// announced port `port`: the place of the first port with that address
/// that it wants, or nothing; or the fault of its selector, where that is
/// an address that cannot be read.
pub open spec fn finds(
    dev: DeviceConfig,
    ports: Seq<MidiPort<DeviceAddr>>,
    port: MidiPort<DeviceAddr>,
    found: Result<Option<usize>, IntErrorKind>,
) -> bool {
    match found {
        Err(kind) => addr_fault(dev) == Some(kind),
        Ok(at) => addr_fault(dev) is None && first_wanted(dev, ports, port, at),
    }
}

/// What the device rule `dev` finds among `ports` for the announced port
/// `port`.
pub fn look_for(dev: &DeviceConfig, ports: &[MidiPort<DeviceAddr>], port: &MidiPort<DeviceAddr>) -> (found:
    Result<Option<usize>, IntErrorKind>)
    ensures
        finds(*dev, ports@, *port, found),
{
    let filter = match PortFilter::i_try_from(dev) {
        Ok(f) => f,
        Err(Error::ParseInt(kind)) => {
            return Err(kind);
        },
        Err(_) => unreached(),
    };
    let at = try_connect(ports, port, &filter);
    proof {
        assert forall|j: int| 0 <= j < ports@.len() implies (#[trigger] fits(
            ports@[j],
            *port,
            filter,
        ) == (ports@[j].addr == port.addr && wants(*dev, ports@[j]))) by {
            lemma_filter_wants(*dev, filter, ports@[j]);
        }
    }
    Ok(at)
}

/// The outcome of the search for a device rule, from the rule at `i` on:
/// `counters` holds the counter of each rule and `found` what each rule
/// finds among the ports. A rule that allows no further connection is passed
/// over, whatever it finds, and so is a rule that finds nothing. The first
/// other rule decides: it binds the port that it finds, or ends the search
/// with the fault of its selector.
pub open spec fn outcome(
    counters: Seq<Option<ConnectionCounter>>,
    found: Seq<Result<Option<usize>, IntErrorKind>>,
    i: int,
) -> Result<Option<Binding>, Error>
    decreases found.len() - i,
{
    if i < 0 || i >= found.len() || i >= counters.len() {
        Ok(None)
    } else if full(counters[i]) {
        outcome(counters, found, i + 1)
    } else {
        match found[i] {
            Err(kind) => Err(Error::ParseInt(kind)),
            Ok(Some(j)) => Ok(Some(Binding { device: i as usize, port: j })),
            Ok(None) => outcome(counters, found, i + 1),
        }
    }
}

/// The counters after a search with the outcome `r`: one more connection
/// for the rule that binds the port, where it has a counter; else no change.
pub open spec fn counted_in(counters: Seq<Option<ConnectionCounter>>, r: Result<Option<Binding>, Error>) -> Seq<
    Option<ConnectionCounter>,
> {
    match r {
        Ok(Some(b)) => counters.update(
            b.device as int,
            match counters[b.device as int] {
                Some(c) => Some(c.spec_acquire()),
                None => None,
            },
        ),
        _ => counters,
    }
}

/// Whether a rule with the counter `counter` that finds `found` is passed
/// over in the search: it allows no further connection, or finds nothing.
pub open spec fn passed_over(
    counter: Option<ConnectionCounter>,
    found: Result<Option<usize>, IntErrorKind>,
) -> bool {
    full(counter) || found == Ok::<Option<usize>, IntErrorKind>(None)
}

/// The place of the first rule from `i` on that is not passed over, or the
/// number of rules where all are.
pub open spec fn decider(
    counters: Seq<Option<ConnectionCounter>>,
    found: Seq<Result<Option<usize>, IntErrorKind>>,
    i: int,
) -> int
    decreases found.len() - i,
{
    if i < 0 || i >= found.len() || i >= counters.len() {
        found.len() as int
    } else if passed_over(counters[i], found[i]) {
        decider(counters, found, i + 1)
    } else {
        i
    }
}

/// The outcome of a search is what the first rule that is not passed over
/// decides.
proof fn lemma_outcome(
    counters: Seq<Option<ConnectionCounter>>,
    found: Seq<Result<Option<usize>, IntErrorKind>>,
    i: int,
)
    requires
        0 <= i <= found.len() <= usize::MAX,
        counters.len() == found.len(),
    ensures
        i <= decider(counters, found, i) <= found.len(),
        forall|k: int|
            i <= k < decider(counters, found, i) ==> passed_over(#[trigger] counters[k], found[k]),
        decider(counters, found, i) < found.len() ==> !passed_over(
            counters[decider(counters, found, i)],
            found[decider(counters, found, i)],
        ),
        outcome(counters, found, i) == if decider(counters, found, i) == found.len() {
            Ok::<Option<Binding>, Error>(None)
        } else {
            match found[decider(counters, found, i)] {
                Err(kind) => Err(Error::ParseInt(kind)),
                Ok(at) => Ok(
                    Some(Binding { device: decider(counters, found, i) as usize, port: at.unwrap() }),
                ),
            }
        },
    decreases found.len() - i,
{
    if i < found.len() && passed_over(counters[i], found[i]) {
        lemma_outcome(counters, found, i + 1);
    }
}

/// Binds a port to the first device rule that allows a further connection
/// and finds a port, and counts the connection: `counters` holds the counter
/// of each rule, `found` what each rule finds among the ports.
pub fn bind_first(
    counters: &mut Vec<Option<ConnectionCounter>>,
    found: &[Result<Option<usize>, IntErrorKind>],
) -> (r: Result<Option<Binding>, Error>)
    requires
        old(counters)@.len() == found@.len(),
        counters_wf(old(counters)@),
    ensures
        r == outcome(old(counters)@, found@, 0),
        final(counters)@ == counted_in(old(counters)@, r),
        counters_wf(final(counters)@),
{
    let mut i: usize = 0;
    while i < found.len()
        invariant
            i <= found.len(),
            counters@ == old(counters)@,
            counters@.len() == found@.len(),
            counters_wf(counters@),
            outcome(old(counters)@, found@, 0) == outcome(old(counters)@, found@, i as int),
        decreases found.len() - i,
    {
        let is_full = match &counters[i] {
            Some(c) => c.is_full(),
            None => false,
        };
        if !is_full {
            match found[i] {
                Err(kind) => {
                    return Err(Error::ParseInt(kind));
                },
                Ok(Some(at)) => {
                    let next = match counters[i] {
                        Some(c) => {
                            let mut c = c;
                            c.acquire();
                            Some(c)
                        },
                        None => None,
                    };
                    counters.set(i, next);
                    return Ok(Some(Binding { device: i, port: at }));
                },
                Ok(None) => {},
            }
        }
        i = i + 1;
    }
    Ok(None)
}

/// Binds the announced port `port` to the first device rule that allows a
/// further connection and wants it, and counts the connection. `ports` are
/// the ports that are there now. A rule that allows no further connection is
/// passed over, whatever it selects. The rules behind the one that binds
/// the port have no part in it: a port belongs to at most one rule. A rule
/// whose selector is an address that cannot be read ends the search with its
/// fault, unless it is passed over or stands behind the rule that binds the
/// port.
#[verifier::rlimit(50)]
pub fn try_connect_process(
    devices: &[DeviceConfig],
    counters: &mut Vec<Option<ConnectionCounter>>,
    ports: &[MidiPort<DeviceAddr>],
    port: &MidiPort<DeviceAddr>,
) -> (r: Result<Option<Binding>, Error>)
    requires
        old(counters)@.len() == devices@.len(),
        counters_wf(old(counters)@),
    ensures
        final(counters)@.len() == devices@.len(),
        counters_wf(final(counters)@),
        final(counters)@ == counted_in(old(counters)@, r),
        match r {
            Ok(Some(b)) => {
                &&& b.device < devices@.len()
                &&& forall|k: int|
                    0 <= k < b.device ==> passes_on(
                        #[trigger] devices@[k],
                        old(counters)@[k],
                        ports@,
                        *port,
                    )
                &&& !full(old(counters)@[b.device as int])
                &&& first_wanted(devices@[b.device as int], ports@, *port, Some(b.port))
            },
            Ok(None) => forall|k: int|
                0 <= k < devices@.len() ==> passes_on(
                    #[trigger] devices@[k],
                    old(counters)@[k],
                    ports@,
                    *port,
                ),
            Err(e) => exists|i: int|
                {
                    &&& 0 <= i < devices@.len()
                    &&& forall|k: int|
                        0 <= k < i ==> passes_on(
                            #[trigger] devices@[k],
                            old(counters)@[k],
                            ports@,
                            *port,
                        )
                    &&& !full(old(counters)@[i])
                    &&& #[trigger] addr_fault(devices@[i]) matches Some(kind) && e
                        == Error::ParseInt(kind)
                },
        },
{
    let mut found: Vec<Result<Option<usize>, IntErrorKind>> = Vec::new();
    let mut i: usize = 0;
    while i < devices.len()
        invariant
            i <= devices.len(),
            counters@ == old(counters)@,
            counters@.len() == devices@.len(),
            found@.len() == i,
            forall|k: int|
                0 <= k < i ==> full(#[trigger] counters@[k]) || finds(
                    devices@[k],
                    ports@,
                    *port,
                    found@[k],
                ),
        decreases devices.len() - i,
    {
        let is_full = match &counters[i] {
            Some(c) => c.is_full(),
            None => false,
        };
        if is_full {
            found.push(Ok(None));
        } else {
            found.push(look_for(&devices[i], ports, port));
        }
        i = i + 1;
    }
    let r = bind_first(counters, found.as_slice());
    proof {
        let before = old(counters)@;
        let d = decider(before, found@, 0);
        lemma_outcome(before, found@, 0);
        assert forall|k: int| 0 <= k < d implies passes_on(
            #[trigger] devices@[k],
            before[k],
            ports@,
            *port,
        ) by {
            assert(passed_over(before[k], found@[k]));
        }
        if d < found@.len() {
            assert(finds(devices@[d], ports@, *port, found@[d]));
            if found@[d] is Err {
                assert(addr_fault(devices@[d]) is Some);
            }
        }
    }
    r
}

/// The stages of the thread that serves one connected port.
#[derive(Debug, Clone, Copy, PartialEq, Eq, Structural)]
pub enum WorkerStage {
    Spawned,
    ConnectActions,
    Running,
    DisconnectActions,
    Exited,
}

/// What moves a worker on.
#[derive(Debug, Clone, Copy, PartialEq, Eq, Structural)]
pub enum WorkerEvent {
    /// The thread has started.
    Started,
    /// The commands on connection are through.
    Connected,
    /// The supervisor has asked the worker to stop.
    StopRequested,
    /// The port has ended the subscription.
    UpstreamLost,
    /// The commands on disconnection are through.
    Disconnected,
    /// What the worker was doing has failed.
    Failed,
}

/// What a worker does next.
#[derive(Debug, Clone, Copy, PartialEq, Eq, Structural)]
pub enum WorkerAction {
    /// Run the commands on connection.
    RunConnect,
    /// Serve the port: take its messages in and run the commands for them.
    Serve,
    /// Run the commands on disconnection.
    RunDisconnect,
    /// Give the connection back to the counter of the device rule.
    Release,
    /// Nothing new: go on with what is being done, or rest where the worker
    /// has left.
    Wait,
}

/// The stage of a worker after an event, and what it does there.
#[derive(Debug, Clone, Copy, PartialEq, Eq, Structural)]
pub struct WorkerStep {
    pub stage: WorkerStage,
    pub action: WorkerAction,
}

impl WorkerStage {
    /// The place of the stage in the life of a worker.
    pub open spec fn rank(self) -> int {
        match self {
            WorkerStage::Spawned => 0,
            WorkerStage::ConnectActions => 1,
            WorkerStage::Running => 2,
            WorkerStage::DisconnectActions => 3,
            WorkerStage::Exited => 4,
        }
    }

    /// The stage that follows `self` when `event` happens. A worker runs the
    /// commands on connection, serves the port until it is asked to stop or
    /// the port is gone, runs the commands on disconnection and leaves. A
    /// failure of what it is doing makes it leave at once. An event that does
    /// not belong to its stage leaves it where it is.
    pub open spec fn spec_next(self, event: WorkerEvent) -> WorkerStage {
        match (self, event) {
            (WorkerStage::Exited, _) => WorkerStage::Exited,
            (_, WorkerEvent::Failed) => WorkerStage::Exited,
            (WorkerStage::Spawned, WorkerEvent::Started) => WorkerStage::ConnectActions,
            (WorkerStage::ConnectActions, WorkerEvent::Connected) => WorkerStage::Running,
            (WorkerStage::Running, WorkerEvent::StopRequested) => WorkerStage::DisconnectActions,
            (WorkerStage::Running, WorkerEvent::UpstreamLost) => WorkerStage::DisconnectActions,
            (WorkerStage::DisconnectActions, WorkerEvent::Disconnected) => WorkerStage::Exited,
            _ => self,
        }
    }

    /// What the worker does when `event` takes it from `self` to a new
    /// stage: the work of that stage, and on leaving the release of its
    /// connection. Where the stage stays there is nothing new to do.
    pub open spec fn spec_action(self, event: WorkerEvent) -> WorkerAction {
        if self.spec_next(event) == self {
            WorkerAction::Wait
        } else {
            match self.spec_next(event) {
                WorkerStage::Spawned => WorkerAction::Wait,
                WorkerStage::ConnectActions => WorkerAction::RunConnect,
                WorkerStage::Running => WorkerAction::Serve,
                WorkerStage::DisconnectActions => WorkerAction::RunDisconnect,
                WorkerStage::Exited => WorkerAction::Release,
            }
        }
    }

    /// The stage that follows `self` when `event` happens. A worker never
    /// goes back to an earlier stage.
    #[verifier::when_used_as_spec(spec_next)]
    pub fn next(self, event: WorkerEvent) -> (r: WorkerStage)
        ensures
            r == self.spec_next(event),
            self.rank() <= r.rank(),
    {
        match (self, event) {
            (WorkerStage::Exited, _) => WorkerStage::Exited,
            (_, WorkerEvent::Failed) => WorkerStage::Exited,
            (WorkerStage::Spawned, WorkerEvent::Started) => WorkerStage::ConnectActions,
            (WorkerStage::ConnectActions, WorkerEvent::Connected) => WorkerStage::Running,
            (WorkerStage::Running, WorkerEvent::StopRequested) => WorkerStage::DisconnectActions,
            (WorkerStage::Running, WorkerEvent::UpstreamLost) => WorkerStage::DisconnectActions,
            (WorkerStage::DisconnectActions, WorkerEvent::Disconnected) => WorkerStage::Exited,
            _ => self,
        }
    }

    /// The stage that follows `self` when `event` happens, and what the
    /// worker does there: in order the commands on connection, the serving
    /// of the port and the commands on disconnection, and as the last thing,
    /// on whatever way the worker leaves, the release of its connection.
    pub fn step(self, event: WorkerEvent) -> (r: WorkerStep)
        ensures
            r.stage == self.spec_next(event),
            r.action == self.spec_action(event),
            self.rank() <= r.stage.rank(),
            r.action == WorkerAction::Release <==> (self != WorkerStage::Exited && r.stage
                == WorkerStage::Exited),
    {
        let stage = self.next(event);
        let action = match (self, stage) {
            (WorkerStage::Spawned, WorkerStage::ConnectActions) => WorkerAction::RunConnect,
            (WorkerStage::ConnectActions, WorkerStage::Running) => WorkerAction::Serve,
            (WorkerStage::Running, WorkerStage::DisconnectActions) => WorkerAction::RunDisconnect,
            (WorkerStage::Exited, _) => WorkerAction::Wait,
            (_, WorkerStage::Exited) => WorkerAction::Release,
            _ => WorkerAction::Wait,
        };
        WorkerStep { stage, action }
    }
}

/// The stage of a worker after the events `events`, in order, from its
/// start.
pub open spec fn stage_after(events: Seq<WorkerEvent>) -> WorkerStage
    decreases events.len(),
{
    if events.len() == 0 {
        WorkerStage::Spawned
    } else {
        stage_after(events.drop_last()).spec_next(events.last())
    }
}

/// The number of times that a worker releases its connection over the
/// events `events`, in order, from its start.
pub open spec fn releases(events: Seq<WorkerEvent>) -> nat
    decreases events.len(),
{
    if events.len() == 0 {
        0
    } else if stage_after(events.drop_last()).spec_action(events.last()) == WorkerAction::Release {
        releases(events.drop_last()) + 1
    } else {
        releases(events.drop_last())
    }
}

/// Whatever happens to a worker, it releases its connection once on
/// leaving, on every way out, and never else: after any events it has
/// released once where it has left, and not yet where it has not.
pub proof fn lemma_release_once(events: Seq<WorkerEvent>)
    ensures
        releases(events) == if stage_after(events) == WorkerStage::Exited {
            1nat
        } else {
            0nat
        },
    decreases events.len(),
{
    if events.len() > 0 {
        lemma_release_once(events.drop_last());
    }
}

/// A worker does the work of its stages in their order: whatever happens
/// to it, it never goes back to an earlier stage.
pub proof fn lemma_stages_in_order(events: Seq<WorkerEvent>, k: int)
    requires
        0 <= k <= events.len(),
    ensures
        stage_after(events.subrange(0, k)).rank() <= stage_after(events).rank(),
    decreases events.len() - k,
{
    if k < events.len() {
        let next = events.subrange(0, k + 1);
        assert(next.drop_last() == events.subrange(0, k));
        lemma_stages_in_order(events, k + 1);
    } else {
        assert(events.subrange(0, k) == events);
    }
}

/// Gives the connection of a worker back to the counter of its device
/// rule, the rule at `device`: one connection less there, where the rule
/// has a counter; the other counters stay.
pub fn release_connection(counters: &mut Vec<Option<ConnectionCounter>>, device: usize)
    requires
        counters_wf(old(counters)@),
    ensures
        counters_wf(final(counters)@),
        final(counters)@.len() == old(counters)@.len(),
        forall|i: int|
            0 <= i < old(counters)@.len() ==> #[trigger] final(counters)@[i] == if i == device {
                match old(counters)@[i] {
                    Some(c) => Some(c.spec_release()),
                    None => None,
                }
            } else {
                old(counters)@[i]
            },
{
    if device < counters.len() {
        let next = match counters[device] {
            Some(c) => {
                let mut c = c;
                c.release();
                Some(c)
            },
            None => None,
        };
        counters.set(device, next);
    }
}

/// A connection that was counted and is given back leaves the counter as
/// it was.
pub proof fn lemma_slot_returns(c: ConnectionCounter)
    requires
        c.wf(),
        !c.spec_is_full(),
    ensures
        c.spec_acquire().spec_release() == c,
{
}

/// What the supervisor does with what it receives.
#[derive(Debug, Clone, Copy, PartialEq, Eq, Structural)]
pub enum SupervisorStep {
    /// Try to bind the announced port.
    Bind,
    /// Stop the workers and return, so that the configuration is read anew.
    Shutdown,
}

/// What the supervisor does when `announced` says whether a port was
/// announced to it: without one it shuts down, as it is asked to on a reload.
pub fn on_message(announced: bool) -> (r: SupervisorStep)
    ensures
        r == if announced {
            SupervisorStep::Bind
        } else {
            SupervisorStep::Shutdown
        },
{
    if announced {
        SupervisorStep::Bind
    } else {
        SupervisorStep::Shutdown
    }
}

} // verus!
