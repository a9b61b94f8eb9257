//! The sequencer backend: what it keeps of a connection, which events of
//! the sequencer it turns into messages, and when its input loop ends.

use vstd::prelude::*;
use vstd::string::StringExecFns;
use super::addr::DeviceAddr;
use super::port::MidiPort;
use super::portfilter::{filter_ports, passing, PortFilter};
use crate::util::text::contains_text;
use crate::util::time::{Span, Timestamp};

verus! {

/// A fault of the backend.
#[derive(Debug, Clone, Copy, PartialEq, Eq, Structural)]
pub enum AlsaError {
    /// An event of the sequencer cannot be written as MIDI bytes.
    Decode,
    /// The client is connected to a port already.
    AlreadyConnected,
}

/// The kinds of sequencer events that the backend tells apart.
#[derive(Debug, Clone, Copy, PartialEq, Eq, Structural)]
pub enum SeqEventKind {
    PortSubscribed,
    PortUnsubscribed,
    PortStart,
    Qframe,
    Tick,
    Clock,
    Sensing,
    Sysex,
    /// Every other kind: a channel message or another system message.
    Other,
}

/// A port as the sequencer lists it.
#[derive(Debug, Clone)]
pub struct PortInfo {
    pub client_name: String,
    pub port_name: String,
    pub addr: DeviceAddr,
    /// The capabilities of the port, one bit each.
    pub capability: u32,
}

/// The capability of a port to be read from.
pub const PORT_CAP_READ: u32 = 1;

/// The capability of a port to be subscribed to for reading.
pub const PORT_CAP_SUBS_READ: u32 = 32;

/// The name of the port on which the sequencer announces new ports.
pub open spec fn announce_name() -> Seq<char> {
    "System:Announce"@
}

/// Whether a port with the capabilities `have` has all of `want`.
pub open spec fn has_capability(have: u32, want: u32) -> bool {
    have & want == want
}

/// The ports of `ports` that have all the capabilities `capability`, in
/// their order.
pub open spec fn capable(ports: Seq<PortInfo>, capability: u32) -> Seq<PortInfo>
    decreases ports.len(),
{
    if ports.len() == 0 {
        Seq::empty()
    } else if has_capability(ports.last().capability, capability) {
        capable(ports.drop_last(), capability).push(ports.last())
    } else {
        capable(ports.drop_last(), capability)
    }
}

/// Keeps the ports that have all the capabilities `capability`.
pub fn get_ports(ports: Vec<PortInfo>, capability: u32) -> (r: Vec<PortInfo>)
    ensures
        r@ == capable(ports@, capability),
{
    broadcast use vstd::std_specs::vec::axiom_spec_into_iter;

    let ghost all = ports@;
    let mut out: Vec<PortInfo> = Vec::new();
    for p in it: ports.into_iter()
        invariant
            it.seq() == all,
            out@ == capable(all.subrange(0, it.index()), capability),
    {
        proof {
            let now = all.subrange(0, it.index() + 1);
            assert(now.drop_last() == all.subrange(0, it.index()));
            assert(now.last() == p);
        }
        if p.capability & capability == capability {
            out.push(p);
        }
    }
    assert(all.subrange(0, all.len() as int) == all);
    out
}

impl PortInfo {
    /// The port as rules see it: under the name of its client, a colon, and
    /// its own name.
    pub fn into_port(self) -> (p: MidiPort<DeviceAddr>)
        ensures
            p.name@ == self.client_name@ + seq![':'] + self.port_name@,
            p.addr == self.addr,
    {
        let mut name = self.client_name;
        proof {
            reveal_strlit(":");
        }
        name.append(":");
        name.append(self.port_name.as_str());
        MidiPort { name, addr: self.addr }
    }
}

/// What the input loop does after something has happened.
#[derive(Debug, Clone, Copy, PartialEq, Eq, Structural)]
pub enum LoopStep {
    /// Go on waiting.
    Continue,
    /// Hand the event on.
    Handle,
    /// Leave the loop.
    Stop,
}

/// What the backend keeps of its connection.
#[derive(Debug, Clone, Copy)]
pub struct MidiInputAlsa {
    /// The queue that stamps the events, where one is allocated.
    pub queue_id: Option<i32>,
    pub subscribed: bool,
    pub connect_addr: Option<DeviceAddr>,
    pub start_time: Option<Timestamp>,
    /// The two ends of the pipe that wakes the input loop, first the end that
    /// is read; -1 stands for an end that is not open.
    pub stop_trigger: [i32; 2],
}

/// What has to be released when a connection is closed.
#[derive(Debug, Clone, Copy, PartialEq, Eq, Structural)]
pub struct Release {
    /// Whether the subscription is to be ended.
    pub unsubscribe: bool,
    /// The queue to stop and to free, where one is allocated.
    pub queue: Option<i32>,
    /// The ends of the pipe to close, where they are open.
    pub read_end: Option<i32>,
    pub write_end: Option<i32>,
}

impl Release {
    /// Whether there is nothing to release.
    pub open spec fn nothing(&self) -> bool {
        &&& !self.unsubscribe
        &&& self.queue is None
        &&& self.read_end is None
        &&& self.write_end is None
    }
}

/// An end of the pipe, where it is open.
pub open spec fn open_end(fd: i32) -> Option<i32> {
    if fd >= 0 {
        Some(fd)
    } else {
        None
    }
}

impl MidiInputAlsa {
    /// Whether nothing is held: no subscription, no queue, no open end of
    /// the pipe, no connected port.
    pub open spec fn closed(&self) -> bool {
        &&& !self.subscribed
        &&& self.queue_id is None
        &&& self.connect_addr is None
        &&& self.stop_trigger@ == seq![-1i32, -1i32]
    }

    /// The state of a client that is connected to nothing.
    pub fn new() -> (r: Self)
        ensures
            r.closed(),
            r.start_time is None,
    {
        MidiInputAlsa {
            queue_id: None,
            subscribed: false,
            connect_addr: None,
            start_time: None,
            stop_trigger: [-1, -1],
        }
    }

    /// Notes that the client is now subscribed to the port `addr`, with the
    /// queue `queue_id` and the pipe `pipe`, since the moment `now`. A client
    /// that is connected already is left as it is and the call refused.
    pub fn connect(&mut self, addr: DeviceAddr, queue_id: i32, pipe: [i32; 2], now: Timestamp) -> (r:
        Result<(), AlsaError>)
        ensures
            match r {
                Ok(()) => {
                    &&& old(self).connect_addr is None
                    &&& final(self).connect_addr == Some(addr)
                    &&& final(self).subscribed
                    &&& final(self).queue_id == Some(queue_id)
                    &&& final(self).stop_trigger == pipe
                    &&& final(self).start_time == Some(now)
                },
                Err(e) => old(self).connect_addr is Some && e is AlreadyConnected && *final(self)
                    == *old(self),
            },
    {
        if self.connect_addr.is_some() {
            return Err(AlsaError::AlreadyConnected);
        }
        self.queue_id = Some(queue_id);
        self.subscribed = true;
        self.stop_trigger = pipe;
        self.connect_addr = Some(addr);
        self.start_time = Some(now);
        Ok(())
    }

    /// Closes the connection: says what is to be released and forgets it.
    /// The subscription is to be ended, the queue to be stopped and freed
    /// and the open ends of the pipe to be closed. After the call nothing is
    /// held, so that a second call releases nothing.
    pub fn close(&mut self) -> (r: Release)
        ensures
            r.unsubscribe == old(self).subscribed,
            r.queue == old(self).queue_id,
            r.read_end == open_end(old(self).stop_trigger[0]),
            r.write_end == open_end(old(self).stop_trigger[1]),
            final(self).closed(),
            final(self).start_time == old(self).start_time,
            old(self).closed() ==> r.nothing(),
    {
        let read_end = if self.stop_trigger[0] >= 0 {
            Some(self.stop_trigger[0])
        } else {
            None
        };
        let write_end = if self.stop_trigger[1] >= 0 {
            Some(self.stop_trigger[1])
        } else {
            None
        };
        let r = Release { unsubscribe: self.subscribed, queue: self.queue_id, read_end, write_end };
        self.subscribed = false;
        self.queue_id = None;
        self.connect_addr = None;
        self.stop_trigger = [-1, -1];
        r
    }

    /// What the input loop does when the pipe has woken it with the byte
    /// `payload`: it leaves on a zero byte, the request to stop.
    pub fn on_wake(payload: u8) -> (r: LoopStep)
        ensures
            r == if payload == 0 {
                LoopStep::Stop
            } else {
                LoopStep::Continue
            },
    {
        if payload == 0 {
            LoopStep::Stop
        } else {
            LoopStep::Continue
        }
    }

    /// What the input loop does with an event of kind `kind` that names the
    /// port `sender`: it leaves where the event says that the port it is
    /// connected to has ended the subscription, and hands on every other event.
    pub fn on_event(&self, kind: SeqEventKind, sender: Option<DeviceAddr>) -> (r: LoopStep)
        ensures
            r == if kind == SeqEventKind::PortUnsubscribed && sender is Some && sender
                == self.connect_addr {
                LoopStep::Stop
            } else {
                LoopStep::Handle
            },
    {
        match (kind, sender, self.connect_addr) {
            (SeqEventKind::PortUnsubscribed, Some(a), Some(b)) => {
                if a.client == b.client && a.port == b.port {
                    LoopStep::Stop
                } else {
                    LoopStep::Handle
                }
            },
            _ => LoopStep::Handle,
        }
    }

    /// What the input loop does after an event was handled: it leaves where
    /// the handler asked for that, and goes on otherwise, also after a fault.
    pub fn on_handled(asked_to_stop: Option<bool>) -> (r: LoopStep)
        ensures
            r == if asked_to_stop == Some(true) {
                LoopStep::Stop
            } else {
                LoopStep::Continue
            },
    {
        match asked_to_stop {
            Some(true) => LoopStep::Stop,
            _ => LoopStep::Continue,
        }
    }
}

/// The ports of `ports` whose name holds `part`, in their order.
pub open spec fn with_name(ports: Seq<MidiPort<DeviceAddr>>, part: Seq<char>) -> Seq<
    MidiPort<DeviceAddr>,
>
    decreases ports.len(),
{
    if ports.len() == 0 {
        Seq::empty()
    } else if contains_text(ports.last().name@, part) {
        with_name(ports.drop_last(), part).push(ports.last())
    } else {
        with_name(ports.drop_last(), part)
    }
}

/// A filter by name lets the ports pass whose name holds its text.
pub proof fn lemma_passing_name(ports: Seq<MidiPort<DeviceAddr>>, filter: PortFilter<DeviceAddr>)
    requires
        filter is Name,
    ensures
        passing(ports, filter) == with_name(ports, filter->Name_0@),
    decreases ports.len(),
{
    if ports.len() > 0 {
        lemma_passing_name(ports.drop_last(), filter);
    }
}

/// The first of `ports`, if there is one.
pub open spec fn first_of(ports: Seq<MidiPort<DeviceAddr>>) -> Option<MidiPort<DeviceAddr>> {
    if ports.len() > 0 {
        Some(ports[0])
    } else {
        None
    }
}

/// The port on which the sequencer announces new ports: the first of `ports`
/// whose name holds `System:Announce`.
pub fn announce_port(ports: Vec<MidiPort<DeviceAddr>>) -> (r: Option<MidiPort<DeviceAddr>>)
    ensures
        r == first_of(with_name(ports@, announce_name())),
{
    let filter = PortFilter::Name(String::from_str("System:Announce"));
    proof {
        lemma_passing_name(ports@, filter);
    }
    let mut found = filter_ports(ports, &filter);
    if found.len() > 0 {
        Some(found.swap_remove(0))
    } else {
        None
    }
}

/// The address that an event of the announce port makes known: that of a
/// port that has started.
pub fn announced(kind: SeqEventKind, addr: Option<DeviceAddr>) -> (r: Option<DeviceAddr>)
    ensures
        r == if kind == SeqEventKind::PortStart {
            addr
        } else {
            None
        },
{
    match kind {
        SeqEventKind::PortStart => addr,
        _ => None,
    }
}

/// The port that an event of the announce port makes known: for the start
/// of a port with the address `addr`, the first of `ports` with that
/// address.
pub fn started_port(
    kind: SeqEventKind,
    addr: Option<DeviceAddr>,
    ports: Vec<MidiPort<DeviceAddr>>,
) -> (r: Option<MidiPort<DeviceAddr>>)
    ensures
        r == if kind == SeqEventKind::PortStart && addr is Some {
            first_of(passing(ports@, PortFilter::Addr(addr.unwrap())))
        } else {
            None
        },
{
    match (kind, addr) {
        (SeqEventKind::PortStart, Some(a)) => {
            let filter = PortFilter::Addr(a);
            let mut found = filter_ports(ports, &filter);
            if found.len() > 0 {
                Some(found.swap_remove(0))
            } else {
                None
            }
        },
        _ => None,
    }
}

/// A message of a device, with the moment at which it came in.
#[derive(Debug, Clone)]
pub struct Message {
    pub bytes: Vec<u8>,
    pub timestamp: Option<Timestamp>,
}

/// Collects the bytes of sequencer events into messages. A system-exclusive
/// message may come in several events; it is handed on when its last byte
/// is there.
#[derive(Debug, Clone)]
pub struct InputPump {
    pub message: Vec<u8>,
    pub continue_sysex: bool,
}

/// Whether an event of kind `kind` is written as MIDI bytes by the decoder
/// of the sequencer.
pub open spec fn spec_needs_decode(kind: SeqEventKind) -> bool {
    match kind {
        SeqEventKind::PortSubscribed
        | SeqEventKind::PortUnsubscribed
        | SeqEventKind::Qframe
        | SeqEventKind::Tick
        | SeqEventKind::Clock
        | SeqEventKind::Sensing
        | SeqEventKind::Sysex => false,
        _ => true,
    }
}

/// Whether a buffer ends a system-exclusive message: its last byte is 0xF7.
pub open spec fn ends_sysex(message: Seq<u8>) -> bool {
    message.len() > 0 && message.last() == 0xF7
}

/// The moment of an event that came `time` after `start`; nothing where the
/// event bears no time or the moment cannot be written.
pub open spec fn stamp_ok(start: Timestamp, time: Option<Span>, at: Option<Timestamp>) -> bool {
    match time {
        Some(t) => if start.total() + t.total() < (u64::MAX + 1) * 1_000_000_000 {
            at matches Some(m) && m.wf() && m.total() == start.total() + t.total()
        } else {
            at is None
        },
        None => at is None,
    }
}

impl InputPump {
    /// A pump that has collected nothing.
    pub fn new() -> (r: Self)
        ensures
            r.message@ == Seq::<u8>::empty(),
            !r.continue_sysex,
    {
        InputPump { message: Vec::new(), continue_sysex: false }
    }

    /// Whether an event of kind `kind` is written as MIDI bytes by the
    /// decoder of the sequencer.
    pub fn needs_decode(kind: SeqEventKind) -> (r: bool)
        ensures
            r == spec_needs_decode(kind),
    {
        match kind {
            SeqEventKind::PortSubscribed
            | SeqEventKind::PortUnsubscribed
            | SeqEventKind::Qframe
            | SeqEventKind::Tick
            | SeqEventKind::Clock
            | SeqEventKind::Sensing
            | SeqEventKind::Sysex => false,
            _ => true,
        }
    }

    /// The buffer with which the handling of an event begins: what was
    /// collected, where a system-exclusive message is under way, else nothing.
    pub open spec fn carried(&self) -> Seq<u8> {
        if self.continue_sysex {
            self.message@
        } else {
            Seq::empty()
        }
    }

    /// The buffer after an event of kind `kind` with the bytes `data`: the
    /// payload of a system-exclusive event and the decoded bytes of an event
    /// that is decoded are added; other events add nothing.
    pub open spec fn collected(&self, kind: SeqEventKind, data: Option<Seq<u8>>) -> Seq<u8> {
        if (kind == SeqEventKind::Sysex || spec_needs_decode(kind)) && data is Some {
            self.carried() + data.unwrap()
        } else {
            self.carried()
        }
    }

    /// Whether a system-exclusive message is under way after an event of kind
    /// `kind` with the bytes `data`.
    pub open spec fn continues(&self, kind: SeqEventKind, data: Option<Seq<u8>>) -> bool {
        if kind == SeqEventKind::Sysex {
            !ends_sysex(self.collected(kind, data))
        } else {
            self.continue_sysex
        }
    }

    /// Takes in an event of kind `kind` that came `time` after `start`.
    /// `data` holds the payload of a system-exclusive event, or the bytes that
    /// the decoder of the sequencer has written for an event that is decoded,
    /// and nothing where it could not write them. Gives the message that is
    /// complete with this event, if one is: the collected bytes, unless they
    /// are none or a system-exclusive message is under way. An event that the
    /// decoder could not write is refused, and only what was collected for a
    /// message that is not under way is dropped.
    pub fn feed(
        &mut self,
        kind: SeqEventKind,
        data: Option<&[u8]>,
        time: Option<Span>,
        start: Timestamp,
    ) -> (r: Result<Option<Message>, AlsaError>)
        requires
            start.wf(),
            time matches Some(t) ==> t.wf(),
        ensures
            r is Err <==> (spec_needs_decode(kind) && data is None),
            r matches Err(e) ==> e is Decode && final(self).message@ == old(self).carried()
                && final(self).continue_sysex == old(self).continue_sysex,
            r is Ok ==> final(self).message@ == old(self).collected(kind, lifted(data))
                && final(self).continue_sysex == old(self).continues(kind, lifted(data)),
            r matches Ok(Some(m)) ==> m.bytes@ == final(self).message@ && stamp_ok(
                start,
                time,
                m.timestamp,
            ),
            r matches Ok(out) ==> (out is Some <==> (final(self).message@.len() > 0
                && !final(self).continue_sysex)),
    {
        if !self.continue_sysex {
            self.message.clear();
        }
        if kind == SeqEventKind::Sysex {
            match data {
                Some(bytes) => {
                    append(&mut self.message, bytes);
                },
                None => {},
            }
            let n = self.message.len();
            self.continue_sysex = !(n > 0 && self.message[n - 1] == 0xF7);
        } else if Self::needs_decode(kind) {
            match data {
                Some(bytes) => {
                    append(&mut self.message, bytes);
                },
                None => {
                    return Err(AlsaError::Decode);
                },
            }
        }
        if self.message.len() == 0 || self.continue_sysex {
            return Ok(None);
        }
        let timestamp = match time {
            Some(t) => start.checked_add(&t),
            None => None,
        };
        Ok(Some(Message { bytes: self.message.clone(), timestamp }))
    }
}

/// The bytes of an optional slice.
pub open spec fn lifted(data: Option<&[u8]>) -> Option<Seq<u8>> {
    match data {
        Some(bytes) => Some(bytes@),
        None => None,
    }
}

/// Appends `bytes` to `out`.
fn append(out: &mut Vec<u8>, bytes: &[u8])
    ensures
        final(out)@ == old(out)@ + bytes@,
{
    let mut i: usize = 0;
    while i < bytes.len()
        invariant
            i <= bytes.len(),
            out@ == old(out)@ + bytes@.subrange(0, i as int),
        decreases bytes.len() - i,
    {
        out.push(bytes[i]);
        i = i + 1;
    }
    assert(bytes@.subrange(0, i as int) == bytes@);
}

} // verus!
