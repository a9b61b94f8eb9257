//! The event model: message classes, decoded events, their routing key and
//! the values that a command receives for an event.

use vstd::prelude::*;
use vstd::pervasive::unreached;
use vstd::slice::slice_to_vec;
use vstd::string::StringExecFns;
use crate::config::EventEnvMap;
use crate::util::number::{decimal, decimal_string, signed_decimal, signed_decimal_string};
use crate::util::remap::Remapper;
use crate::util::time::Timestamp;

verus! {

/// The class of a MIDI message, taken from the upper half of its status byte.
#[derive(Debug, Clone, Copy, PartialEq, Eq, Structural)]
pub enum EventType {
    Unknown,
    NoteOff,
    NoteOn,
    PolyphonicKeyPressure,
    Controller,
    ProgramChange,
    ChannelPressure,
    PitchBend,
    System,
}

impl EventType {
    /// The four-bit status code of the class; `Unknown` has code 0.
    pub open spec fn spec_code(self) -> u8 {
        match self {
            EventType::Unknown => 0,
            EventType::NoteOff => 8,
            EventType::NoteOn => 9,
            EventType::PolyphonicKeyPressure => 10,
            EventType::Controller => 11,
            EventType::ProgramChange => 12,
            EventType::ChannelPressure => 13,
            EventType::PitchBend => 14,
            EventType::System => 15,
        }
    }

    /// The class with the given status code; the codes outside 8 to 15 are `Unknown`.
    pub open spec fn spec_from_code(code: u8) -> EventType {
        if code == 8 {
            EventType::NoteOff
        } else if code == 9 {
            EventType::NoteOn
        } else if code == 10 {
            EventType::PolyphonicKeyPressure
        } else if code == 11 {
            EventType::Controller
        } else if code == 12 {
            EventType::ProgramChange
        } else if code == 13 {
            EventType::ChannelPressure
        } else if code == 14 {
            EventType::PitchBend
        } else if code == 15 {
            EventType::System
        } else {
            EventType::Unknown
        }
    }

    /// Whether messages of the class name a note, a controller or a program.
    pub open spec fn spec_has_id(&self) -> bool {
        match self {
            EventType::NoteOn
            | EventType::NoteOff
            | EventType::PolyphonicKeyPressure
            | EventType::Controller
            | EventType::ProgramChange => true,
            _ => false,
        }
    }

    /// Whether messages of the class belong to a channel.
    pub open spec fn spec_has_channel(&self) -> bool {
        match self {
            EventType::Unknown | EventType::System => false,
            _ => true,
        }
    }

    /// The smallest value of the class: 0 for every class.
    pub open spec fn spec_min_value(&self) -> i32 {
        0
    }

    /// The largest value of the class: 127, or 32767 for pitch bend; 0
    /// for the classes without a value.
    pub open spec fn spec_max_value(&self) -> i32 {
        match self {
            EventType::NoteOff
            | EventType::NoteOn
            | EventType::Controller
            | EventType::PolyphonicKeyPressure
            | EventType::ChannelPressure => 127,
            EventType::PitchBend => 32767,
            _ => 0,
        }
    }

    /// The number of bytes of a message of the class in the canonical
    /// layout; 0 for the classes that have none.
    pub open spec fn spec_message_len(&self) -> nat {
        match self {
            EventType::NoteOff
            | EventType::NoteOn
            | EventType::PolyphonicKeyPressure
            | EventType::Controller
            | EventType::PitchBend => 3,
            EventType::ProgramChange | EventType::ChannelPressure => 2,
            _ => 0,
        }
    }

    #[verifier::when_used_as_spec(spec_code)]
    pub fn code(self) -> (c: u8)
        ensures
            c == self.spec_code(),
    {
        match self {
            EventType::Unknown => 0,
            EventType::NoteOff => 8,
            EventType::NoteOn => 9,
            EventType::PolyphonicKeyPressure => 10,
            EventType::Controller => 11,
            EventType::ProgramChange => 12,
            EventType::ChannelPressure => 13,
            EventType::PitchBend => 14,
            EventType::System => 15,
        }
    }

    pub fn from_code(code: u8) -> (t: EventType)
        ensures
            t == EventType::spec_from_code(code),
    {
        match code {
            8 => EventType::NoteOff,
            9 => EventType::NoteOn,
            10 => EventType::PolyphonicKeyPressure,
            11 => EventType::Controller,
            12 => EventType::ProgramChange,
            13 => EventType::ChannelPressure,
            14 => EventType::PitchBend,
            15 => EventType::System,
            _ => EventType::Unknown,
        }
    }

    #[verifier::when_used_as_spec(spec_has_id)]
    pub fn has_id(&self) -> (r: bool)
        ensures
            r == self.spec_has_id(),
    {
        !matches!(
            self,
            EventType::Unknown | EventType::ChannelPressure | EventType::PitchBend | EventType::System
        )
    }

    #[verifier::when_used_as_spec(spec_has_channel)]
    pub fn has_channel(&self) -> (r: bool)
        ensures
            r == self.spec_has_channel(),
    {
        !matches!(self, EventType::Unknown | EventType::System)
    }

    #[verifier::when_used_as_spec(spec_min_value)]
    pub fn min_value(&self) -> (r: i32)
        ensures
            r == self.spec_min_value(),
    {
        0
    }

    #[verifier::when_used_as_spec(spec_max_value)]
    pub fn max_value(&self) -> (r: i32)
        ensures
            r == self.spec_max_value(),
    {
        match self {
            EventType::NoteOff | EventType::NoteOn | EventType::Controller => 127,
            EventType::PolyphonicKeyPressure | EventType::ChannelPressure => 127,
            EventType::PitchBend => 32767,
            _ => 0,
        }
    }

    /// The name of the class, as it is shown.
    pub fn name(&self) -> (r: &'static str)
        ensures
            r@ == match self {
                EventType::Unknown => "Unknown"@,
                EventType::NoteOff => "NoteOff"@,
                EventType::NoteOn => "NoteOn"@,
                EventType::PolyphonicKeyPressure => "PolyphonicKeyPressure"@,
                EventType::Controller => "Controller"@,
                EventType::ProgramChange => "ProgramChange"@,
                EventType::ChannelPressure => "ChannelPressure"@,
                EventType::PitchBend => "PitchBend"@,
                EventType::System => "System"@,
            },
    {
        match self {
            EventType::Unknown => "Unknown",
            EventType::NoteOff => "NoteOff",
            EventType::NoteOn => "NoteOn",
            EventType::PolyphonicKeyPressure => "PolyphonicKeyPressure",
            EventType::Controller => "Controller",
            EventType::ProgramChange => "ProgramChange",
            EventType::ChannelPressure => "ChannelPressure",
            EventType::PitchBend => "PitchBend",
            EventType::System => "System",
        }
    }
}

impl Default for EventType {
    fn default() -> (t: EventType)
        ensures
            t == EventType::Unknown,
    {
        EventType::Unknown
    }
}

impl From<u8> for EventType {
    /// The class with the status code `code`.
    fn from(code: u8) -> (t: EventType)
        ensures
            t == EventType::spec_from_code(code),
    {
        EventType::from_code(code)
    }
}

impl vstd::std_specs::convert::FromSpecImpl<u8> for EventType {
    open spec fn obeys_from_spec() -> bool {
        true
    }

    open spec fn from_spec(code: u8) -> EventType {
        EventType::spec_from_code(code)
    }
}

/// The routing key of a class, a channel and an id:
/// `(type << 16) | (channel << 8) | id`.
pub open spec fn spec_event_to_key(t: EventType, channel: u8, id: u8) -> u32 {
    (t.spec_code() * 65536 + channel * 256 + id) as u32
}

#[verifier::when_used_as_spec(spec_event_to_key)]
pub fn event_to_key(t: EventType, channel: u8, id: u8) -> (key: u32)
    ensures
        key == spec_event_to_key(t, channel, id),
        key == t.spec_code() * 65536 + channel * 256 + id,
{
    (t.code() as u32) * 256 * 256 + (channel as u32) * 256 + (id as u32)
}

/// Two triples with the same key are the same triple.
pub proof fn lemma_key_injective(t1: EventType, c1: u8, i1: u8, t2: EventType, c2: u8, i2: u8)
    requires
        spec_event_to_key(t1, c1, i1) == spec_event_to_key(t2, c2, i2),
    ensures
        t1 == t2,
        c1 == c2,
        i1 == i2,
{
}

/// The byte of `bytes` at position `i`, or 0 where the message is too short
/// to have one.
pub open spec fn byte_at(bytes: Seq<u8>, i: int) -> u8 {
    if 0 <= i < bytes.len() {
        bytes[i]
    } else {
        0
    }
}

/// The class of the message `bytes`: that of the upper half of its first
/// byte; `Unknown` for the empty message.
pub open spec fn decoded_type(bytes: Seq<u8>) -> EventType {
    if bytes.len() == 0 {
        EventType::Unknown
    } else {
        EventType::spec_from_code(bytes[0] / 16)
    }
}

/// The channel of the message `bytes`: the lower half of its first byte,
/// where its class has channels, else 0.
pub open spec fn decoded_channel(bytes: Seq<u8>) -> u8 {
    if decoded_type(bytes).spec_has_channel() {
        bytes[0] % 16
    } else {
        0
    }
}

/// The id of the message `bytes`: its second byte, where its class has ids,
/// else 0.
pub open spec fn decoded_id(bytes: Seq<u8>) -> u8 {
    if decoded_type(bytes).spec_has_id() {
        byte_at(bytes, 1)
    } else {
        0
    }
}

/// The value of the message `bytes`: its third byte for notes, key pressure
/// and controllers; its second byte for channel pressure; its third byte
/// times 256 plus its second for pitch bend; else 0.
pub open spec fn decoded_value(bytes: Seq<u8>) -> u16 {
    match decoded_type(bytes) {
        EventType::NoteOn
        | EventType::NoteOff
        | EventType::PolyphonicKeyPressure
        | EventType::Controller => byte_at(bytes, 2) as u16,
        EventType::ChannelPressure => byte_at(bytes, 1) as u16,
        EventType::PitchBend => (byte_at(bytes, 2) * 256 + byte_at(bytes, 1)) as u16,
        _ => 0,
    }
}

/// What an event holds: the view of `Event` and of `EventBuf`.
pub struct EventView {
    pub kind: EventType,
    pub channel: u8,
    pub id: u8,
    pub value: u16,
    pub raw: Seq<u8>,
    pub timestamp: Option<Timestamp>,
}

/// The event that the message `bytes` decodes to. A data byte that the
/// message is too short to hold is read as 0.
pub open spec fn decoded(bytes: Seq<u8>) -> EventView {
    EventView {
        kind: decoded_type(bytes),
        channel: decoded_channel(bytes),
        id: decoded_id(bytes),
        value: decoded_value(bytes),
        raw: bytes,
        timestamp: None,
    }
}

/// The event of no message: class `Unknown`, all values 0, no bytes, no
/// moment.
pub open spec fn no_message() -> EventView {
    EventView {
        kind: EventType::Unknown,
        channel: 0,
        id: 0,
        value: 0,
        raw: Seq::empty(),
        timestamp: None,
    }
}

/// The bytes of an event in the canonical layout: the status byte of class
/// and channel, then the data bytes of the class. The classes without such a
/// layout, `System` and `Unknown`, have their raw bytes.
pub open spec fn canonical_bytes(event: EventView) -> Seq<u8> {
    let status = (event.kind.spec_code() * 16 + event.channel % 16) as u8;
    let low = (event.value % 256) as u8;
    let high = (event.value / 256) as u8;
    match event.kind {
        EventType::NoteOn
        | EventType::NoteOff
        | EventType::PolyphonicKeyPressure
        | EventType::Controller => seq![status, event.id, low],
        EventType::ProgramChange => seq![status, event.id],
        EventType::ChannelPressure => seq![status, low],
        EventType::PitchBend => seq![status, low, high],
        _ => event.raw,
    }
}

/// A decoded message that borrows its bytes.
#[derive(Debug)]
pub struct Event<'a> {
    pub kind: EventType,
    pub channel: u8,
    pub id: u8,
    pub value: u16,
    pub raw: &'a [u8],
    pub timestamp: Option<Timestamp>,
}

/// A decoded message that owns its bytes.
#[derive(Debug, Clone)]
pub struct EventBuf {
    pub kind: EventType,
    pub channel: u8,
    pub id: u8,
    pub value: u16,
    pub raw: Vec<u8>,
    pub timestamp: Option<Timestamp>,
}

impl<'a> View for Event<'a> {
    type V = EventView;

    open spec fn view(&self) -> EventView {
        EventView {
            kind: self.kind,
            channel: self.channel,
            id: self.id,
            value: self.value,
            raw: self.raw@,
            timestamp: self.timestamp,
        }
    }
}

impl View for EventBuf {
    type V = EventView;

    open spec fn view(&self) -> EventView {
        EventView {
            kind: self.kind,
            channel: self.channel,
            id: self.id,
            value: self.value,
            raw: self.raw@,
            timestamp: self.timestamp,
        }
    }
}

/// A value that a command receives in its environment.
#[derive(Debug, Clone)]
pub enum EnvValue {
    /// The text of the value.
    Text(String),
    /// The value `value` taken through the remapper `remap`, to be
    /// written as a decimal fraction.
    Fraction { remap: Remapper, value: u16 },
    /// A moment, to be written in seconds since the Unix epoch; without a
    /// moment, the time at which the command is started.
    Seconds(Option<Timestamp>),
}

/// The values that a command receives for one event.
#[derive(Debug, Clone)]
pub struct EventEnv {
    pub channel: String,
    pub id: String,
    pub raw: String,
    pub rawvalue: String,
    pub timestamp: Option<Timestamp>,
    pub value: EnvValue,
}

/// The character of the hexadecimal digit `d`, in upper case.
pub open spec fn hex_char(d: int) -> char {
    if d == 0 {
        '0'
    } else if d == 1 {
        '1'
    } else if d == 2 {
        '2'
    } else if d == 3 {
        '3'
    } else if d == 4 {
        '4'
    } else if d == 5 {
        '5'
    } else if d == 6 {
        '6'
    } else if d == 7 {
        '7'
    } else if d == 8 {
        '8'
    } else if d == 9 {
        '9'
    } else if d == 10 {
        'A'
    } else if d == 11 {
        'B'
    } else if d == 12 {
        'C'
    } else if d == 13 {
        'D'
    } else if d == 14 {
        'E'
    } else {
        'F'
    }
}

/// The two hexadecimal digits of a byte.
pub open spec fn hex_pair(b: u8) -> Seq<char> {
    seq![hex_char(b as int / 16), hex_char(b as int % 16)]
}

/// The hexadecimal pairs of `bytes`, with `separator` between each two.
pub open spec fn hex_text(bytes: Seq<u8>, separator: Seq<char>) -> Seq<char>
    decreases bytes.len(),
{
    if bytes.len() == 0 {
        Seq::empty()
    } else if bytes.len() == 1 {
        hex_pair(bytes[0])
    } else {
        hex_text(bytes.drop_last(), separator) + separator + hex_pair(bytes.last())
    }
}

/// The text of one hexadecimal digit.
fn hex_str(d: u8) -> (r: &'static str)
    requires
        d < 16,
    ensures
        r@ == seq![hex_char(d as int)],
{
    proof {
        reveal_strlit("0");
        reveal_strlit("1");
        reveal_strlit("2");
        reveal_strlit("3");
        reveal_strlit("4");
        reveal_strlit("5");
        reveal_strlit("6");
        reveal_strlit("7");
        reveal_strlit("8");
        reveal_strlit("9");
        reveal_strlit("A");
        reveal_strlit("B");
        reveal_strlit("C");
        reveal_strlit("D");
        reveal_strlit("E");
        reveal_strlit("F");
    }
    if d == 0 {
        "0"
    } else if d == 1 {
        "1"
    } else if d == 2 {
        "2"
    } else if d == 3 {
        "3"
    } else if d == 4 {
        "4"
    } else if d == 5 {
        "5"
    } else if d == 6 {
        "6"
    } else if d == 7 {
        "7"
    } else if d == 8 {
        "8"
    } else if d == 9 {
        "9"
    } else if d == 10 {
        "A"
    } else if d == 11 {
        "B"
    } else if d == 12 {
        "C"
    } else if d == 13 {
        "D"
    } else if d == 14 {
        "E"
    } else {
        "F"
    }
}

/// Writes `bytes` as pairs of upper-case hexadecimal digits with `separator`
/// between each two pairs.
pub fn bytes_to_strhex(bytes: &[u8], separator: &str) -> (s: String)
    ensures
        s@ == hex_text(bytes@, separator@),
{
    let mut s = String::new();
    let mut i: usize = 0;
    while i < bytes.len()
        invariant
            i <= bytes.len(),
            s@ == hex_text(bytes@.subrange(0, i as int), separator@),
        decreases bytes.len() - i,
    {
        let b = bytes[i];
        let ghost before = bytes@.subrange(0, i as int);
        let ghost now = bytes@.subrange(0, i + 1);
        if i > 0 {
            s.append(separator);
        }
        s.append(hex_str(b / 16));
        s.append(hex_str(b % 16));
        proof {
            assert(now.drop_last() == before);
            assert(now.last() == b);
            assert(seq![hex_char(b as int / 16)] + seq![hex_char(b as int % 16)] == hex_pair(b));
            if i == 0 {
                assert(s@ == hex_pair(b));
            } else {
                assert(s@ == hex_text(before, separator@) + separator@ + hex_pair(b));
            }
        }
        i = i + 1;
    }
    assert(bytes@.subrange(0, i as int) == bytes@);
    s
}

impl EventBuf {
    /// The event, borrowing its bytes.
    pub fn as_event(&self) -> (e: Event<'_>)
        ensures
            e@ == self@,
    {
        Event {
            kind: self.kind,
            channel: self.channel,
            id: self.id,
            value: self.value,
            raw: self.raw.as_slice(),
            timestamp: self.timestamp,
        }
    }
}

/// What an optional reference points at.
pub open spec fn pointee<T>(r: Option<&T>) -> Option<T> {
    match r {
        Some(v) => Some(*v),
        None => None,
    }
}

/// The variable name for a value: the configured one, or else the default.
pub open spec fn env_key(custom: Option<String>, default: Seq<char>) -> Seq<char> {
    match custom {
        Some(name) => name@,
        None => default,
    }
}

/// The variable name for a value: the configured one, or else the default.
fn key_or(custom: &Option<String>, default: &str) -> (r: String)
    ensures
        r@ == env_key(*custom, default@),
{
    match custom {
        Some(name) => name.clone(),
        None => String::from_str(default),
    }
}

/// Whether `v` is what a rule with the remapper `remap` hands to its
/// commands for the value `value`: without a remapper the value itself;
/// with one, the remapped value, as a decimal fraction where `float`
/// holds, else as an integer, rounded toward zero and held inside the
/// 64-bit signed integers.
pub open spec fn env_value_ok(value: u16, remap: Option<Remapper>, float: bool, v: EnvValue) -> bool {
    match remap {
        Some(r) => if float {
            v == (EnvValue::Fraction { remap: r, value })
        } else {
            v matches EnvValue::Text(t) && t@ == signed_decimal(r.spec_remap_to(value as int))
        },
        None => v matches EnvValue::Text(t) && t@ == decimal(value as nat),
    }
}

impl<'a> Event<'a> {
    /// The event of no message: class `Unknown`, all values 0, no bytes.
    pub fn new() -> (e: Self)
        ensures
            e@ == no_message(),
    {
        let raw: &'static [u8] = &[];
        assert(raw@ =~= Seq::<u8>::empty());
        Event { kind: EventType::Unknown, channel: 0, id: 0, value: 0, raw, timestamp: None }
    }

    /// Decodes the message `bytes`. A data byte that the message is too
    /// short to hold is read as 0; the empty message gives the event of
    /// class `Unknown`.
    pub fn decode(bytes: &'a [u8]) -> (e: Self)
        ensures
            e@ == decoded(bytes@),
            e.raw == bytes,
            e.channel < 16,
    {
        if bytes.len() == 0 {
            return Event {
                kind: EventType::Unknown,
                channel: 0,
                id: 0,
                value: 0,
                raw: bytes,
                timestamp: None,
            };
        }
        let event_type = EventType::from_code(bytes[0] / 16);
        let channel: u8 = if event_type.has_channel() {
            bytes[0] % 16
        } else {
            0
        };
        let first: u8 = if bytes.len() > 1 {
            bytes[1]
        } else {
            0
        };
        let second: u8 = if bytes.len() > 2 {
            bytes[2]
        } else {
            0
        };
        let (id, value): (u8, u16) = match event_type {
            EventType::PitchBend => (0, (second as u16) * 256 + (first as u16)),
            EventType::Unknown => (0, 0),
            EventType::System => (0, 0),
            EventType::ChannelPressure => (0, first as u16),
            EventType::ProgramChange => (first, 0),
            EventType::NoteOn
            | EventType::NoteOff
            | EventType::PolyphonicKeyPressure
            | EventType::Controller => (first, second as u16),
        };
        Event { kind: event_type, channel, id, value, raw: bytes, timestamp: None }
    }

    /// The bytes of the event in the canonical layout.
    pub fn encode(&self) -> (bytes: Vec<u8>)
        ensures
            bytes@ == canonical_bytes(self@),
    {
        let status: u8 = self.kind.code() * 16 + self.channel % 16;
        let low: u8 = (self.value % 256) as u8;
        let high: u8 = (self.value / 256) as u8;
        let mut bytes: Vec<u8> = Vec::new();
        match self.kind {
            EventType::NoteOn
            | EventType::NoteOff
            | EventType::PolyphonicKeyPressure
            | EventType::Controller => {
                bytes.push(status);
                bytes.push(self.id);
                bytes.push(low);
            },
            EventType::ProgramChange => {
                bytes.push(status);
                bytes.push(self.id);
            },
            EventType::ChannelPressure => {
                bytes.push(status);
                bytes.push(low);
            },
            EventType::PitchBend => {
                bytes.push(status);
                bytes.push(low);
                bytes.push(high);
            },
            _ => {
                let mut i: usize = 0;
                while i < self.raw.len()
                    invariant
                        i <= self.raw.len(),
                        bytes@ == self.raw@.subrange(0, i as int),
                    decreases self.raw.len() - i,
                {
                    bytes.push(self.raw[i]);
                    i = i + 1;
                }
                assert(self.raw@.subrange(0, i as int) == self.raw@);
            },
        }
        bytes
    }

    /// The event with bytes of its own.
    pub fn into_buf(self) -> (b: EventBuf)
        ensures
            b@ == self@,
    {
        EventBuf {
            kind: self.kind,
            channel: self.channel,
            id: self.id,
            value: self.value,
            raw: slice_to_vec(self.raw),
            timestamp: self.timestamp,
        }
    }

    /// The routing key of the event.
    pub open spec fn spec_key(&self) -> u32 {
        spec_event_to_key(self.kind, self.channel, self.id)
    }

    #[verifier::when_used_as_spec(spec_key)]
    pub fn key(&self) -> (k: u32)
        ensures
            k == self.spec_key(),
    {
        event_to_key(self.kind, self.channel, self.id)
    }

    /// The values that a command receives for the event from a rule with the
    /// remapper `remap`: channel, id and value as decimal numbers, the bytes
    /// as hexadecimal pairs with a space between each two, the moment as the
    /// event has it, and the value as the rule hands it on.
    pub fn make_env(&self, remap: Option<&Remapper>, float: bool) -> (env: EventEnv)
        ensures
            env.channel@ == decimal(self.channel as nat),
            env.id@ == decimal(self.id as nat),
            env.rawvalue@ == decimal(self.value as nat),
            env.raw@ == hex_text(self.raw@, " "@),
            env.timestamp == self.timestamp,
            env_value_ok(self.value, pointee(remap), float, env.value),
    {
        let value = match remap {
            Some(r) => {
                if float {
                    EnvValue::Fraction { remap: *r, value: self.value }
                } else {
                    match r.remap_to(self.value as i32) {
                        Some(v) => EnvValue::Text(signed_decimal_string(v)),
                        None => unreached(),
                    }
                }
            },
            None => EnvValue::Text(decimal_string(self.value as u64)),
        };
        EventEnv {
            channel: decimal_string(self.channel as u64),
            id: decimal_string(self.id as u64),
            rawvalue: decimal_string(self.value as u64),
            raw: bytes_to_strhex(self.raw, " "),
            timestamp: self.timestamp,
            value,
        }
    }
}

/// Whether `pairs` are the variables that a command with the variable names
/// `m` receives for `event` from a rule with the remapper `remap`: channel,
/// id, raw, rawvalue, timestamp and value, in that order, each under its
/// configured or default name.
pub open spec fn env_pairs_ok(
    pairs: Seq<(String, EnvValue)>,
    event: EventView,
    remap: Option<Remapper>,
    float: bool,
    m: Option<EventEnvMap>,
) -> bool {
    &&& pairs.len() == 6
    &&& pairs[0].0@ == env_key(if m is Some { m.unwrap().channel } else { None }, "channel"@)
    &&& pairs[1].0@ == env_key(if m is Some { m.unwrap().id } else { None }, "id"@)
    &&& pairs[2].0@ == env_key(if m is Some { m.unwrap().raw } else { None }, "raw"@)
    &&& pairs[3].0@ == env_key(if m is Some { m.unwrap().rawvalue } else { None }, "rawvalue"@)
    &&& pairs[4].0@ == env_key(if m is Some { m.unwrap().timestamp } else { None }, "timestamp"@)
    &&& pairs[5].0@ == env_key(if m is Some { m.unwrap().value } else { None }, "value"@)
    &&& pairs[0].1 matches EnvValue::Text(t) && t@ == decimal(event.channel as nat)
    &&& pairs[1].1 matches EnvValue::Text(t) && t@ == decimal(event.id as nat)
    &&& pairs[2].1 matches EnvValue::Text(t) && t@ == hex_text(event.raw, " "@)
    &&& pairs[3].1 matches EnvValue::Text(t) && t@ == decimal(event.value as nat)
    &&& pairs[4].1 == EnvValue::Seconds(event.timestamp)
    &&& env_value_ok(event.value, remap, float, pairs[5].1)
}

impl<'a> Default for Event<'a> {
    /// The event of no message.
    fn default() -> (e: Event<'a>)
        ensures
            e@ == no_message(),
    {
        Event::new()
    }
}

impl Default for EventBuf {
    /// The event of no message.
    fn default() -> (e: EventBuf)
        ensures
            e@ == no_message(),
    {
        EventBuf {
            kind: EventType::Unknown,
            channel: 0,
            id: 0,
            value: 0,
            raw: Vec::new(),
            timestamp: None,
        }
    }
}

impl<'a> From<&'a [u8]> for Event<'a> {
    /// Decodes the message `bytes`, as `decode` does.
    fn from(bytes: &'a [u8]) -> (e: Event<'a>)
        ensures
            e@ == decoded(bytes@),
            e.raw == bytes,
    {
        Event::decode(bytes)
    }
}

impl<'a> vstd::std_specs::convert::FromSpecImpl<&'a [u8]> for Event<'a> {
    open spec fn obeys_from_spec() -> bool {
        true
    }

    open spec fn from_spec(bytes: &'a [u8]) -> Event<'a> {
        Event {
            kind: decoded_type(bytes@),
            channel: decoded_channel(bytes@),
            id: decoded_id(bytes@),
            value: decoded_value(bytes@),
            raw: bytes,
            timestamp: None,
        }
    }
}

impl EventEnv {
    /// The variables of the environment, in the order in which they are set:
    /// channel, id, raw, rawvalue, timestamp, value. Each stands under the
    /// name that `m` gives it, or under its default name. Where two values
    /// have one name, the later one is the one that the command sees.
    pub fn to_map(self, m: Option<&EventEnvMap>) -> (r: Vec<(String, EnvValue)>)
        ensures
            r@.len() == 6,
            r@[0].0@ == env_key(if m is Some { m.unwrap().channel } else { None }, "channel"@),
            r@[1].0@ == env_key(if m is Some { m.unwrap().id } else { None }, "id"@),
            r@[2].0@ == env_key(if m is Some { m.unwrap().raw } else { None }, "raw"@),
            r@[3].0@ == env_key(if m is Some { m.unwrap().rawvalue } else { None }, "rawvalue"@),
            r@[4].0@ == env_key(if m is Some { m.unwrap().timestamp } else { None }, "timestamp"@),
            r@[5].0@ == env_key(if m is Some { m.unwrap().value } else { None }, "value"@),
            r@[0].1 == EnvValue::Text(self.channel),
            r@[1].1 == EnvValue::Text(self.id),
            r@[2].1 == EnvValue::Text(self.raw),
            r@[3].1 == EnvValue::Text(self.rawvalue),
            r@[4].1 == EnvValue::Seconds(self.timestamp),
            r@[5].1 == self.value,
    {
        let none: Option<String> = None;
        let (channel, id, raw, rawvalue, timestamp, value) = match m {
            Some(v) => (
                key_or(&v.channel, "channel"),
                key_or(&v.id, "id"),
                key_or(&v.raw, "raw"),
                key_or(&v.rawvalue, "rawvalue"),
                key_or(&v.timestamp, "timestamp"),
                key_or(&v.value, "value"),
            ),
            None => (
                key_or(&none, "channel"),
                key_or(&none, "id"),
                key_or(&none, "raw"),
                key_or(&none, "rawvalue"),
                key_or(&none, "timestamp"),
                key_or(&none, "value"),
            ),
        };
        let mut r: Vec<(String, EnvValue)> = Vec::new();
        r.push((channel, EnvValue::Text(self.channel)));
        r.push((id, EnvValue::Text(self.id)));
        r.push((raw, EnvValue::Text(self.raw)));
        r.push((rawvalue, EnvValue::Text(self.rawvalue)));
        r.push((timestamp, EnvValue::Seconds(self.timestamp)));
        r.push((value, self.value));
        r
    }
}

/// Encoding a decoded message gives the message back: for every message of
/// a class other than `Unknown` and `System` that is as long as the canonical
/// layout of its class.
pub proof fn lemma_decode_encode(bytes: Seq<u8>)
    requires
        decoded(bytes).kind != EventType::Unknown,
        decoded(bytes).kind != EventType::System,
        bytes.len() == decoded(bytes).kind.spec_message_len(),
    ensures
        canonical_bytes(decoded(bytes)) == bytes,
{
    let t = decoded_type(bytes);
    let b0 = bytes[0];
    assert(t.spec_code() == b0 / 16);
    assert((t.spec_code() * 16 + (b0 % 16) % 16) as u8 == b0);
    assert(canonical_bytes(decoded(bytes)) =~= bytes);
}

} // verus!
