//! Lengths of time as whole seconds and nanoseconds.

use vstd::prelude::*;

verus! {

pub const NANOS_PER_SEC: u32 = 1_000_000_000;

/// A length of time. A moment is given as the time since the Unix epoch.
#[derive(Debug, Clone, Copy, PartialEq, Eq, Structural)]
pub struct Span {
    pub secs: u64,
    pub nanos: u32,
}

/// A moment, as the time since the Unix epoch.
pub type Timestamp = Span;

impl Span {
    /// Whether the nanoseconds stay below one second.
    pub open spec fn wf(&self) -> bool {
        self.nanos < NANOS_PER_SEC
    }

    /// The length in nanoseconds.
    pub open spec fn total(&self) -> int {
        self.secs * 1_000_000_000 + self.nanos
    }

    /// The length of `secs` seconds and `nanos` nanoseconds, whole seconds
    /// among the nanoseconds carried over; nothing where the seconds leave
    /// the 64 bits.
    pub fn new(secs: u64, nanos: u32) -> (r: Option<Span>)
        ensures
            match r {
                Some(s) => s.wf() && s.total() == secs * 1_000_000_000 + nanos,
                None => secs + nanos / NANOS_PER_SEC > u64::MAX,
            },
    {
        let carry: u64 = (nanos / NANOS_PER_SEC) as u64;
        if secs > u64::MAX - carry {
            None
        } else {
            Some(Span { secs: secs + carry, nanos: nanos % NANOS_PER_SEC })
        }
    }

    /// The empty length of time.
    pub fn zero() -> (r: Span)
        ensures
            r.wf(),
            r.total() == 0,
    {
        Span { secs: 0, nanos: 0 }
    }

    /// Whether `self` is shorter than `other`.
    pub fn shorter_than(&self, other: &Span) -> (r: bool)
        requires
            self.wf(),
            other.wf(),
        ensures
            r == (self.total() < other.total()),
    {
        self.secs < other.secs || (self.secs == other.secs && self.nanos < other.nanos)
    }

    /// The sum of both lengths; nothing where its seconds leave the 64 bits.
    pub fn checked_add(&self, other: &Span) -> (r: Option<Span>)
        requires
            self.wf(),
            other.wf(),
        ensures
            match r {
                Some(s) => s.wf() && s.total() == self.total() + other.total(),
                None => self.total() + other.total() >= (u64::MAX + 1) * 1_000_000_000,
            },
    {
        let nanos: u32 = self.nanos + other.nanos;
        let carry: u64 = if nanos >= NANOS_PER_SEC {
            1
        } else {
            0
        };
        let rest: u32 = if nanos >= NANOS_PER_SEC {
            nanos - NANOS_PER_SEC
        } else {
            nanos
        };
        if self.secs > u64::MAX - other.secs {
            return None;
        }
        let secs: u64 = self.secs + other.secs;
        if secs > u64::MAX - carry {
            return None;
        }
        Some(Span { secs: secs + carry, nanos: rest })
    }

    /// What `self` is longer than `other`; nothing where it is not longer.
    pub fn checked_sub(&self, other: &Span) -> (r: Option<Span>)
        requires
            self.wf(),
            other.wf(),
        ensures
            match r {
                Some(s) => s.wf() && s.total() == self.total() - other.total(),
                None => self.total() < other.total(),
            },
    {
        if self.shorter_than(other) {
            None
        } else if self.nanos >= other.nanos {
            Some(Span { secs: self.secs - other.secs, nanos: self.nanos - other.nanos })
        } else {
            Some(
                Span {
                    secs: self.secs - other.secs - 1,
                    nanos: self.nanos + NANOS_PER_SEC - other.nanos,
                },
            )
        }
    }
}

} // verus!
