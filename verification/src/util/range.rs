//! A pair of bounds, and its literal form.

use vstd::prelude::*;
use crate::util::number::{parse_signed, signed_of, to_chars, IntErrorKind};
use crate::util::text::{find_char, first_at};

verus! {

/// A range given by its two ends, both included.
#[derive(Debug, Clone, Copy)]
pub struct Range<T: Copy> {
    pub start: T,
    pub end: T,
}

impl<T: Copy> Range<T> {
    pub fn new(start: T, end: T) -> (r: Self)
        ensures
            r.start == start,
            r.end == end,
    {
        Range { start, end }
    }

    pub fn start(&self) -> (v: T)
        ensures
            v == self.start,
    {
        self.start
    }

    pub fn end(&self) -> (v: T)
        ensures
            v == self.end,
    {
        self.end
    }
}

/// The position at which a range literal is split: that of its first `:`, or,
/// where it has none, that of its first `-`; the length where it has neither.
pub open spec fn range_split(s: Seq<char>) -> int {
    if first_at(s, ':', 0) < s.len() {
        first_at(s, ':', 0)
    } else {
        first_at(s, '-', 0)
    }
}

/// The two ends that a range literal denotes: `lo:hi` or `lo-hi`, or a single
/// number for both ends. An end that is no number gives its error, the lower
/// end first.
pub open spec fn range_of(s: Seq<char>) -> Result<(int, int), IntErrorKind> {
    let at = range_split(s);
    if at < s.len() {
        match signed_of(s.subrange(0, at)) {
            Err(e) => Err(e),
            Ok(lo) => match signed_of(s.subrange(at + 1, s.len() as int)) {
                Err(e) => Err(e),
                Ok(hi) => Ok((lo, hi)),
            },
        }
    } else {
        match signed_of(s) {
            Err(e) => Err(e),
            Ok(n) => Ok((n, n)),
        }
    }
}

/// Reads a range literal.
pub fn parse_range(s: &str) -> (r: Result<Range<i64>, IntErrorKind>)
    ensures
        match r {
            Ok(v) => range_of(s@) == Ok::<(int, int), IntErrorKind>((v.start as int, v.end as int)),
            Err(e) => range_of(s@) == Err::<(int, int), IntErrorKind>(e),
        },
{
    let text = to_chars(s);
    let n = text.len();
    let mut at = find_char(&text, ':', 0, n);
    if at == n {
        at = find_char(&text, '-', 0, n);
    }
    assert(text@.subrange(0, n as int) == text@);
    if at < n {
        let lo = match parse_signed(&text, 0, at) {
            Ok(v) => v,
            Err(e) => {
                return Err(e);
            },
        };
        let hi = match parse_signed(&text, at + 1, n) {
            Ok(v) => v,
            Err(e) => {
                return Err(e);
            },
        };
        Ok(Range::new(lo, hi))
    } else {
        match parse_signed(&text, 0, n) {
            Ok(v) => Ok(Range::new(v, v)),
            Err(e) => Err(e),
        }
    }
}

} // verus!
