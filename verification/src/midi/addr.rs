//! The address of a port: the number of its client and its own number.

use vstd::prelude::*;
use vstd::string::StringExecFns;
use crate::util::number::{
    parse_signed, push_decimal, signed_decimal, signed_of, to_chars, IntErrorKind,
};
use crate::util::text::{find_char, first_at};

verus! {

/// The address of a port, written `client:port`.
#[derive(Debug, Clone, Copy, PartialEq, Eq, Structural)]
pub struct DeviceAddr {
    pub client: i32,
    pub port: i32,
}

/// A number of an address: `v` where it fits in 32 bits.
pub open spec fn addr_part(v: int) -> Result<int, IntErrorKind> {
    if v > i32::MAX {
        Err(IntErrorKind::PosOverflow)
    } else if v < i32::MIN {
        Err(IntErrorKind::NegOverflow)
    } else {
        Ok(v)
    }
}

/// The number that the text `s` gives to an address.
pub open spec fn addr_number(s: Seq<char>) -> Result<int, IntErrorKind> {
    match signed_of(s) {
        Ok(v) => addr_part(v),
        Err(e) => Err(e),
    }
}

/// The address that `s` denotes: the number before its first colon and the
/// number after it. A text without a colon is refused as holding an invalid
/// digit; a part that is no 32-bit number gives its error, the client first.
pub open spec fn addr_of(s: Seq<char>) -> Result<(int, int), IntErrorKind> {
    let at = first_at(s, ':', 0);
    if at >= s.len() {
        Err(IntErrorKind::InvalidDigit)
    } else {
        match addr_number(s.subrange(0, at)) {
            Err(e) => Err(e),
            Ok(client) => match addr_number(s.subrange(at + 1, s.len() as int)) {
                Err(e) => Err(e),
                Ok(port) => Ok((client, port)),
            },
        }
    }
}

/// Reads `text[from..to]` as a number of an address.
fn parse_part(text: &Vec<char>, from: usize, to: usize) -> (r: Result<i32, IntErrorKind>)
    requires
        from <= to <= text.len(),
    ensures
        match r {
            Ok(v) => addr_number(text@.subrange(from as int, to as int)) == Ok::<int, IntErrorKind>(
                v as int,
            ),
            Err(e) => addr_number(text@.subrange(from as int, to as int)) == Err::<
                int,
                IntErrorKind,
            >(e),
        },
{
    match parse_signed(text, from, to) {
        Ok(v) => {
            if v > i32::MAX as i64 {
                Err(IntErrorKind::PosOverflow)
            } else if v < i32::MIN as i64 {
                Err(IntErrorKind::NegOverflow)
            } else {
                Ok(v as i32)
            }
        },
        Err(e) => Err(e),
    }
}

impl DeviceAddr {
    /// Reads an address written `client:port`.
    pub fn parse(s: &str) -> (r: Result<DeviceAddr, IntErrorKind>)
        ensures
            match r {
                Ok(a) => addr_of(s@) == Ok::<(int, int), IntErrorKind>(
                    (a.client as int, a.port as int),
                ),
                Err(e) => addr_of(s@) == Err::<(int, int), IntErrorKind>(e),
            },
    {
        let text = to_chars(s);
        let n = text.len();
        let at = find_char(&text, ':', 0, n);
        assert(text@.subrange(0, n as int) == text@);
        if at >= n {
            return Err(IntErrorKind::InvalidDigit);
        }
        let client = match parse_part(&text, 0, at) {
            Ok(v) => v,
            Err(e) => {
                return Err(e);
            },
        };
        let port = match parse_part(&text, at + 1, n) {
            Ok(v) => v,
            Err(e) => {
                return Err(e);
            },
        };
        Ok(DeviceAddr { client, port })
    }

    /// The address as it is written: `client:port`.
    pub open spec fn spec_text(&self) -> Seq<char> {
        signed_decimal(self.client as int) + seq![':'] + signed_decimal(self.port as int)
    }

    /// The address as it is written: `client:port`.
    pub fn to_text(&self) -> (s: String)
        ensures
            s@ == self.spec_text(),
    {
        let mut s = String::new();
        push_signed(&mut s, self.client);
        proof {
            reveal_strlit(":");
        }
        s.append(":");
        push_signed(&mut s, self.port);
        s
    }
}

/// Appends the decimal text of `v` to `out`.
fn push_signed(out: &mut String, v: i32)
    ensures
        final(out)@ == old(out)@ + signed_decimal(v as int),
{
    if v < 0 {
        proof {
            reveal_strlit("-");
        }
        out.append("-");
        push_decimal(out, (-(v as i64)) as u64);
    } else {
        push_decimal(out, v as u64);
    }
}

} // verus!
