//! Decimal text of integers: writing it and reading it back.

use vstd::prelude::*;
use vstd::string::StringExecFns;
use vstd::string::StrSliceExecFns;

verus! {

/// Why a piece of text is not an integer of the wanted type.
#[derive(Debug, Clone, Copy, PartialEq, Eq, Structural)]
pub enum IntErrorKind {
    /// The text is empty.
    Empty,
    /// The text holds something that is not a decimal digit, or only a sign.
    InvalidDigit,
    /// The number is above the largest value of the type.
    PosOverflow,
    /// The number is below the smallest value of the type.
    NegOverflow,
}

/// The character of the decimal digit `d`.
pub open spec fn digit_char(d: int) -> char {
    if d == 0 {
        '0'
    } else if d == 1 {
        '1'
    } else if d == 2 {
        '2'
    } else if d == 3 {
        '3'
    } else if d == 4 {
        '4'
    } else if d == 5 {
        '5'
    } else if d == 6 {
        '6'
    } else if d == 7 {
        '7'
    } else if d == 8 {
        '8'
    } else {
        '9'
    }
}

/// The value of a decimal digit character, or -1 for any other character.
pub open spec fn digit_value(c: char) -> int {
    if c == '0' {
        0
    } else if c == '1' {
        1
    } else if c == '2' {
        2
    } else if c == '3' {
        3
    } else if c == '4' {
        4
    } else if c == '5' {
        5
    } else if c == '6' {
        6
    } else if c == '7' {
        7
    } else if c == '8' {
        8
    } else if c == '9' {
        9
    } else {
        -1
    }
}

pub open spec fn is_digit(c: char) -> bool {
    digit_value(c) >= 0
}

/// The decimal digits of `n`, most significant first, without leading zeros.
pub open spec fn decimal(n: nat) -> Seq<char>
    decreases n,
{
    if n < 10 {
        seq![digit_char(n as int)]
    } else {
        decimal(n / 10).push(digit_char((n % 10) as int))
    }
}

/// The decimal text of an integer: a minus sign for a negative one, then its digits.
pub open spec fn signed_decimal(i: int) -> Seq<char> {
    if i < 0 {
        seq!['-'] + decimal((-i) as nat)
    } else {
        decimal(i as nat)
    }
}

/// The characters of `s` as a vector.
pub fn to_chars(s: &str) -> (v: Vec<char>)
    ensures
        v@ == s@,
{
    let n = s.unicode_len();
    let mut v: Vec<char> = Vec::new();
    let mut i: usize = 0;
    while i < n
        invariant
            n == s@.len(),
            i <= n,
            v@ == s@.subrange(0, i as int),
        decreases n - i,
    {
        v.push(s.get_char(i));
        i = i + 1;
    }
    v
}

/// The text of one decimal digit.
pub fn digit_str(d: u8) -> (r: &'static str)
    requires
        d < 10,
    ensures
        r@ == seq![digit_char(d as int)],
{
    proof {
        reveal_strlit("0");
        reveal_strlit("1");
        reveal_strlit("2");
        reveal_strlit("3");
        reveal_strlit("4");
        reveal_strlit("5");
        reveal_strlit("6");
        reveal_strlit("7");
        reveal_strlit("8");
        reveal_strlit("9");
    }
    if d == 0 {
        "0"
    } else if d == 1 {
        "1"
    } else if d == 2 {
        "2"
    } else if d == 3 {
        "3"
    } else if d == 4 {
        "4"
    } else if d == 5 {
        "5"
    } else if d == 6 {
        "6"
    } else if d == 7 {
        "7"
    } else if d == 8 {
        "8"
    } else {
        "9"
    }
}

/// Appends the decimal digits of `n` to `out`.
pub fn push_decimal(out: &mut String, n: u64)
    ensures
        final(out)@ == old(out)@ + decimal(n as nat),
    decreases n,
{
    if n >= 10 {
        push_decimal(out, n / 10);
    }
    out.append(digit_str((n % 10) as u8));
}

/// The decimal text of `n`.
pub fn decimal_string(n: u64) -> (s: String)
    ensures
        s@ == decimal(n as nat),
{
    let mut s = String::new();
    push_decimal(&mut s, n);
    s
}

/// The decimal text of `i`, with a minus sign where it is negative.
pub fn signed_decimal_string(i: i64) -> (s: String)
    ensures
        s@ == signed_decimal(i as int),
{
    let mut s = String::new();
    if i < 0 {
        proof {
            reveal_strlit("-");
        }
        s.append("-");
        let magnitude: u64 = if i == i64::MIN {
            0x8000_0000_0000_0000u64
        } else {
            (-i) as u64
        };
        push_decimal(&mut s, magnitude);
    } else {
        push_decimal(&mut s, i as u64);
    }
    s
}

/// Reads the digits of `s` from position `i` on, left to right, starting from
/// the value `acc`: the first character that is no digit gives `InvalidDigit`,
/// the first digit that takes the value above `max` gives `PosOverflow`.
pub open spec fn scan_from(s: Seq<char>, i: int, acc: int, max: int) -> Result<int, IntErrorKind>
    decreases s.len() - i,
{
    if i < 0 || i >= s.len() {
        Ok(acc)
    } else if !is_digit(s[i]) {
        Err(IntErrorKind::InvalidDigit)
    } else if acc * 10 + digit_value(s[i]) > max {
        Err(IntErrorKind::PosOverflow)
    } else {
        scan_from(s, i + 1, acc * 10 + digit_value(s[i]), max)
    }
}

/// The number that `s` denotes as an unsigned decimal of at most `max`: an
/// optional plus sign, then digits only.
pub open spec fn unsigned_of(s: Seq<char>, max: int) -> Result<int, IntErrorKind> {
    if s.len() == 0 {
        Err(IntErrorKind::Empty)
    } else if s.len() == 1 && (s[0] == '+' || s[0] == '-') {
        Err(IntErrorKind::InvalidDigit)
    } else if s[0] == '+' {
        scan_from(s, 1, 0, max)
    } else {
        scan_from(s, 0, 0, max)
    }
}

/// The number that `s` denotes as a signed 64-bit decimal: an optional sign,
/// then digits only.
pub open spec fn signed_of(s: Seq<char>) -> Result<int, IntErrorKind> {
    if s.len() == 0 {
        Err(IntErrorKind::Empty)
    } else if s.len() == 1 && (s[0] == '+' || s[0] == '-') {
        Err(IntErrorKind::InvalidDigit)
    } else if s[0] == '-' {
        match scan_from(s, 1, 0, 0x8000_0000_0000_0000) {
            Ok(m) => Ok(-m),
            Err(IntErrorKind::PosOverflow) => Err(IntErrorKind::NegOverflow),
            Err(e) => Err(e),
        }
    } else if s[0] == '+' {
        scan_from(s, 1, 0, 0x7fff_ffff_ffff_ffff)
    } else {
        scan_from(s, 0, 0, 0x7fff_ffff_ffff_ffff)
    }
}

/// The value of a decimal digit character, if it is one.
pub fn digit_of(c: char) -> (d: Option<u8>)
    ensures
        match d {
            Some(v) => is_digit(c) && v as int == digit_value(c),
            None => !is_digit(c),
        },
{
    if c == '0' {
        Some(0)
    } else if c == '1' {
        Some(1)
    } else if c == '2' {
        Some(2)
    } else if c == '3' {
        Some(3)
    } else if c == '4' {
        Some(4)
    } else if c == '5' {
        Some(5)
    } else if c == '6' {
        Some(6)
    } else if c == '7' {
        Some(7)
    } else if c == '8' {
        Some(8)
    } else if c == '9' {
        Some(9)
    } else {
        None
    }
}

/// Reads the characters `text[from..to]` as digits, as `scan_from` does.
fn scan_digits(text: &Vec<char>, from: usize, to: usize, max: u64) -> (r: Result<u64, IntErrorKind>)
    requires
        from <= to <= text.len(),
    ensures
        match r {
            Ok(v) => scan_from(text@.subrange(0, to as int), from as int, 0, max as int) == Ok::<
                int,
                IntErrorKind,
            >(v as int),
            Err(e) => scan_from(text@.subrange(0, to as int), from as int, 0, max as int) == Err::<
                int,
                IntErrorKind,
            >(e),
        },
{
    let ghost s = text@.subrange(0, to as int);
    let mut acc: u64 = 0;
    let mut i: usize = from;
    while i < to
        invariant
            from <= i <= to <= text.len(),
            s == text@.subrange(0, to as int),
            acc <= max,
            scan_from(s, from as int, 0, max as int) == scan_from(s, i as int, acc as int, max as int),
        decreases to - i,
    {
        let c = text[i];
        assert(s[i as int] == c);
        match digit_of(c) {
            None => {
                return Err(IntErrorKind::InvalidDigit);
            },
            Some(d) => {
                let next: u128 = acc as u128 * 10 + d as u128;
                if next > max as u128 {
                    return Err(IntErrorKind::PosOverflow);
                }
                acc = next as u64;
            },
        }
        i = i + 1;
    }
    Ok(acc)
}

/// Reads `text[from..to]` as an unsigned decimal of at most `max`.
pub fn parse_unsigned(text: &Vec<char>, from: usize, to: usize, max: u64) -> (r: Result<
    u64,
    IntErrorKind,
>)
    requires
        from <= to <= text.len(),
    ensures
        match r {
            Ok(v) => unsigned_of(text@.subrange(from as int, to as int), max as int) == Ok::<
                int,
                IntErrorKind,
            >(v as int) && v <= max,
            Err(e) => unsigned_of(text@.subrange(from as int, to as int), max as int) == Err::<
                int,
                IntErrorKind,
            >(e),
        },
{
    let ghost s = text@.subrange(from as int, to as int);
    if from == to {
        return Err(IntErrorKind::Empty);
    }
    let first = text[from];
    assert(s[0] == first);
    if to - from == 1 && (first == '+' || first == '-') {
        return Err(IntErrorKind::InvalidDigit);
    }
    let start: usize = if first == '+' {
        from + 1
    } else {
        from
    };
    proof {
        lemma_scan_shift(text@.subrange(0, to as int), from as int, start as int, 0, max as int);
        assert(text@.subrange(0, to as int).subrange(from as int, to as int) == s);
    }
    let r = scan_digits(text, start, to, max);
    proof {
        lemma_scan_bound(s, start - from, 0, max as int);
    }
    r
}

/// Reads `text[from..to]` as a signed 64-bit decimal.
pub fn parse_signed(text: &Vec<char>, from: usize, to: usize) -> (r: Result<i64, IntErrorKind>)
    requires
        from <= to <= text.len(),
    ensures
        match r {
            Ok(v) => signed_of(text@.subrange(from as int, to as int)) == Ok::<int, IntErrorKind>(
                v as int,
            ),
            Err(e) => signed_of(text@.subrange(from as int, to as int)) == Err::<
                int,
                IntErrorKind,
            >(e),
        },
{
    let ghost s = text@.subrange(from as int, to as int);
    if from == to {
        return Err(IntErrorKind::Empty);
    }
    let first = text[from];
    assert(s[0] == first);
    if to - from == 1 && (first == '+' || first == '-') {
        return Err(IntErrorKind::InvalidDigit);
    }
    proof {
        assert(text@.subrange(0, to as int).subrange(from as int, to as int) == s);
    }
    if first == '-' {
        proof {
            lemma_scan_shift(
                text@.subrange(0, to as int),
                from as int,
                from + 1,
                0,
                0x8000_0000_0000_0000,
            );
            lemma_scan_bound(s, 1, 0, 0x8000_0000_0000_0000);
        }
        match scan_digits(text, from + 1, to, 0x8000_0000_0000_0000u64) {
            Ok(m) => {
                if m == 0x8000_0000_0000_0000u64 {
                    Ok(i64::MIN)
                } else {
                    Ok(-(m as i64))
                }
            },
            Err(IntErrorKind::PosOverflow) => Err(IntErrorKind::NegOverflow),
            Err(e) => Err(e),
        }
    } else {
        let start: usize = if first == '+' {
            from + 1
        } else {
            from
        };
        proof {
            lemma_scan_shift(
                text@.subrange(0, to as int),
                from as int,
                start as int,
                0,
                0x7fff_ffff_ffff_ffff,
            );
            lemma_scan_bound(s, start - from, 0, 0x7fff_ffff_ffff_ffff);
        }
        match scan_digits(text, start, to, 0x7fff_ffff_ffff_ffffu64) {
            Ok(m) => Ok(m as i64),
            Err(e) => Err(e),
        }
    }
}

/// Scanning a text from position `i` is scanning its part after `base` from `i - base`.
proof fn lemma_scan_shift(s: Seq<char>, base: int, i: int, acc: int, max: int)
    requires
        0 <= base <= i <= s.len(),
    ensures
        scan_from(s, i, acc, max) == scan_from(s.subrange(base, s.len() as int), i - base, acc, max),
    decreases s.len() - i,
{
    let t = s.subrange(base, s.len() as int);
    if i < s.len() {
        assert(t[i - base] == s[i]);
        if is_digit(s[i]) && acc * 10 + digit_value(s[i]) <= max {
            lemma_scan_shift(s, base, i + 1, acc * 10 + digit_value(s[i]), max);
        }
    }
}

/// A scan that starts at or below `max` and succeeds ends at or below `max`.
pub(crate) proof fn lemma_scan_bound(s: Seq<char>, i: int, acc: int, max: int)
    requires
        0 <= i,
        0 <= acc <= max,
    ensures
        scan_from(s, i, acc, max) matches Ok(v) ==> acc <= v <= max,
    decreases s.len() - i,
{
    if i < s.len() && is_digit(s[i]) && acc * 10 + digit_value(s[i]) <= max {
        lemma_scan_bound(s, i + 1, acc * 10 + digit_value(s[i]), max);
    }
}

} // verus!
