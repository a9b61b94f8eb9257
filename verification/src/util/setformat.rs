//! Writing a set of integers as a literal, and reading the literal back.

use vstd::prelude::*;
use vstd::string::StringExecFns;
use crate::util::number::{
    decimal, digit_char, digit_value, is_digit, lemma_scan_bound, push_decimal, scan_from,
    unsigned_of, IntErrorKind,
};
use crate::util::range::range_split;
use crate::util::smartset::{
    int_set_from, int_set_of, item_set_of, lemma_members_below, members, span_set, SmartSet,
};
use crate::util::text::{first_at, lemma_first_at, lemma_first_at_part};

verus! {

/// The literal of the numbers `v`: their decimal texts with a comma between
/// each two.
pub open spec fn literal_of(v: Seq<u16>) -> Seq<char>
    decreases v.len(),
{
    if v.len() == 0 {
        Seq::empty()
    } else if v.len() == 1 {
        decimal(v[0] as nat)
    } else {
        decimal(v[0] as nat) + seq![','] + literal_of(v.drop_first())
    }
}

/// What is left to write of the literal of `v` when its first `i` numbers
/// are written.
pub open spec fn literal_rest(v: Seq<u16>, i: int) -> Seq<char> {
    if i >= v.len() {
        Seq::empty()
    } else if i == 0 {
        literal_of(v)
    } else {
        seq![','] + literal_of(v.skip(i))
    }
}

impl SmartSet {
    /// The set as a literal: its members in ascending order, as decimal
    /// numbers with a comma between each two.
    #[verifier::rlimit(50)]
    pub fn to_literal(&self) -> (s: String)
        ensures
            s@ == literal_of(members(self@)),
    {
        let v = self.to_vec();
        let mut s = String::new();
        let mut i: usize = 0;
        while i < v.len()
            invariant
                i <= v.len(),
                literal_of(v@) == s@ + literal_rest(v@, i as int),
            decreases v.len() - i,
        {
            proof {
                let here = v@.skip(i as int);
                assert(here[0] == v@[i as int]);
                assert(here.drop_first() == v@.skip(i + 1));
                reveal_strlit(",");
                if i == 0 {
                    assert(here == v@);
                }
            }
            if i > 0 {
                s.append(",");
            }
            push_decimal(&mut s, v[i] as u64);
            proof {
                let head = decimal(v@[i as int] as nat);
                if i + 1 < v.len() {
                    assert(literal_of(v@.skip(i as int)) == head + seq![','] + literal_of(
                        v@.skip(i + 1),
                    ));
                    assert(literal_rest(v@, i + 1) == seq![','] + literal_of(v@.skip(i + 1)));
                } else {
                    assert(v@.skip(i as int).len() == 1);
                    assert(literal_of(v@.skip(i as int)) == head);
                    assert(literal_rest(v@, i + 1) == Seq::<char>::empty());
                }
                assert(literal_of(v@) == s@ + literal_rest(v@, i + 1));
            }
            i = i + 1;
        }
        assert(s@ + Seq::<char>::empty() == s@);
        s
    }
}

/// The decimal text of a number is not empty and holds digits only.
proof fn lemma_decimal_digits(n: nat)
    ensures
        decimal(n).len() >= 1,
        forall|i: int| 0 <= i < decimal(n).len() ==> is_digit(#[trigger] decimal(n)[i]),
    decreases n,
{
    if n >= 10 {
        lemma_decimal_digits(n / 10);
    }
}

/// Reading one more character after a text: the value read so far times ten
/// plus the digit, where that is a digit and the value stays at or below
/// `max`.
proof fn lemma_scan_push(a: Seq<char>, c: char, i: int, acc: int, max: int)
    requires
        0 <= i <= a.len(),
    ensures
        scan_from(a.push(c), i, acc, max) == match scan_from(a, i, acc, max) {
            Ok(v) => if !is_digit(c) {
                Err(IntErrorKind::InvalidDigit)
            } else if v * 10 + digit_value(c) > max {
                Err(IntErrorKind::PosOverflow)
            } else {
                Ok(v * 10 + digit_value(c))
            },
            Err(e) => Err(e),
        },
    decreases a.len() - i,
{
    let b = a.push(c);
    if i < a.len() {
        assert(b[i] == a[i]);
        if is_digit(a[i]) && acc * 10 + digit_value(a[i]) <= max {
            lemma_scan_push(a, c, i + 1, acc * 10 + digit_value(a[i]), max);
        }
    } else {
        assert(b[i] == c);
        reveal_with_fuel(scan_from, 2);
    }
}

/// Reading the decimal text of a number gives the number.
pub proof fn lemma_scan_decimal(n: nat, max: int)
    requires
        n <= max,
    ensures
        scan_from(decimal(n), 0, 0, max) == Ok::<int, IntErrorKind>(n as int),
    decreases n,
{
    if n < 10 {
        let empty = Seq::<char>::empty();
        assert(decimal(n) == empty.push(digit_char(n as int)));
        lemma_scan_push(empty, digit_char(n as int), 0, 0, max);
    } else {
        lemma_scan_decimal(n / 10, max);
        lemma_scan_push(decimal(n / 10), digit_char((n % 10) as int), 0, 0, max);
    }
}

/// Where `c` does not stand in `s` at or after `from`, `first_at` gives the
/// length of `s`.
proof fn lemma_first_at_absent(s: Seq<char>, c: char, from: int)
    requires
        0 <= from <= s.len(),
        forall|j: int| from <= j < s.len() ==> s[j] != c,
    ensures
        first_at(s, c, from) == s.len(),
{
    lemma_first_at(s, c, from);
}

/// Where `c` stands at `at` and not between `from` and `at`, `first_at`
/// gives `at`.
proof fn lemma_first_at_found(s: Seq<char>, c: char, from: int, at: int)
    requires
        0 <= from <= at < s.len(),
        s[at] == c,
        forall|j: int| from <= j < at ==> s[j] != c,
    ensures
        first_at(s, c, from) == at,
{
    lemma_first_at(s, c, from);
}

/// The decimal text of a number at most `max` is an item for that number
/// alone.
proof fn lemma_item_decimal(n: nat, max: int)
    requires
        n <= max,
        n <= u16::MAX,
    ensures
        item_set_of(decimal(n), max) == Ok::<Set<u16>, IntErrorKind>(span_set(n as int, n as int)),
{
    let s = decimal(n);
    lemma_decimal_digits(n);
    lemma_first_at_absent(s, ':', 0);
    lemma_first_at_absent(s, '-', 0);
    assert(range_split(s) == s.len());
    lemma_scan_decimal(n, max);
    assert(is_digit(s[0]));
    assert(unsigned_of(s, max) == Ok::<int, IntErrorKind>(n as int));
}

/// Reading the items of a text from `from` on is reading the items of its
/// part after `k`, for every `k` up to `from`.
proof fn lemma_int_set_shift(s: Seq<char>, k: int, from: int, max: int)
    requires
        0 <= k <= from <= s.len(),
    ensures
        int_set_from(s, from, max) == int_set_from(s.subrange(k, s.len() as int), from - k, max),
    decreases s.len() - from,
{
    let t = s.subrange(k, s.len() as int);
    let end = first_at(s, ',', from);
    lemma_first_at(s, ',', from);
    lemma_first_at_part(s, ',', k, s.len() as int, from);
    assert(first_at(t, ',', from - k) == end - k);
    assert(s.subrange(from, end) == t.subrange(from - k, end - k));
    if end + 1 <= s.len() {
        lemma_int_set_shift(s, k, end + 1, max);
    }
}

/// The numbers that stand in `v`.
pub open spec fn numbers_of(v: Seq<u16>) -> Set<u16> {
    Set::new(|x: u16| v.contains(x))
}

/// Reading the literal of some numbers, none above `max`, gives the set of
/// those numbers.
#[verifier::rlimit(50)]
pub proof fn lemma_parse_literal(v: Seq<u16>, max: int)
    requires
        forall|i: int| 0 <= i < v.len() ==> v[i] <= max,
    ensures
        int_set_of(literal_of(v), max) == Ok::<Set<u16>, IntErrorKind>(numbers_of(v)),
    decreases v.len(),
{
    let text = literal_of(v);
    if v.len() == 0 {
        assert(first_at(text, ',', 0) == 0);
        assert(text.subrange(0, 0).len() == 0);
        assert(int_set_from(text, 1, max) == Ok::<Set<u16>, IntErrorKind>(Set::empty()));
        assert(Set::<u16>::empty().union(Set::empty()) == numbers_of(v));
    } else {
        let head = decimal(v[0] as nat);
        lemma_decimal_digits(v[0] as nat);
        lemma_item_decimal(v[0] as nat, max);
        if v.len() == 1 {
            lemma_first_at_absent(text, ',', 0);
            assert(text.subrange(0, text.len() as int) == text);
            assert(int_set_from(text, text.len() as int + 1, max) == Ok::<Set<u16>, IntErrorKind>(
                Set::empty(),
            ));
            assert(span_set(v[0] as int, v[0] as int).union(Set::empty()) == numbers_of(v)) by {
                assert forall|x: u16| #[trigger]
                    numbers_of(v).contains(x) == span_set(v[0] as int, v[0] as int).contains(x) by {
                    if v.contains(x) {
                        let i = choose|i: int| 0 <= i < v.len() && v[i] == x;
                    }
                    if x == v[0] {
                        assert(v[0] == x);
                    }
                }
            }
        } else {
            let rest = v.drop_first();
            let at = head.len() as int;
            assert(text == head + seq![','] + literal_of(rest));
            assert(text[at] == ',');
            assert forall|j: int| 0 <= j < at implies text[j] != ',' by {
                assert(text[j] == head[j]);
                assert(is_digit(head[j]));
            }
            lemma_first_at_found(text, ',', 0, at);
            assert(text.subrange(0, at) == head);
            assert(text.subrange(at + 1, text.len() as int) == literal_of(rest));
            lemma_int_set_shift(text, at + 1, at + 1, max);
            assert forall|i: int| 0 <= i < rest.len() implies rest[i] <= max by {
                assert(rest[i] == v[i + 1]);
            }
            lemma_parse_literal(rest, max);
            assert(span_set(v[0] as int, v[0] as int).union(numbers_of(rest)) == numbers_of(v)) by {
                assert forall|x: u16| #[trigger]
                    numbers_of(v).contains(x) == (span_set(v[0] as int, v[0] as int).contains(x)
                        || numbers_of(rest).contains(x)) by {
                    if v.contains(x) {
                        let i = choose|i: int| 0 <= i < v.len() && v[i] == x;
                        if i > 0 {
                            assert(rest[i - 1] == x);
                        }
                    }
                    if rest.contains(x) {
                        let i = choose|i: int| 0 <= i < rest.len() && rest[i] == x;
                        assert(v[i + 1] == x);
                    }
                    if x == v[0] {
                        assert(v[0] == x);
                    }
                }
            }
        }
    }
}

/// Reading the literal of a set gives the set: for every set whose members
/// are at most `max`.
pub proof fn lemma_parse_format(set: Set<u16>, max: int)
    requires
        forall|x: u16| set.contains(x) ==> x <= max,
    ensures
        int_set_of(literal_of(members(set)), max) == Ok::<Set<u16>, IntErrorKind>(set),
{
    let v = members(set);
    lemma_members_below(set, 65536);
    lemma_parse_literal(v, max);
    assert(numbers_of(v) == set) by {
        assert forall|x: u16| #[trigger] numbers_of(v).contains(x) == set.contains(x) by {
            if v.contains(x) {
                let i = choose|i: int| 0 <= i < v.len() && v[i] == x;
            }
        }
    }
}

/// The numbers of an item are at most `max`.
proof fn lemma_item_bounded(item: Seq<char>, max: int)
    requires
        0 <= max,
    ensures
        item_set_of(item, max) matches Ok(set) ==> forall|x: u16| set.contains(x) ==> x <= max,
{
    let at = range_split(item);
    if at < item.len() {
        lemma_unsigned_bounded(item.subrange(0, at), max);
        lemma_unsigned_bounded(item.subrange(at + 1, item.len() as int), max);
    } else {
        lemma_unsigned_bounded(item, max);
    }
}

/// A number that is read as at most `max` lies between 0 and `max`.
proof fn lemma_unsigned_bounded(s: Seq<char>, max: int)
    requires
        0 <= max,
    ensures
        unsigned_of(s, max) matches Ok(v) ==> 0 <= v <= max,
{
    lemma_scan_bound(s, 0, 0, max);
    lemma_scan_bound(s, 1, 0, max);
}

/// The numbers of a set literal are at most `max`.
pub proof fn lemma_parsed_bounded(s: Seq<char>, from: int, max: int)
    requires
        0 <= max,
    ensures
        int_set_from(s, from, max) matches Ok(set) ==> forall|x: u16| set.contains(x) ==> x <= max,
    decreases s.len() + 1 - from,
{
    if 0 <= from <= s.len() {
        let end = first_at(s, ',', from);
        lemma_first_at(s, ',', from);
        let item = s.subrange(from, end);
        if item.len() > 0 {
            lemma_item_bounded(item, max);
        }
        lemma_parsed_bounded(s, end + 1, max);
    }
}

/// Reading, writing and reading again gives what reading gave: for every
/// text that is read as a set, the literal of that set is read as the same
/// set.
pub proof fn lemma_parse_idempotent(s: Seq<char>, max: int)
    requires
        0 <= max,
        int_set_of(s, max) is Ok,
    ensures
        int_set_of(literal_of(members(int_set_of(s, max).unwrap())), max) == int_set_of(s, max),
{
    lemma_parsed_bounded(s, 0, max);
    lemma_parse_format(int_set_of(s, max).unwrap(), max);
}

} // verus!
