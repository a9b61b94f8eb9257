//! Sets of small integers, and their compact literal form.

use vstd::prelude::*;
use vstd::std_specs::btree::group_btree_axioms;
use vstd::laws_cmp::group_laws_cmp;
use std::collections::BTreeSet;
use crate::util::number::{parse_unsigned, to_chars, unsigned_of, IntErrorKind};
use crate::util::range::range_split;
use crate::util::text::{find_char, first_at, lemma_first_at};

verus! {

/// The integers from `lo` to `hi`, both included.
pub open spec fn span_set(lo: int, hi: int) -> Set<u16> {
    Set::new(|x: u16| lo <= x <= hi)
}

/// The set that one item of a set literal denotes: a single number, or the
/// numbers between the two ends of `lo:hi` or `lo-hi`, whichever end is the
/// larger. An end that is no number of at most `max` gives its error, the
/// first end first.
pub open spec fn item_set_of(item: Seq<char>, max: int) -> Result<Set<u16>, IntErrorKind> {
    let at = range_split(item);
    if at < item.len() {
        match unsigned_of(item.subrange(0, at), max) {
            Err(e) => Err(e),
            Ok(a) => match unsigned_of(item.subrange(at + 1, item.len() as int), max) {
                Err(e) => Err(e),
                Ok(b) => Ok(
                    if a <= b {
                        span_set(a, b)
                    } else {
                        span_set(b, a)
                    },
                ),
            },
        }
    } else {
        match unsigned_of(item, max) {
            Err(e) => Err(e),
            Ok(n) => Ok(span_set(n, n)),
        }
    }
}

/// The set that the items of `s` from position `from` on denote together. The
/// items are parted by commas; an empty item adds nothing; the first item
/// that is in error gives the error of the whole.
pub open spec fn int_set_from(s: Seq<char>, from: int, max: int) -> Result<Set<u16>, IntErrorKind>
    decreases s.len() + 1 - from,
    via int_set_from_ends
{
    if from < 0 || from > s.len() {
        Ok(Set::empty())
    } else {
        let end = first_at(s, ',', from);
        let item = s.subrange(from, end);
        let here = if item.len() == 0 {
            Ok(Set::empty())
        } else {
            item_set_of(item, max)
        };
        match here {
            Err(e) => Err(e),
            Ok(a) => match int_set_from(s, end + 1, max) {
                Err(e) => Err(e),
                Ok(b) => Ok(a.union(b)),
            },
        }
    }
}

#[via_fn]
proof fn int_set_from_ends(s: Seq<char>, from: int, max: int) {
    if 0 <= from <= s.len() {
        lemma_first_at(s, ',', from);
    }
}

/// The set that a set literal denotes, its numbers being at most `max`.
pub open spec fn int_set_of(s: Seq<char>, max: int) -> Result<Set<u16>, IntErrorKind> {
    int_set_from(s, 0, max)
}

/// The members of `set` below `n`, in ascending order.
pub open spec fn members_below(set: Set<u16>, n: int) -> Seq<u16>
    decreases n,
{
    if n <= 0 {
        Seq::empty()
    } else if set.contains((n - 1) as u16) {
        members_below(set, n - 1).push((n - 1) as u16)
    } else {
        members_below(set, n - 1)
    }
}

/// The members of `set` in ascending order.
pub open spec fn members(set: Set<u16>) -> Seq<u16> {
    members_below(set, 65536)
}

/// `members_below` holds the members below `n`, and those only, in
/// ascending order.
pub(crate) proof fn lemma_members_below(set: Set<u16>, n: int)
    requires
        0 <= n <= 65536,
    ensures
        ascending(members_below(set, n)),
        forall|i: int|
            0 <= i < members_below(set, n).len() ==> (#[trigger] members_below(set, n)[i]) < n
                && set.contains(members_below(set, n)[i]),
        forall|x: u16| x < n && set.contains(x) ==> members_below(set, n).contains(x),
    decreases n,
{
    if n > 0 {
        lemma_members_below(set, n - 1);
        let before = members_below(set, n - 1);
        let now = members_below(set, n);
        assert forall|x: u16| x < n && set.contains(x) implies now.contains(x) by {
            if x < n - 1 {
                let i = choose|i: int| 0 <= i < before.len() && before[i] == x;
                assert(now[i] == x);
            } else {
                assert(now[now.len() - 1] == x);
            }
        }
    }
}

/// Whether `v` holds its values in ascending order, none twice.
pub open spec fn ascending(v: Seq<u16>) -> bool {
    forall|i: int, j: int| 0 <= i < j < v.len() ==> v[i] < v[j]
}

/// Adds `v` to `set`.
fn set_insert(set: &mut BTreeSet<u16>, v: u16)
    ensures
        final(set)@ == old(set)@.insert(v),
{
    broadcast use {group_btree_axioms, group_laws_cmp};

    set.insert(v);
}

/// Whether `v` is in `set`.
fn set_contains(set: &BTreeSet<u16>, v: u16) -> (r: bool)
    ensures
        r == set@.contains(v),
{
    broadcast use {group_btree_axioms, group_laws_cmp};

    set.contains(&v)
}

/// The number of members of `set`.
fn set_len(set: &BTreeSet<u16>) -> (n: usize)
    ensures
        n == set@.len(),
{
    broadcast use {group_btree_axioms, group_laws_cmp};

    set.len()
}

/// Adds the integers from `lo` to `hi` to `set`.
pub fn insert_span(set: &mut BTreeSet<u16>, lo: u16, hi: u16)
    requires
        lo <= hi,
    ensures
        final(set)@ == old(set)@.union(span_set(lo as int, hi as int)),
{
    let mut cur: u16 = lo;
    loop
        invariant_except_break
            lo <= cur <= hi,
            set@ == old(set)@.union(span_set(lo as int, cur as int - 1)),
        ensures
            set@ == old(set)@.union(span_set(lo as int, hi as int)),
        decreases hi - cur,
    {
        set_insert(set, cur);
        assert(set@ == old(set)@.union(span_set(lo as int, cur as int)));
        if cur >= hi {
            break ;
        }
        cur = cur + 1;
    }
}

/// Reads the item `text[from..to]` of a set literal and adds what it denotes
/// to `set`.
#[verifier::rlimit(50)]
fn parse_item(set: &mut BTreeSet<u16>, text: &Vec<char>, from: usize, to: usize, max: u16) -> (r:
    Result<(), IntErrorKind>)
    requires
        from < to <= text.len(),
    ensures
        match r {
            Ok(()) => match item_set_of(text@.subrange(from as int, to as int), max as int) {
                Ok(a) => final(set)@ == old(set)@.union(a),
                Err(_) => false,
            },
            Err(e) => item_set_of(text@.subrange(from as int, to as int), max as int) == Err::<
                Set<u16>,
                IntErrorKind,
            >(e),
        },
{
    let ghost item = text@.subrange(from as int, to as int);
    let mut at = find_char(text, ':', from, to);
    if at == to {
        at = find_char(text, '-', from, to);
    }
    assert(at - from == range_split(item));
    if at < to {
        assert(item.subrange(0, at - from) == text@.subrange(from as int, at as int));
        assert(item.subrange(at - from + 1, item.len() as int) == text@.subrange(
            at + 1,
            to as int,
        ));
        let a = match parse_unsigned(text, from, at, max as u64) {
            Ok(v) => v as u16,
            Err(e) => {
                return Err(e);
            },
        };
        let b = match parse_unsigned(text, at + 1, to, max as u64) {
            Ok(v) => v as u16,
            Err(e) => {
                return Err(e);
            },
        };
        if a <= b {
            insert_span(set, a, b);
        } else {
            insert_span(set, b, a);
        }
        Ok(())
    } else {
        match parse_unsigned(text, from, to, max as u64) {
            Ok(v) => {
                insert_span(set, v as u16, v as u16);
                Ok(())
            },
            Err(e) => Err(e),
        }
    }
}

/// Reads a set literal and adds what it denotes to `set`.
#[verifier::rlimit(50)]
pub fn parse_into(set: &mut BTreeSet<u16>, s: &str, max: u16) -> (r: Result<(), IntErrorKind>)
    ensures
        match r {
            Ok(()) => match int_set_of(s@, max as int) {
                Ok(found) => final(set)@ == old(set)@.union(found),
                Err(_) => false,
            },
            Err(e) => int_set_of(s@, max as int) == Err::<Set<u16>, IntErrorKind>(e),
        },
{
    let text = to_chars(s);
    let n = text.len();
    let mut pos: usize = 0;
    let ghost mut found: Set<u16> = Set::empty();
    proof {
        assert(set@ == old(set)@.union(found));
        match int_set_from(text@, 0, max as int) {
            Ok(rest) => {
                assert(found.union(rest) == rest);
            },
            Err(_) => {},
        }
    }
    loop
        invariant_except_break
            n == text.len(),
            text@ == s@,
            pos <= n,
            set@ == old(set)@.union(found),
            match int_set_from(text@, pos as int, max as int) {
                Ok(rest) => int_set_of(text@, max as int) == Ok::<Set<u16>, IntErrorKind>(
                    found.union(rest),
                ),
                Err(e) => int_set_of(text@, max as int) == Err::<Set<u16>, IntErrorKind>(e),
            },
        ensures
            set@ == old(set)@.union(found),
            int_set_of(s@, max as int) == Ok::<Set<u16>, IntErrorKind>(found),
        decreases n - pos,
    {
        let end = find_char(&text, ',', pos, n);
        let ghost here: Set<u16> = if end > pos {
            match item_set_of(text@.subrange(pos as int, end as int), max as int) {
                Ok(a) => a,
                Err(_) => Set::empty(),
            }
        } else {
            Set::empty()
        };
        proof {
            lemma_first_at(text@, ',', pos as int);
            assert(end == first_at(text@, ',', pos as int));
        }
        if end > pos {
            match parse_item(set, &text, pos, end, max) {
                Ok(()) => {},
                Err(e) => {
                    return Err(e);
                },
            }
        }
        proof {
            assert(set@ == old(set)@.union(found.union(here)));
            match int_set_from(text@, end as int + 1, max as int) {
                Ok(rest) => {
                    assert(found.union(here.union(rest)) == found.union(here).union(rest));
                },
                Err(_) => {},
            }
            found = found.union(here);
        }
        if end == n {
            assert(int_set_from(text@, end as int + 1, max as int) == Ok::<Set<u16>, IntErrorKind>(
                Set::empty(),
            ));
            assert(found.union(Set::empty()) == found);
            break ;
        }
        pos = end + 1;
    }
    Ok(())
}

/// Reads a set literal such as `0,2,5:7,9-11`, its numbers being at most `max`.
pub fn parse_int_set(s: &str, max: u16) -> (r: Result<BTreeSet<u16>, IntErrorKind>)
    ensures
        match r {
            Ok(set) => int_set_of(s@, max as int) == Ok::<Set<u16>, IntErrorKind>(set@),
            Err(e) => int_set_of(s@, max as int) == Err::<Set<u16>, IntErrorKind>(e),
        },
{
    let mut set: BTreeSet<u16> = BTreeSet::new();
    match parse_into(&mut set, s, max) {
        Ok(()) => {
            assert(set@ == int_set_of(s@, max as int).unwrap()) by {
                let found = int_set_of(s@, max as int).unwrap();
                assert(Set::<u16>::empty().union(found) == found);
            }
            Ok(set)
        },
        Err(e) => Err(e),
    }
}

/// One entry of a list that stands for a set: a set literal, or a number.
#[derive(Debug, Clone)]
pub enum SetItem {
    Text(String),
    Number(i128),
}

/// The set that a number stands for: the number alone, where it lies between
/// 0 and `max`.
pub open spec fn number_set_of(v: i128, max: int) -> Result<Set<u16>, IntErrorKind> {
    if v < 0 {
        Err(IntErrorKind::NegOverflow)
    } else if v > max {
        Err(IntErrorKind::PosOverflow)
    } else {
        Ok(span_set(v as int, v as int))
    }
}

/// The set that one entry of a list stands for.
pub open spec fn entry_set_of(item: SetItem, max: int) -> Result<Set<u16>, IntErrorKind> {
    match item {
        SetItem::Text(s) => int_set_of(s@, max),
        SetItem::Number(v) => number_set_of(v, max),
    }
}

/// The set that a list of entries stands for: all that its entries stand
/// for. The first entry that is in error gives the error of the whole.
pub open spec fn list_set_of(items: Seq<SetItem>, max: int) -> Result<Set<u16>, IntErrorKind>
    decreases items.len(),
{
    if items.len() == 0 {
        Ok(Set::empty())
    } else {
        match list_set_of(items.drop_last(), max) {
            Err(e) => Err(e),
            Ok(a) => match entry_set_of(items.last(), max) {
                Err(e) => Err(e),
                Ok(b) => Ok(a.union(b)),
            },
        }
    }
}

/// An error among the first `k` entries is the error of the whole list.
proof fn lemma_list_error_stays(items: Seq<SetItem>, k: int, max: int)
    requires
        0 <= k <= items.len(),
        list_set_of(items.subrange(0, k), max) is Err,
    ensures
        list_set_of(items, max) == list_set_of(items.subrange(0, k), max),
    decreases items.len() - k,
{
    if k < items.len() {
        let next = items.subrange(0, k + 1);
        assert(next.drop_last() == items.subrange(0, k));
        lemma_list_error_stays(items, k + 1, max);
    } else {
        assert(items.subrange(0, k) == items);
    }
}

/// A set of integers, walked in ascending order.
#[derive(Debug, Clone)]
pub struct SmartSet {
    pub set: BTreeSet<u16>,
}

impl View for SmartSet {
    type V = Set<u16>;

    open spec fn view(&self) -> Set<u16> {
        self.set@
    }
}

impl SmartSet {
    /// The empty set.
    pub fn new() -> (r: Self)
        ensures
            r@ == Set::<u16>::empty(),
    {
        SmartSet { set: BTreeSet::new() }
    }

    /// The number of members.
    pub fn len(&self) -> (n: usize)
        ensures
            n == self@.len(),
    {
        set_len(&self.set)
    }

    /// Whether `v` is a member.
    pub fn contains(&self, v: u16) -> (r: bool)
        ensures
            r == self@.contains(v),
    {
        set_contains(&self.set, v)
    }

    /// The set of the single number `v`, which must lie between 0 and `max`.
    pub fn from_number(v: i128, max: u16) -> (r: Result<Self, IntErrorKind>)
        ensures
            match r {
                Ok(set) => number_set_of(v, max as int) == Ok::<Set<u16>, IntErrorKind>(set@),
                Err(e) => number_set_of(v, max as int) == Err::<Set<u16>, IntErrorKind>(e),
            },
    {
        if v < 0 {
            Err(IntErrorKind::NegOverflow)
        } else if v > max as i128 {
            Err(IntErrorKind::PosOverflow)
        } else {
            let mut set: BTreeSet<u16> = BTreeSet::new();
            insert_span(&mut set, v as u16, v as u16);
            assert(set@ == span_set(v as int, v as int));
            Ok(SmartSet { set })
        }
    }

    /// Reads a set literal, its numbers being at most `max`.
    pub fn from_str(s: &str, max: u16) -> (r: Result<Self, IntErrorKind>)
        ensures
            match r {
                Ok(set) => int_set_of(s@, max as int) == Ok::<Set<u16>, IntErrorKind>(set@),
                Err(e) => int_set_of(s@, max as int) == Err::<Set<u16>, IntErrorKind>(e),
            },
    {
        match parse_int_set(s, max) {
            Ok(set) => Ok(SmartSet { set }),
            Err(e) => Err(e),
        }
    }

    /// The set that a list of entries stands for, its numbers being at most
    /// `max`.
    pub fn from_items(items: &[SetItem], max: u16) -> (r: Result<Self, IntErrorKind>)
        ensures
            match r {
                Ok(set) => list_set_of(items@, max as int) == Ok::<Set<u16>, IntErrorKind>(set@),
                Err(e) => list_set_of(items@, max as int) == Err::<Set<u16>, IntErrorKind>(e),
            },
    {
        let mut set: BTreeSet<u16> = BTreeSet::new();
        let mut i: usize = 0;
        while i < items.len()
            invariant
                i <= items.len(),
                list_set_of(items@.subrange(0, i as int), max as int) == Ok::<Set<u16>, IntErrorKind>(
                    set@,
                ),
            decreases items.len() - i,
        {
            proof {
                let now = items@.subrange(0, i + 1);
                assert(now.drop_last() == items@.subrange(0, i as int));
                assert(now.last() == items@[i as int]);
            }
            match &items[i] {
                SetItem::Text(s) => {
                    match parse_into(&mut set, s.as_str(), max) {
                        Ok(()) => {},
                        Err(e) => {
                            proof {
                                lemma_list_error_stays(items@, i + 1, max as int);
                            }
                            return Err(e);
                        },
                    }
                },
                SetItem::Number(v) => {
                    if *v < 0 {
                        proof {
                            lemma_list_error_stays(items@, i + 1, max as int);
                        }
                        return Err(IntErrorKind::NegOverflow);
                    } else if *v > max as i128 {
                        proof {
                            lemma_list_error_stays(items@, i + 1, max as int);
                        }
                        return Err(IntErrorKind::PosOverflow);
                    }
                    insert_span(&mut set, *v as u16, *v as u16);
                },
            }
            i = i + 1;
        }
        assert(items@.subrange(0, i as int) == items@);
        Ok(SmartSet { set })
    }

    /// The integers from `lo` to `hi`, both included.
    pub fn span(lo: u16, hi: u16) -> (r: Self)
        requires
            lo <= hi,
        ensures
            r@ == span_set(lo as int, hi as int),
    {
        let mut set: BTreeSet<u16> = BTreeSet::new();
        insert_span(&mut set, lo, hi);
        assert(set@ == span_set(lo as int, hi as int));
        SmartSet { set }
    }

    /// The members in ascending order.
    pub fn to_vec(&self) -> (v: Vec<u16>)
        ensures
            v@ == members(self@),
            ascending(v@),
            forall|x: u16| self@.contains(x) <==> v@.contains(x),
    {
        let mut v: Vec<u16> = Vec::new();
        let mut cur: u16 = 0;
        loop
            invariant_except_break
                v@ == members_below(self@, cur as int),
                ascending(v@),
                forall|i: int| 0 <= i < v@.len() ==> v@[i] < cur,
                forall|x: u16| x < cur ==> (self@.contains(x) <==> v@.contains(x)),
                forall|i: int| 0 <= i < v@.len() ==> self@.contains(#[trigger] v@[i]),
            ensures
                v@ == members(self@),
                ascending(v@),
                forall|x: u16| self@.contains(x) <==> v@.contains(x),
            decreases u16::MAX - cur,
        {
            let ghost before = v@;
            proof {
                reveal_with_fuel(members_below, 2);
                assert(members_below(self@, cur + 1) == if self@.contains(cur) {
                    members_below(self@, cur as int).push(cur)
                } else {
                    members_below(self@, cur as int)
                });
            }
            if self.contains(cur) {
                v.push(cur);
                assert(v@[v@.len() - 1] == cur);
                assert forall|x: u16| x <= cur implies (self@.contains(x) <==> v@.contains(x)) by {
                    if x < cur {
                        if before.contains(x) {
                            let i = choose|i: int| 0 <= i < before.len() && before[i] == x;
                            assert(v@[i] == x);
                        }
                    }
                }
            } else {
                assert forall|x: u16| x <= cur implies (self@.contains(x) <==> v@.contains(x)) by {}
            }
            if cur == u16::MAX {
                break ;
            }
            cur = cur + 1;
        }
        v
    }
}

} // verus!
