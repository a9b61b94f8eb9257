//! Searching a character in a piece of text.

use vstd::prelude::*;

verus! {

/// The position of the first `c` in `s` at or after `from`, or the length of
/// `s` where there is none.
pub open spec fn first_at(s: Seq<char>, c: char, from: int) -> int
    decreases s.len() - from,
{
    if from < 0 || from >= s.len() {
        s.len() as int
    } else if s[from] == c {
        from
    } else {
        first_at(s, c, from + 1)
    }
}

/// `first_at` points at `c`, or at the end, and passes over no `c`.
pub(crate) proof fn lemma_first_at(s: Seq<char>, c: char, from: int)
    requires
        0 <= from <= s.len(),
    ensures
        from <= first_at(s, c, from) <= s.len(),
        first_at(s, c, from) < s.len() ==> s[first_at(s, c, from)] == c,
        forall|j: int| from <= j < first_at(s, c, from) ==> s[j] != c,
    decreases s.len() - from,
{
    if from < s.len() && s[from] != c {
        lemma_first_at(s, c, from + 1);
    }
}

/// The first position of `c` in a part of a text is its first position in the
/// whole text, as far as it lies inside that part.
pub(crate) proof fn lemma_first_at_part(s: Seq<char>, c: char, from: int, to: int, i: int)
    requires
        0 <= from <= i <= to <= s.len(),
    ensures
        first_at(s.subrange(from, to), c, i - from) == if first_at(s, c, i) < to {
            first_at(s, c, i) - from
        } else {
            to - from
        },
    decreases to - i,
{
    let part = s.subrange(from, to);
    if i < to {
        assert(part[i - from] == s[i]);
        if s[i] != c {
            lemma_first_at_part(s, c, from, to, i + 1);
        }
    } else {
        lemma_first_at(s, c, i);
    }
}

/// Finds the first `c` in `text[from..to]`; gives `to` where there is none.
pub fn find_char(text: &Vec<char>, c: char, from: usize, to: usize) -> (at: usize)
    requires
        from <= to <= text.len(),
    ensures
        from <= at <= to,
        at - from == first_at(text@.subrange(from as int, to as int), c, 0),
        at == if first_at(text@, c, from as int) < to {
            first_at(text@, c, from as int)
        } else {
            to as int
        },
{
    let mut i: usize = from;
    while i < to && text[i] != c
        invariant
            from <= i <= to <= text.len(),
            first_at(text@, c, from as int) == first_at(text@, c, i as int),
        decreases to - i,
    {
        i = i + 1;
    }
    proof {
        lemma_first_at(text@, c, i as int);
        lemma_first_at_part(text@, c, from as int, to as int, from as int);
    }
    i
}

/// Whether `part` stands somewhere in `text`.
pub open spec fn contains_text(text: Seq<char>, part: Seq<char>) -> bool {
    exists|i: int|
        0 <= i <= text.len() - part.len() && #[trigger] text.subrange(i, i + part.len()) == part
}

/// Whether `part` stands in `text` at the position `at`.
fn stands_at(text: &Vec<char>, part: &Vec<char>, at: usize) -> (r: bool)
    requires
        at + part.len() <= text.len(),
    ensures
        r == (text@.subrange(at as int, at + part.len()) == part@),
{
    let mut j: usize = 0;
    while j < part.len()
        invariant
            j <= part.len(),
            at + part.len() <= text.len(),
            forall|k: int| 0 <= k < j ==> text@[at + k] == part@[k],
        decreases part.len() - j,
    {
        if text[at + j] != part[j] {
            assert(text@.subrange(at as int, at + part.len())[j as int] != part@[j as int]);
            return false;
        }
        j = j + 1;
    }
    assert(text@.subrange(at as int, at + part.len()) =~= part@);
    true
}

/// Whether `part` stands somewhere in `text`.
pub fn contains_chars(text: &Vec<char>, part: &Vec<char>) -> (r: bool)
    ensures
        r == contains_text(text@, part@),
{
    if part.len() > text.len() {
        return false;
    }
    let last: usize = text.len() - part.len();
    let mut i: usize = 0;
    loop
        invariant_except_break
            last == text.len() - part.len(),
            i <= last,
            forall|k: int| 0 <= k < i ==> #[trigger] text@.subrange(k, k + part.len()) != part@,
        ensures
            !contains_text(text@, part@),
        decreases last - i,
    {
        if stands_at(text, part, i) {
            return true;
        }
        if i == last {
            break ;
        }
        i = i + 1;
    }
    false
}

} // verus!
