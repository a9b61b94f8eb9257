//! Taking a value from one range to another, along the line through both.

use vstd::prelude::*;
use crate::util::range::Range;

verus! {

/// The quotient of `a` by `b`, rounded toward zero; 0 where `b` is 0.
pub open spec fn trunc_div(a: int, b: int) -> int {
    if b == 0 {
        0
    } else if a >= 0 && b > 0 {
        a / b
    } else if a >= 0 {
        -(a / (-b))
    } else if b > 0 {
        -((-a) / b)
    } else {
        (-a) / (-b)
    }
}

/// `v`, held inside the 64-bit signed integers.
pub open spec fn clamp_i64(v: int) -> int {
    if v >= i64::MAX {
        i64::MAX as int
    } else if v <= i64::MIN {
        i64::MIN as int
    } else {
        v
    }
}

/// Where the formula of a remapper takes a value.
#[derive(Debug, Clone, Copy, PartialEq, Eq, Structural)]
pub enum Remapped {
    /// At a number.
    At(i128),
    /// Above every number.
    Above,
    /// Below every number.
    Below,
    /// Nowhere: the formula divides zero by zero.
    Nowhere,
}

/// Takes values of a source range to a destination range.
#[derive(Debug, Clone, Copy)]
pub struct Remapper {
    pub src: Range<i32>,
    pub dst: Range<i64>,
}

/// `NumCast::from` of the crate `num`, from a 128-bit to a 64-bit signed
/// integer: the same number where it fits, nothing where it does not.
#[verifier::external_body]
fn cast_to_i64(v: i128) -> (r: Option<i64>)
    ensures
        r == if i64::MIN <= v <= i64::MAX {
            Some(v as i64)
        } else {
            None::<i64>
        },
{
    num::NumCast::from(v)
}

impl Remapper {
    pub fn new(src: Range<i32>, dst: Range<i64>) -> (r: Self)
        ensures
            r.src == src,
            r.dst == dst,
    {
        Remapper { src, dst }
    }

    pub fn src(&self) -> (r: &Range<i32>)
        ensures
            *r == self.src,
    {
        &self.src
    }

    pub fn dst(&self) -> (r: &Range<i64>)
        ensures
            *r == self.dst,
    {
        &self.dst
    }

    /// Whether the source range has two different ends, so that the formula
    /// does not divide by zero.
    pub open spec fn defined(&self) -> bool {
        self.src.start != self.src.end
    }

    /// The value on the line at `v`, times the length of the source range:
    /// `(v - src.start) * (dst.end - dst.start) + dst.start * (src.end - src.start)`.
    pub open spec fn scaled(&self, v: int) -> int {
        (v - self.src.start) * (self.dst.end - self.dst.start) + self.dst.start * (self.src.end
            - self.src.start)
    }

    /// `(v - src.start) * (dst.end - dst.start) / (src.end - src.start) + dst.start`,
    /// rounded toward zero.
    pub open spec fn spec_remap(&self, v: int) -> int {
        trunc_div(self.scaled(v), self.src.end - self.src.start)
    }

    /// The product that the quotient of the formula divides:
    /// `(v - src.start) * (dst.end - dst.start)`.
    pub open spec fn rise(&self, v: int) -> int {
        (v - self.src.start) * (self.dst.end - self.dst.start)
    }

    /// Where the formula takes `v`. With a source range of two different
    /// ends that is a number. With a source range of a single point the
    /// quotient divides by zero: it lies above every number where `rise` is
    /// above zero, below every number where it is below, and nowhere where
    /// it is zero.
    pub open spec fn spec_remap_value(&self, v: int) -> Remapped {
        if self.defined() {
            Remapped::At(self.spec_remap(v) as i128)
        } else if self.rise(v) > 0 {
            Remapped::Above
        } else if self.rise(v) < 0 {
            Remapped::Below
        } else {
            Remapped::Nowhere
        }
    }

    /// The remapped value as a 64-bit signed integer: `spec_remap`, held
    /// inside the bounds of the type. Where the source range is a single
    /// point: the upper bound where the quotient lies above every number,
    /// the lower bound where it lies below, and 0 where it lies nowhere.
    pub open spec fn spec_remap_to(&self, v: int) -> int {
        if self.defined() {
            clamp_i64(self.spec_remap(v))
        } else if self.rise(v) > 0 {
            i64::MAX as int
        } else if self.rise(v) < 0 {
            i64::MIN as int
        } else {
            0
        }
    }

    /// Where the formula takes `v`, a number being rounded toward zero.
    pub fn remap(&self, v: i32) -> (r: Remapped)
        ensures
            r == self.spec_remap_value(v as int),
            self.defined() ==> -0x4_0000_0000_0000_0000_0000_0000 <= self.spec_remap(v as int)
                <= 0x4_0000_0000_0000_0000_0000_0000,
    {
        let span: i128 = self.src.end as i128 - self.src.start as i128;
        let offset: i128 = v as i128 - self.src.start as i128;
        let reach: i128 = self.dst.end as i128 - self.dst.start as i128;
        let base: i128 = self.dst.start as i128;
        assert(-0x2_0000_0000_0000_0000_0000_0000 <= offset * reach
            <= 0x2_0000_0000_0000_0000_0000_0000) by (nonlinear_arith)
            requires
                -0x1_0000_0000 <= offset <= 0x1_0000_0000,
                -0x1_0000_0000_0000_0000 <= reach <= 0x1_0000_0000_0000_0000,
        ;
        let rise: i128 = offset * reach;
        if span == 0 {
            return if rise > 0 {
                Remapped::Above
            } else if rise < 0 {
                Remapped::Below
            } else {
                Remapped::Nowhere
            };
        }
        assert(-0x1_0000_0000_0000_0000_0000_0000 <= base * span
            <= 0x1_0000_0000_0000_0000_0000_0000) by (nonlinear_arith)
            requires
                -0x1_0000_0000 <= span <= 0x1_0000_0000,
                -0x1_0000_0000_0000_0000 <= base <= 0x1_0000_0000_0000_0000,
        ;
        let scaled: i128 = rise + base * span;
        let above: u128 = if scaled < 0 {
            (-scaled) as u128
        } else {
            scaled as u128
        };
        let below: u128 = if span < 0 {
            (-span) as u128
        } else {
            span as u128
        };
        let quotient: u128 = above / below;
        assert(quotient <= above) by (nonlinear_arith)
            requires
                quotient == above / below,
                below >= 1,
        ;
        if (scaled < 0) != (span < 0) {
            Remapped::At(-(quotient as i128))
        } else {
            Remapped::At(quotient as i128)
        }
    }

    /// The remapped value as a 64-bit signed integer, for every remapper and
    /// every value: rounded toward zero and held inside the bounds of the
    /// type. A value that lies above every number gives the upper bound, one
    /// that lies below every number the lower bound, one that lies nowhere 0.
    pub fn remap_to(&self, v: i32) -> (r: Option<i64>)
        ensures
            r == Some(self.spec_remap_to(v as int) as i64),
            i64::MIN <= self.spec_remap_to(v as int) <= i64::MAX,
    {
        match self.remap(v) {
            Remapped::Above => Some(i64::MAX),
            Remapped::Below => Some(i64::MIN),
            Remapped::Nowhere => Some(0),
            Remapped::At(exact) => {
                if exact >= i64::MAX as i128 {
                    Some(i64::MAX)
                } else if exact <= i64::MIN as i128 {
                    Some(i64::MIN)
                } else {
                    cast_to_i64(exact)
                }
            },
        }
    }
}

/// The remapped value as an integer never leaves the 64-bit signed
/// integers: for every remapper and every value. It is the value of the
/// formula where that is a number inside the bounds, and the nearer bound
/// where it is a number outside them.
pub proof fn lemma_remap_saturates(r: Remapper, v: int)
    ensures
        i64::MIN <= r.spec_remap_to(v) <= i64::MAX,
        r.defined() && i64::MIN <= r.spec_remap(v) <= i64::MAX ==> r.spec_remap_to(v)
            == r.spec_remap(v),
        r.defined() && r.spec_remap(v) > i64::MAX ==> r.spec_remap_to(v) == i64::MAX,
        r.defined() && r.spec_remap(v) < i64::MIN ==> r.spec_remap_to(v) == i64::MIN,
{
}

} // verus!
