use crate::scalar::Scalar;
use vstd::prelude::*;

verus! {

/// A range `[min, max]` of a ray's parameter or of one coordinate.
#[derive(Clone, Copy, Debug)]
pub struct Interval {
    pub min: Scalar,
    pub max: Scalar,
}

impl Interval {
    /// `min <= t <= max`.
    pub open spec fn contains_spec(self, t: Scalar) -> bool {
        self.min.le_spec(t) && t.le_spec(self.max)
    }

    /// `min < t < max`.
    pub open spec fn surrounds_spec(self, t: Scalar) -> bool {
        self.min.lt_spec(t) && t.lt_spec(self.max)
    }

    /// `x` moved to the nearer end where it lies outside.
    pub open spec fn clamp_spec(self, x: Scalar) -> Scalar {
        if x.lt_spec(self.min) {
            self.min
        } else if self.max.lt_spec(x) {
            self.max
        } else {
            x
        }
    }

    /// The interval from positive to negative infinity, which holds no number.
    pub open spec fn empty_spec() -> Interval {
        Interval { min: Scalar { bits: 0x7f80_0000 }, max: Scalar { bits: 0xff80_0000 } }
    }

    /// The interval from negative to positive infinity.
    pub open spec fn universe_spec() -> Interval {
        Interval { min: Scalar { bits: 0xff80_0000 }, max: Scalar { bits: 0x7f80_0000 } }
    }

    /// The smallest interval that holds both `a` and `b`.
    pub open spec fn around_intervals_spec(a: Interval, b: Interval) -> Interval {
        Interval { min: a.min.min_spec(b.min), max: a.max.max_spec(b.max) }
    }

    pub fn new(min: Scalar, max: Scalar) -> (iv: Interval)
        ensures
            iv.min == min,
            iv.max == max,
    {
        Interval { min, max }
    }

    pub fn around_intervals(a: &Interval, b: &Interval) -> (iv: Interval)
        ensures
            iv == Self::around_intervals_spec(*a, *b),
    {
        Interval { min: a.min.min(b.min), max: a.max.max(b.max) }
    }

    pub fn contains(&self, t: Scalar) -> (b: bool)
        ensures
            b == self.contains_spec(t),
    {
        self.min.le(t) && t.le(self.max)
    }

    pub fn surrounds(&self, t: Scalar) -> (b: bool)
        ensures
            b == self.surrounds_spec(t),
    {
        self.min.lt(t) && t.lt(self.max)
    }

    pub fn clamp(&self, x: Scalar) -> (c: Scalar)
        ensures
            c == self.clamp_spec(x),
    {
        if x.lt(self.min) {
            self.min
        } else if x.gt(self.max) {
            self.max
        } else {
            x
        }
    }

    pub fn empty() -> (iv: Interval)
        ensures
            iv == Self::empty_spec(),
    {
        Interval { min: Scalar::infinity(), max: Scalar::neg_infinity() }
    }

    pub fn universe() -> (iv: Interval)
        ensures
            iv == Self::universe_spec(),
    {
        Interval { min: Scalar::neg_infinity(), max: Scalar::infinity() }
    }
}

impl Default for Interval {
    fn default() -> (iv: Interval)
        ensures
            iv == Interval::empty_spec(),
    {
        Interval::empty()
    }
}

/// The empty interval holds no number and the universe holds every number.
pub proof fn lemma_empty_universe(t: Scalar)
    ensures
        !Interval::empty_spec().contains_spec(t),
        !Interval::empty_spec().surrounds_spec(t),
        !t.nan() ==> Interval::universe_spec().contains_spec(t),
{
}

/// What an interval surrounds it contains, and a clamped number lies in any
/// interval whose ends are in order.
pub proof fn lemma_surrounds_contains_clamp(iv: Interval, t: Scalar)
    ensures
        iv.surrounds_spec(t) ==> iv.contains_spec(t),
        iv.min.le_spec(iv.max) && !t.nan() ==> iv.contains_spec(iv.clamp_spec(t)),
        iv.contains_spec(t) ==> iv.clamp_spec(t) == t,
{
}

/// The union of two intervals holds every number that either holds, and the
/// empty interval is its neutral element.
pub proof fn lemma_around_intervals(a: Interval, b: Interval, t: Scalar)
    requires
        !a.min.nan() && !a.max.nan() && !b.min.nan() && !b.max.nan(),
    ensures
        a.contains_spec(t) || b.contains_spec(t) ==> Interval::around_intervals_spec(
            a,
            b,
        ).contains_spec(t),
        Interval::around_intervals_spec(Interval::empty_spec(), b) == b,
{
}

} // verus!
