//! Ranges of scalars.

use vstd::prelude::*;
use crate::scalar::{Scalar, INFINITY_BITS, NEG_INFINITY_BITS};

verus! {

/// The range from `min` to `max`. Whether the ends belong to it is decided by
/// the question asked: `conatins` counts them in, `surrounds` leaves them out.
#[derive(Clone, Copy, Debug)]
pub struct Interval {
    pub min: Scalar,
    pub max: Scalar,
}

impl Interval {
    /// `min <= x <= max`.
    pub open spec fn spec_contains(self, x: Scalar) -> bool {
        self.min.spec_le(x) && x.spec_le(self.max)
    }

    /// `min < x < max`.
    pub open spec fn spec_surrounds(self, x: Scalar) -> bool {
        self.min.spec_lt(x) && x.spec_lt(self.max)
    }

    /// `x` moved to the nearer end where it lies outside; a NaN stays as it is.
    pub open spec fn spec_clamp(self, x: Scalar) -> Scalar {
        if x.spec_lt(self.min) {
            self.min
        } else if x.spec_gt(self.max) {
            self.max
        } else {
            x
        }
    }

    /// The empty range from positive to negative infinity: the seed from which
    /// a range is grown.
    pub fn default() -> (r: Interval)
        ensures
            r.min.bits == INFINITY_BITS,
            r.max.bits == NEG_INFINITY_BITS,
            forall|x: Scalar| !r.spec_contains(x),
    {
        Interval { min: Scalar::infinity(), max: Scalar::neg_infinity() }
    }

    /// Whether `x` lies in the range, the ends counted in.
    pub fn conatins(&self, x: Scalar) -> (r: bool)
        ensures
            r == self.spec_contains(x),
    {
        self.min.le(x) && x.le(self.max)
    }

    /// Whether `x` lies strictly between the ends.
    pub fn surrounds(&self, x: Scalar) -> (r: bool)
        ensures
            r == self.spec_surrounds(x),
    {
        self.min.lt(x) && x.lt(self.max)
    }

    /// `x` brought into the range.
    pub fn clamp(&self, x: Scalar) -> (r: Scalar)
        ensures
            r == self.spec_clamp(x),
    {
        if x.lt(self.min) {
            self.min
        } else if x.gt(self.max) {
            self.max
        } else {
            x
        }
    }
}

/// What lies strictly inside a range lies in it.
pub proof fn lemma_surrounds_implies_contains(i: Interval, x: Scalar)
    requires
        i.spec_surrounds(x),
    ensures
        i.spec_contains(x),
        !x.spec_is_nan(),
{
}

/// Neither end of a range lies strictly inside it.
pub proof fn lemma_ends_not_surrounded(i: Interval)
    ensures
        !i.spec_surrounds(i.min),
        !i.spec_surrounds(i.max),
{
}

/// Clamping a number into a range whose ends are in order gives a member of
/// the range, and leaves a member as it is.
pub proof fn lemma_clamp_contained(i: Interval, x: Scalar)
    requires
        i.min.spec_le(i.max),
        !x.spec_is_nan(),
    ensures
        i.spec_contains(i.spec_clamp(x)),
        i.spec_contains(x) ==> i.spec_clamp(x) == x,
        i.spec_clamp(i.spec_clamp(x)) == i.spec_clamp(x),
{
}

/// Clamping keeps the order of two numbers.
pub proof fn lemma_clamp_monotone(i: Interval, x: Scalar, y: Scalar)
    requires
        i.min.spec_le(i.max),
        x.spec_le(y),
    ensures
        i.spec_clamp(x).spec_le(i.spec_clamp(y)),
{
}

} // verus!
