//! Binary64 values as bit patterns, and their order.

use vstd::prelude::*;

verus! {

/// The bit that holds the sign.
pub const SIGN_BIT: u64 = 0x8000_0000_0000_0000;

/// The encoding of positive infinity; every larger magnitude encodes a NaN.
pub const INFINITY_BITS: u64 = 0x7FF0_0000_0000_0000;

/// The encoding of negative infinity.
pub const NEG_INFINITY_BITS: u64 = 0xFFF0_0000_0000_0000;

/// The encoding of one.
pub const ONE_BITS: u64 = 0x3FF0_0000_0000_0000;

/// A binary64 number, held as its encoding: one sign bit, eleven exponent
/// bits, fifty-two fraction bits.
///
/// Two scalars are `==` when their bits are equal. That is finer than the
/// numeric order below, under which the two zeros are equal to each other and
/// a NaN is related to nothing.
#[derive(Clone, Copy, Debug, PartialEq, Eq, Structural)]
pub struct Scalar {
    pub bits: u64,
}

impl Scalar {
    /// The encoding without its sign bit.
    pub open spec fn magnitude(self) -> int {
        if self.bits >= SIGN_BIT {
            self.bits - SIGN_BIT
        } else {
            self.bits as int
        }
    }

    /// Whether the sign bit is set.
    pub open spec fn sign_negative(self) -> bool {
        self.bits >= SIGN_BIT
    }

    /// Whether the encoding is one of a NaN.
    pub open spec fn spec_is_nan(self) -> bool {
        self.magnitude() > INFINITY_BITS
    }

    /// The place of a number in the numeric order: the magnitude, negated under
    /// a set sign bit. Both zeros have rank 0. Among numbers that are not NaN,
    /// a smaller rank is a smaller number.
    pub open spec fn rank(self) -> int {
        if self.sign_negative() {
            -self.magnitude()
        } else {
            self.magnitude()
        }
    }

    /// `self < other` as binary64 numbers: false as soon as either is a NaN.
    pub open spec fn spec_lt(self, other: Scalar) -> bool {
        !self.spec_is_nan() && !other.spec_is_nan() && self.rank() < other.rank()
    }

    /// `self <= other` as binary64 numbers: false as soon as either is a NaN.
    pub open spec fn spec_le(self, other: Scalar) -> bool {
        !self.spec_is_nan() && !other.spec_is_nan() && self.rank() <= other.rank()
    }

    /// `self > other` as binary64 numbers.
    pub open spec fn spec_gt(self, other: Scalar) -> bool {
        other.spec_lt(self)
    }

    /// `self >= other` as binary64 numbers.
    pub open spec fn spec_ge(self, other: Scalar) -> bool {
        other.spec_le(self)
    }

    /// The smaller of two numbers. A NaN gives way to the other number; of two
    /// numbers of equal rank, the two zeros, `self` is taken.
    pub open spec fn spec_min(self, other: Scalar) -> Scalar {
        if self.spec_is_nan() {
            other
        } else if other.spec_lt(self) {
            other
        } else {
            self
        }
    }

    /// The sign bit flipped.
    pub open spec fn spec_negated(self) -> Scalar {
        if self.bits >= SIGN_BIT {
            Scalar { bits: (self.bits - SIGN_BIT) as u64 }
        } else {
            Scalar { bits: (self.bits + SIGN_BIT) as u64 }
        }
    }

    /// The sign bit cleared.
    pub open spec fn spec_abs(self) -> Scalar {
        Scalar { bits: self.magnitude() as u64 }
    }

    /// Positive zero.
    pub open spec fn spec_zero() -> Scalar {
        Scalar { bits: 0 }
    }

    /// One.
    pub open spec fn spec_one() -> Scalar {
        Scalar { bits: ONE_BITS }
    }

    /// The scalar with the given encoding.
    pub fn from_bits(bits: u64) -> (r: Scalar)
        ensures
            r.bits == bits,
    {
        Scalar { bits }
    }

    /// The encoding.
    pub fn to_bits(self) -> (r: u64)
        ensures
            r == self.bits,
    {
        self.bits
    }

    /// Positive zero.
    pub fn zero() -> (r: Scalar)
        ensures
            r == Scalar::spec_zero(),
    {
        Scalar { bits: 0 }
    }

    /// One.
    pub fn one() -> (r: Scalar)
        ensures
            r == Scalar::spec_one(),
    {
        Scalar { bits: ONE_BITS }
    }

    /// Positive infinity.
    pub fn infinity() -> (r: Scalar)
        ensures
            r.bits == INFINITY_BITS,
    {
        Scalar { bits: INFINITY_BITS }
    }

    /// Negative infinity.
    pub fn neg_infinity() -> (r: Scalar)
        ensures
            r.bits == NEG_INFINITY_BITS,
    {
        Scalar { bits: NEG_INFINITY_BITS }
    }

    /// The encoding without its sign bit.
    pub fn magnitude_bits(self) -> (r: u64)
        ensures
            r == self.magnitude(),
            r < SIGN_BIT,
    {
        if self.bits >= SIGN_BIT {
            self.bits - SIGN_BIT
        } else {
            self.bits
        }
    }

    /// Whether this is a NaN.
    pub fn is_nan(self) -> (r: bool)
        ensures
            r == self.spec_is_nan(),
    {
        self.magnitude_bits() > INFINITY_BITS
    }

    /// `self < other`.
    pub fn lt(self, other: Scalar) -> (r: bool)
        ensures
            r == self.spec_lt(other),
    {
        if self.is_nan() || other.is_nan() {
            return false;
        }
        let a: u64 = self.magnitude_bits();
        let b: u64 = other.magnitude_bits();
        if self.bits >= SIGN_BIT {
            if other.bits >= SIGN_BIT {
                b < a
            } else {
                a > 0 || b > 0
            }
        } else {
            if other.bits >= SIGN_BIT {
                false
            } else {
                a < b
            }
        }
    }

    /// `self <= other`.
    pub fn le(self, other: Scalar) -> (r: bool)
        ensures
            r == self.spec_le(other),
    {
        if self.is_nan() || other.is_nan() {
            return false;
        }
        let a: u64 = self.magnitude_bits();
        let b: u64 = other.magnitude_bits();
        if self.bits >= SIGN_BIT {
            if other.bits >= SIGN_BIT {
                b <= a
            } else {
                true
            }
        } else {
            if other.bits >= SIGN_BIT {
                a == 0 && b == 0
            } else {
                a <= b
            }
        }
    }

    /// `self > other`.
    pub fn gt(self, other: Scalar) -> (r: bool)
        ensures
            r == self.spec_gt(other),
    {
        other.lt(self)
    }

    /// `self >= other`.
    pub fn ge(self, other: Scalar) -> (r: bool)
        ensures
            r == self.spec_ge(other),
    {
        other.le(self)
    }

    /// The smaller of `self` and `other`; where one of them is a NaN, the
    /// other.
    pub fn min(self, other: Scalar) -> (r: Scalar)
        ensures
            r == self.spec_min(other),
            r == self || r == other,
            !self.spec_is_nan() && !other.spec_is_nan() ==> r.spec_le(self) && r.spec_le(other),
    {
        if self.is_nan() {
            other
        } else if other.lt(self) {
            other
        } else {
            self
        }
    }

    /// The number with the opposite sign: the product with minus one.
    pub fn negated(self) -> (r: Scalar)
        ensures
            r == self.spec_negated(),
            r.spec_is_nan() == self.spec_is_nan(),
            r.rank() == -self.rank(),
    {
        if self.bits >= SIGN_BIT {
            Scalar { bits: self.bits - SIGN_BIT }
        } else {
            Scalar { bits: self.bits + SIGN_BIT }
        }
    }

    /// The absolute value.
    pub fn abs(self) -> (r: Scalar)
        ensures
            r == self.spec_abs(),
            r.spec_is_nan() == self.spec_is_nan(),
            r.rank() == self.magnitude(),
    {
        Scalar { bits: self.magnitude_bits() }
    }
}

/// No number is below itself.
pub proof fn lemma_lt_irreflexive(a: Scalar)
    ensures
        !a.spec_lt(a),
{
}

/// The strict order is transitive, and mixes with the weak one.
pub proof fn lemma_order_transitive(a: Scalar, b: Scalar, c: Scalar)
    ensures
        a.spec_lt(b) && b.spec_lt(c) ==> a.spec_lt(c),
        a.spec_le(b) && b.spec_le(c) ==> a.spec_le(c),
        a.spec_lt(b) && b.spec_le(c) ==> a.spec_lt(c),
        a.spec_le(b) && b.spec_lt(c) ==> a.spec_lt(c),
{
}

/// Two numbers of which neither is a NaN are comparable: exactly one of
/// `a < b` and `b <= a` holds.
pub proof fn lemma_order_total(a: Scalar, b: Scalar)
    requires
        !a.spec_is_nan(),
        !b.spec_is_nan(),
    ensures
        a.spec_lt(b) != b.spec_le(a),
        a.spec_le(b) == (a.spec_lt(b) || a.rank() == b.rank()),
{
}

/// A NaN is neither below nor above nor equal to anything.
pub proof fn lemma_nan_unordered(a: Scalar, b: Scalar)
    requires
        a.spec_is_nan(),
    ensures
        !a.spec_lt(b),
        !b.spec_lt(a),
        !a.spec_le(b),
        !b.spec_le(a),
{
}

/// Changing the sign of both sides turns an order around.
pub proof fn lemma_negated_reverses(a: Scalar, b: Scalar)
    ensures
        a.spec_negated().spec_lt(b.spec_negated()) == b.spec_lt(a),
        a.spec_negated().spec_le(b.spec_negated()) == b.spec_le(a),
        a.spec_negated().spec_negated() == a,
{
}

} // verus!
