//! Triples of scalars: points, directions and colours in transit.

use vstd::prelude::*;
use crate::scalar::Scalar;

verus! {

/// The encoding of 1e-8: below it, in magnitude, a component counts as zero.
pub const NEAR_ZERO_BITS: u64 = 0x3E45_798E_E230_8C3A;

/// The encoding of 1e-160: the squared length that a direction drawn for the
/// unit sphere must exceed, so that dividing by its root stays finite.
pub const UNIT_SAMPLE_FLOOR_BITS: u64 = 0x1EB6_7E9C_127B_6E74;

/// Three scalars, read as a point, a direction or a colour.
#[derive(Clone, Copy, Debug, PartialEq, Eq, Structural)]
pub struct Vec3 {
    pub x: Scalar,
    pub y: Scalar,
    pub z: Scalar,
}

/// A position in space.
pub type Point = Vec3;

/// Whether one component counts as zero: its absolute value is below 1e-8.
pub open spec fn component_near_zero(c: Scalar) -> bool {
    c.spec_abs().spec_lt(Scalar { bits: NEAR_ZERO_BITS })
}

impl Vec3 {
    /// Whether every component counts as zero.
    pub open spec fn spec_near_zero(self) -> bool {
        component_near_zero(self.x) && component_near_zero(self.y) && component_near_zero(self.z)
    }

    /// Every component with its sign changed.
    pub open spec fn spec_negated(self) -> Vec3 {
        Vec3 { x: self.x.spec_negated(), y: self.y.spec_negated(), z: self.z.spec_negated() }
    }

    /// The vector of three positive zeros.
    pub open spec fn spec_zero() -> Vec3 {
        Vec3 { x: Scalar::spec_zero(), y: Scalar::spec_zero(), z: Scalar::spec_zero() }
    }

    /// Whether any component is a NaN.
    pub open spec fn has_nan(self) -> bool {
        self.x.spec_is_nan() || self.y.spec_is_nan() || self.z.spec_is_nan()
    }

    /// The vector with the given components.
    pub fn new(x: Scalar, y: Scalar, z: Scalar) -> (r: Vec3)
        ensures
            r.x == x,
            r.y == y,
            r.z == z,
    {
        Vec3 { x, y, z }
    }

    /// The vector of three positive zeros.
    pub fn zero() -> (r: Vec3)
        ensures
            r == Vec3::spec_zero(),
    {
        Vec3 { x: Scalar::zero(), y: Scalar::zero(), z: Scalar::zero() }
    }

    /// Whether the vector is too short to give a direction: every component
    /// is below 1e-8 in absolute value.
    pub fn near_zero(&self) -> (r: bool)
        ensures
            r == self.spec_near_zero(),
    {
        let s = Scalar::from_bits(NEAR_ZERO_BITS);
        self.x.abs().lt(s) && self.y.abs().lt(s) && self.z.abs().lt(s)
    }

    /// The opposite vector: the product with minus one.
    pub fn negated(self) -> (r: Vec3)
        ensures
            r == self.spec_negated(),
            r.has_nan() == self.has_nan(),
    {
        Vec3 { x: self.x.negated(), y: self.y.negated(), z: self.z.negated() }
    }

    /// `1e-160 < length_squared <= 1`.
    pub open spec fn spec_accepts_unit_sample(length_squared: Scalar) -> bool {
        Scalar { bits: UNIT_SAMPLE_FLOOR_BITS }.spec_lt(length_squared) && length_squared.spec_le(
            Scalar::spec_one(),
        )
    }

    /// Whether a vector drawn from the cube around the origin, of squared
    /// length `length_squared`, may be scaled onto the unit sphere: it lies in
    /// the ball, and not so close to the centre that its length vanishes.
    pub fn accepts_unit_sample(length_squared: Scalar) -> (r: bool)
        ensures
            r == Vec3::spec_accepts_unit_sample(length_squared),
    {
        Scalar::from_bits(UNIT_SAMPLE_FLOOR_BITS).lt(length_squared) && length_squared.le(
            Scalar::one(),
        )
    }

    /// The unit vector `self` or its opposite, whichever lies in the hemisphere
    /// around a normal, given `alignment`, the dot product of `self` with that
    /// normal. A vector at right angles to the normal is turned around.
    pub fn random_on_hemisphere(self, alignment: Scalar) -> (r: Vec3)
        ensures
            r == if alignment.spec_gt(Scalar::spec_zero()) {
                self
            } else {
                self.spec_negated()
            },
    {
        if alignment.gt(Scalar::zero()) {
            self
        } else {
            self.negated()
        }
    }
}

/// Whether a point drawn from the square around the origin, of squared length
/// `length_squared`, lies inside the unit disk.
pub fn accepts_disk_sample(length_squared: Scalar) -> (r: bool)
    ensures
        r == length_squared.spec_lt(Scalar::spec_one()),
{
    length_squared.lt(Scalar::one())
}

/// Turning a vector around twice gives it back, and a vector counts as zero
/// exactly when its opposite does.
pub proof fn lemma_negated_involution(v: Vec3)
    ensures
        v.spec_negated().spec_negated() == v,
        v.spec_negated().spec_near_zero() == v.spec_near_zero(),
{
}

} // verus!
