//! Colours.

use vstd::prelude::*;
use vstd::arithmetic::div_mod::lemma_basic_div;
use vstd::arithmetic::power2::{pow2, lemma2_to64, lemma2_to64_rest, lemma_pow2_pos};
use crate::interval::Interval;
use crate::scalar::{Scalar, ONE_BITS};
use crate::value::{
    lemma_floor_scaled_below,
    lemma_floor_scaled_normal,
    units_per_one,
    FRACTION_SPAN,
};

verus! {

/// The encoding of 0.999: the brightest that a channel is shown.
pub const INTENSITY_MAX_BITS: u64 = 0x3FEF_F7CE_D916_872B;

/// A colour: the radiance, or the share of it that a surface passes on, in
/// each of three channels.
#[derive(Clone, Copy, Debug, PartialEq, Eq, Structural)]
pub struct Color {
    pub r: Scalar,
    pub g: Scalar,
    pub b: Scalar,
}

impl Color {
    /// Black: positive zero in every channel.
    pub open spec fn spec_black() -> Color {
        Color { r: Scalar::spec_zero(), g: Scalar::spec_zero(), b: Scalar::spec_zero() }
    }

    /// White: one in every channel.
    pub open spec fn spec_white() -> Color {
        Color {
            r: Scalar::spec_one(),
            g: Scalar::spec_one(),
            b: Scalar::spec_one(),
        }
    }

    /// The range of what is shown of a channel: from zero to 0.999.
    pub open spec fn intensity() -> Interval {
        Interval { min: Scalar::spec_zero(), max: Scalar { bits: INTENSITY_MAX_BITS } }
    }

    /// A channel after gamma correction: its square root where the channel is
    /// above zero, `root` being that root, and zero otherwise.
    pub open spec fn spec_linear_to_gamma(linear: Scalar, root: Scalar) -> Scalar {
        if linear.spec_gt(Scalar::spec_zero()) {
            root
        } else {
            Scalar::spec_zero()
        }
    }

    /// The display level of a gamma-corrected channel: the channel brought
    /// into the range of what is shown, times 256, rounded down.
    pub open spec fn spec_level(gamma: Scalar) -> int {
        Color::intensity().spec_clamp(gamma).spec_floor_scaled(8)
    }

    /// The colour with the given channels.
    pub fn new(r: Scalar, g: Scalar, b: Scalar) -> (c: Color)
        ensures
            c.r == r,
            c.g == g,
            c.b == b,
    {
        Color { r, g, b }
    }

    /// Black.
    pub fn black() -> (c: Color)
        ensures
            c == Color::spec_black(),
    {
        Color { r: Scalar::zero(), g: Scalar::zero(), b: Scalar::zero() }
    }

    /// White.
    pub fn white() -> (c: Color)
        ensures
            c == Color::spec_white(),
    {
        Color { r: Scalar::one(), g: Scalar::one(), b: Scalar::one() }
    }

    /// Gamma correction of one channel, with gamma 2: `root`, the square root
    /// of `linear`, where `linear` is above zero, and zero otherwise.
    pub fn linear_to_gamma(linear: Scalar, root: Scalar) -> (g: Scalar)
        ensures
            g == Color::spec_linear_to_gamma(linear, root),
    {
        if linear.gt(Scalar::zero()) {
            root
        } else {
            Scalar::zero()
        }
    }

    /// The display level of a gamma-corrected channel, from 0 to 255.
    pub fn level(gamma: Scalar) -> (l: u32)
        ensures
            l == Color::spec_level(gamma),
            l <= 255,
    {
        let shown = Interval { min: Scalar::zero(), max: Scalar::from_bits(INTENSITY_MAX_BITS) };
        let clamped = shown.clamp(gamma);
        proof {
            if !clamped.spec_is_nan() && !clamped.sign_negative() {
                lemma_floor_scaled_below(clamped, 8);
                lemma2_to64();
            }
        }
        clamped.floor_scaled(8)
    }

    /// The three display levels of a linear colour, where `roots` holds the
    /// square root of each channel.
    pub fn levels(&self, roots: Color) -> (l: (u32, u32, u32))
        ensures
            l.0 == Color::spec_level(Color::spec_linear_to_gamma(self.r, roots.r)),
            l.1 == Color::spec_level(Color::spec_linear_to_gamma(self.g, roots.g)),
            l.2 == Color::spec_level(Color::spec_linear_to_gamma(self.b, roots.b)),
            l.0 <= 255,
            l.1 <= 255,
            l.2 <= 255,
    {
        (
            Color::level(Color::linear_to_gamma(self.r, roots.r)),
            Color::level(Color::linear_to_gamma(self.g, roots.g)),
            Color::level(Color::linear_to_gamma(self.b, roots.b)),
        )
    }
}

/// The ends of the scale: a channel of 0.999 or more, after gamma correction,
/// is shown at level 255, and one of zero or less at level 0. A NaN is shown
/// at level 0 too.
pub proof fn lemma_level_ends(gamma: Scalar)
    ensures
        gamma.spec_ge(Scalar { bits: INTENSITY_MAX_BITS }) ==> Color::spec_level(gamma) == 255,
        gamma.spec_le(Scalar::spec_zero()) ==> Color::spec_level(gamma) == 0,
        gamma.spec_is_nan() ==> Color::spec_level(gamma) == 0,
{
    let top = Scalar { bits: INTENSITY_MAX_BITS };
    let zero = Scalar::spec_zero();
    lemma_pow2_pos(1074);
    if gamma.spec_ge(top) {
        assert(Color::intensity().spec_clamp(gamma) == top);
        lemma2_to64_rest();
        assert(top.magnitude() == INTENSITY_MAX_BITS);
        assert(top.exponent_field() == 1022);
        assert(top.fraction_field() == 0xF_F7CE_D916_872B);
        lemma_floor_scaled_normal(top, 8);
        assert(pow2(45) == 0x2000_0000_0000);
        assert((FRACTION_SPAN + top.fraction_field()) / 0x2000_0000_0000 == 255);
    }
    if gamma.spec_le(zero) {
        let clamped = Color::intensity().spec_clamp(gamma);
        assert(clamped == zero || clamped.sign_negative());
        assert(zero.units() == 0);
        assert(zero.units() * pow2(8) == 0);
        lemma_basic_div(0, units_per_one());
    }
}

} // verus!
