//! Surfaces: what becomes of a ray that meets one.

use vstd::prelude::*;
use crate::color::Color;
use crate::hittable::HitRecord;
use crate::ray::Ray;
use crate::scalar::{Scalar, ONE_BITS};
use crate::vec3::Vec3;

verus! {

/// A ray sent on by a surface, and the share of the light it carries that the
/// surface passes on.
#[derive(Clone, Copy, Debug, PartialEq, Eq, Structural)]
pub struct Scatter {
    pub attenuation: Color,
    pub scattered: Ray,
}

/// A matte surface: it sends light on in a direction spread around the normal.
#[derive(Clone, Copy, Debug, PartialEq, Eq, Structural)]
pub struct Lambertian {
    pub albedo: Color,
}

/// A mirror, blurred by `fuzz`.
#[derive(Clone, Copy, Debug, PartialEq, Eq, Structural)]
pub struct Metal {
    pub albedo: Color,
    pub fuzz: Scalar,
}

/// A clear medium such as glass, which bends the light it lets through.
#[derive(Clone, Copy, Debug, PartialEq, Eq, Structural)]
pub struct Dielectric {
    pub refraction_index: Scalar,
}

/// The surface of an object: one of the three kinds.
#[derive(Clone, Copy, Debug, PartialEq, Eq, Structural)]
pub enum Material {
    Lambertian(Lambertian),
    Metal(Metal),
    Dielectric(Dielectric),
}

impl Lambertian {
    /// The direction a matte surface sends a ray in: the candidate, unless it
    /// is too short to be a direction, and then the normal.
    pub open spec fn spec_direction(normal: Vec3, candidate: Vec3) -> Vec3 {
        if candidate.spec_near_zero() {
            normal
        } else {
            candidate
        }
    }

    /// A matte surface of the given colour.
    pub fn new(albedo: Color) -> (m: Lambertian)
        ensures
            m.albedo == albedo,
    {
        Lambertian { albedo }
    }

    /// Scatters at the hit in `hit_record`. `candidate` is the sum of the
    /// normal and a vector drawn from the unit sphere; where the two cancel,
    /// the ray leaves along the normal. A matte surface absorbs nothing: the
    /// result is never `None`.
    pub fn scatter(&self, hit_record: &HitRecord, candidate: Vec3) -> (r: Option<Scatter>)
        ensures
            r == Some(
                Scatter {
                    attenuation: self.albedo,
                    scattered: Ray {
                        origin: hit_record.point,
                        direction: Lambertian::spec_direction(hit_record.normal, candidate),
                    },
                },
            ),
    {
        let direction = if candidate.near_zero() {
            hit_record.normal
        } else {
            candidate
        };
        Some(
            Scatter {
                attenuation: self.albedo,
                scattered: Ray { origin: hit_record.point, direction },
            },
        )
    }
}

impl Metal {
    /// The blur that a mirror is made with: what was asked for, cut down to one.
    pub open spec fn spec_fuzz(fuzz: Scalar) -> Scalar {
        if fuzz.spec_gt(Scalar::spec_one()) {
            Scalar::spec_one()
        } else {
            fuzz
        }
    }

    /// A mirror of the given colour. A blur above one is taken as one.
    pub fn new(albedo: Color, fuzz: Scalar) -> (m: Metal)
        ensures
            m.albedo == albedo,
            m.fuzz == Metal::spec_fuzz(fuzz),
            !m.fuzz.spec_gt(Scalar::spec_one()),
    {
        let one = Scalar::one();
        Metal {
            albedo,
            fuzz: if fuzz.gt(one) {
                one
            } else {
                fuzz
            },
        }
    }

    /// Scatters at the hit in `hit_record`. `reflected` is the mirrored
    /// direction after the blur was added, `alignment` its dot product with the
    /// normal. A direction that does not leave the surface is absorbed: the
    /// result is `Some` exactly when `alignment` is above zero.
    pub fn scatter(&self, hit_record: &HitRecord, reflected: Vec3, alignment: Scalar) -> (r:
        Option<Scatter>)
        ensures
            r == if alignment.spec_gt(Scalar::spec_zero()) {
                Some(
                    Scatter {
                        attenuation: self.albedo,
                        scattered: Ray { origin: hit_record.point, direction: reflected },
                    },
                )
            } else {
                None
            },
    {
        if alignment.gt(Scalar::zero()) {
            Some(
                Scatter {
                    attenuation: self.albedo,
                    scattered: Ray { origin: hit_record.point, direction: reflected },
                },
            )
        } else {
            None
        }
    }
}

impl Dielectric {
    /// A clear medium of the given index of refraction.
    pub fn new(refraction_index: Scalar) -> (m: Dielectric)
        ensures
            m.refraction_index == refraction_index,
    {
        Dielectric { refraction_index }
    }

    /// The ratio of the indices on the two sides of the surface, in the order
    /// in which the ray crosses it. `reciprocal` is one divided by the index of
    /// the medium; it applies where the ray enters, at a front face.
    pub fn refraction_ratio(&self, front_face: bool, reciprocal: Scalar) -> (r: Scalar)
        ensures
            r == if front_face {
                reciprocal
            } else {
                self.refraction_index
            },
    {
        if front_face {
            reciprocal
        } else {
            self.refraction_index
        }
    }

    /// Whether the surface reflects all light: Snell's law has no solution.
    /// `grazing` is the refraction ratio times the sine of the angle of
    /// incidence.
    pub fn cannot_refract(grazing: Scalar) -> (r: bool)
        ensures
            r == grazing.spec_gt(Scalar::spec_one()),
    {
        grazing.gt(Scalar::one())
    }

    /// Whether a ray that could pass is reflected all the same: the share of
    /// light that the surface reflects at this angle is above `draw`, a number
    /// drawn uniformly from zero to one.
    pub fn reflects(reflectance: Scalar, draw: Scalar) -> (r: bool)
        ensures
            r == reflectance.spec_gt(draw),
    {
        reflectance.gt(draw)
    }

    /// Scatters at the hit in `hit_record` in the direction chosen, reflected
    /// or refracted. A clear medium absorbs nothing and tints nothing: the
    /// result is never `None`, and the attenuation is white.
    pub fn scatter(&self, hit_record: &HitRecord, direction: Vec3) -> (r: Option<Scatter>)
        ensures
            r == Some(
                Scatter {
                    attenuation: Color::spec_white(),
                    scattered: Ray { origin: hit_record.point, direction },
                },
            ),
    {
        Some(
            Scatter {
                attenuation: Color::white(),
                scattered: Ray { origin: hit_record.point, direction },
            },
        )
    }
}

impl Material {
    /// The share of light that the surface passes on.
    pub open spec fn spec_attenuation(self) -> Color {
        match self {
            Material::Lambertian(m) => m.albedo,
            Material::Metal(m) => m.albedo,
            Material::Dielectric(_) => Color::spec_white(),
        }
    }

    /// The share of light that the surface passes on: its colour, or white for
    /// a clear medium.
    pub fn attenuation(&self) -> (c: Color)
        ensures
            c == self.spec_attenuation(),
    {
        match self {
            Material::Lambertian(m) => m.albedo,
            Material::Metal(m) => m.albedo,
            Material::Dielectric(_) => Color::white(),
        }
    }
}

} // verus!
