//! Spheres.

use vstd::prelude::*;
use crate::hittable::{HitRecord, Roots};
use crate::interval::Interval;
use crate::materials::Material;
use crate::scalar::Scalar;
use crate::vec3::{Point, Vec3};

verus! {

/// A sphere with a surface.
#[derive(Clone, Copy, Debug, PartialEq, Eq, Structural)]
pub struct Sphere {
    center: Point,
    radius: Scalar,
    material: Material,
}

impl Sphere {
    /// The radius that a sphere is made with: what was asked for where that is
    /// above zero, and positive zero otherwise.
    pub open spec fn spec_radius_of(radius: Scalar) -> Scalar {
        if radius.spec_gt(Scalar::spec_zero()) {
            radius
        } else {
            Scalar::spec_zero()
        }
    }

    /// The centre.
    pub closed spec fn spec_center(self) -> Point {
        self.center
    }

    /// The radius.
    pub closed spec fn spec_radius(self) -> Scalar {
        self.radius
    }

    /// The surface.
    pub closed spec fn spec_material(self) -> Material {
        self.material
    }

    /// A sphere round `center`. A radius that is not above zero, a NaN among
    /// them, gives a sphere of radius zero.
    pub fn new(center: Point, radius: Scalar, material: Material) -> (s: Sphere)
        ensures
            s.spec_center() == center,
            s.spec_radius() == Sphere::spec_radius_of(radius),
            s.spec_material() == material,
            Scalar::spec_zero().spec_le(s.spec_radius()),
    {
        let zero = Scalar::zero();
        Sphere {
            center,
            radius: if radius.gt(zero) {
                radius
            } else {
                zero
            },
            material,
        }
    }

    /// The centre.
    pub fn center(&self) -> (c: Point)
        ensures
            c == self.spec_center(),
    {
        self.center
    }

    /// The radius.
    pub fn radius(&self) -> (r: Scalar)
        ensures
            r == self.spec_radius(),
    {
        self.radius
    }

    /// The surface.
    pub fn material(&self) -> (m: Material)
        ensures
            m == self.spec_material(),
    {
        self.material
    }

    /// Where along a ray the sphere is hit within the window `ray_t`, given the
    /// solved equation of the ray and the sphere: the nearer crossing where it
    /// lies strictly inside the window, else the farther one where that does,
    /// else nowhere.
    pub fn hit(&self, ray_t: Interval, roots: Roots) -> (t: Option<Scalar>)
        ensures
            t == roots.spec_select(ray_t),
    {
        roots.select(ray_t)
    }

    /// The record of a hit at parameter `t`, at `point`, where the normal that
    /// points away from the centre is `outward_normal` and `alignment` is the dot
    /// product of the ray's direction with it.
    pub fn record(&self, t: Scalar, point: Point, outward_normal: Vec3, alignment: Scalar) -> (rec:
        HitRecord)
        ensures
            rec.t == t,
            rec.point == point,
            rec.material == self.spec_material(),
            rec.front_face == HitRecord::spec_front_face(alignment),
            rec.normal == HitRecord::spec_facing_normal(alignment, outward_normal),
    {
        let mut rec = HitRecord::default();
        rec.t = t;
        rec.point = point;
        rec.set_face_normal(alignment, outward_normal);
        rec.material = self.material;
        rec
    }
}

} // verus!
