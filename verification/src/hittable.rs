//! Intersections: the record of one, and the search for the nearest.

use vstd::prelude::*;
use crate::color::Color;
use crate::interval::Interval;
use crate::materials::{Lambertian, Material};
use crate::scalar::Scalar;
use crate::shapes::Sphere;
use crate::vec3::{Point, Vec3};

verus! {

/// The solved equation of a ray and a surface of second degree: the
/// discriminant, and the parameters of the two crossings, named for the order
/// in which the ray reaches them.
#[derive(Clone, Copy, Debug, PartialEq, Eq, Structural)]
pub struct Roots {
    pub discriminant: Scalar,
    pub near: Scalar,
    pub far: Scalar,
}

impl Roots {
    /// The crossings are in the order their names give: the far one is not
    /// below the near one. Roots computed from a ray with a direction are.
    pub open spec fn ordered(self) -> bool {
        !self.far.spec_lt(self.near)
    }

    /// The crossing that counts within `window`: none under a negative
    /// discriminant; else the near one where the window surrounds it; else the
    /// far one where the window surrounds that; else none.
    pub open spec fn spec_select(self, window: Interval) -> Option<Scalar> {
        if self.discriminant.spec_lt(Scalar::spec_zero()) {
            None
        } else if window.spec_surrounds(self.near) {
            Some(self.near)
        } else if window.spec_surrounds(self.far) {
            Some(self.far)
        } else {
            None
        }
    }

    /// The crossing that counts within `window`.
    pub fn select(&self, window: Interval) -> (t: Option<Scalar>)
        ensures
            t == self.spec_select(window),
            t matches Some(x) ==> window.spec_surrounds(x),
    {
        if self.discriminant.lt(Scalar::zero()) {
            None
        } else if window.surrounds(self.near) {
            Some(self.near)
        } else if window.surrounds(self.far) {
            Some(self.far)
        } else {
            None
        }
    }
}

/// What is known of the place where a ray meets a surface.
#[derive(Clone, Copy, Debug, PartialEq, Eq, Structural)]
pub struct HitRecord {
    pub point: Point,
    pub normal: Vec3,
    pub material: Material,
    pub t: Scalar,
    pub front_face: bool,
}

impl HitRecord {
    /// Whether a ray meets a surface from outside: its direction runs against
    /// the outward normal, `alignment` being the dot product of the two.
    pub open spec fn spec_front_face(alignment: Scalar) -> bool {
        alignment.spec_lt(Scalar::spec_zero())
    }

    /// The normal that is kept for a hit: the outward one at a front face, its
    /// opposite otherwise.
    pub open spec fn spec_facing_normal(alignment: Scalar, outward_normal: Vec3) -> Vec3 {
        if HitRecord::spec_front_face(alignment) {
            outward_normal
        } else {
            outward_normal.spec_negated()
        }
    }

    /// The record before any hit: zeros, a black matte surface, a back face.
    pub fn default() -> (rec: HitRecord)
        ensures
            rec.point == Vec3::spec_zero(),
            rec.normal == rec.point,
            rec.material == Material::Lambertian(Lambertian { albedo: Color::spec_black() }),
            rec.t == Scalar::spec_zero(),
            !rec.front_face,
    {
        HitRecord {
            point: Vec3::zero(),
            normal: Vec3::zero(),
            material: Material::Lambertian(Lambertian::new(Color::black())),
            front_face: false,
            t: Scalar::zero(),
        }
    }

    /// Sets the side that was hit and the normal, which is made to point
    /// against the ray. `alignment` is the dot product of the ray's direction
    /// with `outward_normal`.
    pub fn set_face_normal(&mut self, alignment: Scalar, outward_normal: Vec3)
        ensures
            final(self).front_face == HitRecord::spec_front_face(alignment),
            final(self).normal == HitRecord::spec_facing_normal(alignment, outward_normal),
            final(self).point == old(self).point,
            final(self).material == old(self).material,
            final(self).t == old(self).t,
    {
        self.front_face = alignment.lt(Scalar::zero());
        if self.front_face {
            self.normal = outward_normal;
        } else {
            self.normal = outward_normal.negated();
        }
    }
}

/// A thing that a ray can hit.
#[derive(Clone, Copy, Debug, PartialEq, Eq, Structural)]
pub enum Hittable {
    Sphere(Sphere),
}

impl Hittable {
    /// The surface of the thing.
    pub open spec fn spec_material(self) -> Material {
        match self {
            Hittable::Sphere(s) => s.spec_material(),
        }
    }

    /// Where along a ray the thing is hit within the window `ray_t`, given the
    /// solved equation of the ray and the thing. A parameter that is returned
    /// lies strictly inside the window.
    pub fn hit(&self, ray_t: Interval, roots: Roots) -> (t: Option<Scalar>)
        ensures
            t == roots.spec_select(ray_t),
            t matches Some(x) ==> ray_t.spec_surrounds(x),
    {
        match self {
            Hittable::Sphere(s) => s.hit(ray_t, roots),
        }
    }

    /// The surface of the thing.
    pub fn material(&self) -> (m: Material)
        ensures
            m == self.spec_material(),
    {
        match self {
            Hittable::Sphere(s) => s.material(),
        }
    }
}

/// The outcome of a search that found something: which object, and where along
/// the ray.
#[derive(Clone, Copy, Debug, PartialEq, Eq, Structural)]
pub struct Nearest {
    pub index: usize,
    pub t: Scalar,
}

/// The objects of a scene, in the order in which they were added.
#[derive(Debug)]
pub struct HittableList {
    pub objects: Vec<Hittable>,
}

/// The window in which the next object is searched: from the near end of the
/// whole window up to the nearest hit so far.
pub open spec fn narrowed(ray_t: Interval, so_far: Option<(int, Scalar)>) -> Interval {
    Interval {
        min: ray_t.min,
        max: match so_far {
            Some(found) => found.1,
            None => ray_t.max,
        },
    }
}

/// The hit that is held after the first `n` objects were searched in turn,
/// each in the window that the ones before it left: the place of the object
/// in the list and the parameter along the ray. `roots[i]` is the solved
/// equation of the ray and the object `i`.
pub open spec fn nearest_among(roots: Seq<Roots>, ray_t: Interval, n: int) -> Option<(int, Scalar)>
    decreases n,
{
    if n <= 0 {
        None
    } else {
        let so_far = nearest_among(roots, ray_t, n - 1);
        match roots[n - 1].spec_select(narrowed(ray_t, so_far)) {
            Some(t) => Some((n - 1, t)),
            None => so_far,
        }
    }
}

/// Whether `found` is the nearest hit within `ray_t` among the first `n`
/// objects, and among equally near ones the first: if it is nothing, none of
/// them is hit; else it is the named object's own hit within the whole window,
/// no object is hit below it, and every object before it is hit strictly above.
pub open spec fn is_nearest(
    roots: Seq<Roots>,
    ray_t: Interval,
    n: int,
    found: Option<(int, Scalar)>,
) -> bool {
    match found {
        None => forall|j: int| 0 <= j < n ==> (#[trigger] roots[j].spec_select(ray_t)) is None,
        Some(best) => {
            &&& 0 <= best.0 < n
            &&& ray_t.spec_surrounds(best.1)
            &&& roots[best.0].spec_select(ray_t) == Some(best.1)
            &&& forall|j: int|
                0 <= j < n ==> not_nearer(#[trigger] roots[j].spec_select(ray_t), best.1, j < best.0)
        },
    }
}

/// Whether a hit, if there is one, is not below `t`, and strictly above it
/// where `strictly` is set.
pub open spec fn not_nearer(hit: Option<Scalar>, t: Scalar, strictly: bool) -> bool {
    match hit {
        Some(other) => t.spec_le(other) && (strictly ==> t.spec_lt(other)),
        None => true,
    }
}

impl Nearest {
    /// The place in the list and the parameter, as the search is specified.
    pub open spec fn spec_found(r: Option<Nearest>) -> Option<(int, Scalar)> {
        match r {
            Some(n) => Some((n.index as int, n.t)),
            None => None,
        }
    }
}

impl HittableList {
    /// A scene without objects.
    pub fn new() -> (list: HittableList)
        ensures
            list.objects@.len() == 0,
    {
        HittableList { objects: Vec::new() }
    }

    /// Adds an object behind the ones that are there.
    pub fn add(&mut self, object: Hittable)
        ensures
            final(self).objects@ == old(self).objects@.push(object),
    {
        self.objects.push(object);
    }

    /// The nearest hit of a ray within the window `ray_t`, where `roots[i]` is
    /// the solved equation of the ray and the object `i`. Every object is
    /// searched, each only below the nearest hit so far, so that a later object
    /// takes the place of an earlier one only where it is hit strictly nearer.
    pub fn hit(&self, ray_t: Interval, roots: &Vec<Roots>) -> (r: Option<Nearest>)
        requires
            roots@.len() == self.objects@.len(),
        ensures
            Nearest::spec_found(r) == nearest_among(roots@, ray_t, roots@.len() as int),
            r matches Some(n) ==> n.index < self.objects@.len() && ray_t.spec_surrounds(n.t),
    {
        let mut best: Option<Nearest> = None;
        let mut closest_so_far: Scalar = ray_t.max;
        let mut i: usize = 0;
        while i < self.objects.len()
            invariant
                i <= self.objects@.len(),
                roots@.len() == self.objects@.len(),
                Nearest::spec_found(best) == nearest_among(roots@, ray_t, i as int),
                closest_so_far == narrowed(ray_t, Nearest::spec_found(best)).max,
                best matches Some(n) ==> n.index < i && ray_t.spec_surrounds(n.t),
            decreases self.objects@.len() - i,
        {
            let window = Interval { min: ray_t.min, max: closest_so_far };
            match self.objects[i].hit(window, roots[i]) {
                Some(t) => {
                    closest_so_far = t;
                    best = Some(Nearest { index: i, t });
                },
                None => {},
            }
            i = i + 1;
        }
        best
    }
}

/// The normal kept for a hit points against the ray: the dot product of the
/// ray's direction with it, which is `alignment` at a front face and its
/// opposite otherwise, is not above zero.
pub proof fn lemma_normal_opposes_ray(alignment: Scalar)
    requires
        !alignment.spec_is_nan(),
    ensures
        HitRecord::spec_front_face(alignment) ==> alignment.spec_lt(Scalar::spec_zero()),
        !HitRecord::spec_front_face(alignment) ==> alignment.spec_negated().spec_le(
            Scalar::spec_zero(),
        ),
{
}

/// What the search holds after `n` objects is the nearest of their hits within
/// the whole window, and among equally near ones the first.
proof fn lemma_nearest_prefix(roots: Seq<Roots>, ray_t: Interval, n: int)
    requires
        0 <= n <= roots.len(),
        forall|i: int| 0 <= i < roots.len() ==> (#[trigger] roots[i]).ordered(),
    ensures
        is_nearest(roots, ray_t, n, nearest_among(roots, ray_t, n)),
    decreases n,
{
    if n > 0 {
        lemma_nearest_prefix(roots, ray_t, n - 1);
        let so_far = nearest_among(roots, ray_t, n - 1);
        let window = narrowed(ray_t, so_far);
        let cur = roots[n - 1];
        let now = nearest_among(roots, ray_t, n);
        assert(cur.ordered());
        match so_far {
            None => {
                assert(window == ray_t);
                match cur.spec_select(ray_t) {
                    Some(t) => {
                        assert forall|j: int| 0 <= j < n implies not_nearer(
                            #[trigger] roots[j].spec_select(ray_t),
                            t,
                            j < n - 1,
                        ) by {
                            if j < n - 1 {
                                assert(roots[j].spec_select(ray_t) is None);
                            }
                        }
                    },
                    None => {
                        assert forall|j: int| 0 <= j < n implies (#[trigger] roots[j].spec_select(
                            ray_t,
                        )) is None by {
                            if j < n - 1 {
                                assert(roots[j].spec_select(ray_t) is None);
                            }
                        }
                    },
                }
            },
            Some(best) => {
                assert(ray_t.spec_surrounds(best.1));
                match cur.spec_select(window) {
                    Some(t) => {
                        assert(window.spec_surrounds(t));
                        assert(t.spec_lt(best.1));
                        assert(ray_t.spec_surrounds(t));
                        assert(cur.spec_select(ray_t) == Some(t));
                        assert forall|j: int| 0 <= j < n implies not_nearer(
                            #[trigger] roots[j].spec_select(ray_t),
                            t,
                            j < n - 1,
                        ) by {
                            if j < n - 1 {
                                assert(not_nearer(roots[j].spec_select(ray_t), best.1, j < best.0));
                            }
                        }
                    },
                    None => {
                        assert(not_nearer(cur.spec_select(ray_t), best.1, false));
                        assert forall|j: int| 0 <= j < n implies not_nearer(
                            #[trigger] roots[j].spec_select(ray_t),
                            best.1,
                            j < best.0,
                        ) by {
                            if j < n - 1 {
                                assert(not_nearer(roots[j].spec_select(ray_t), best.1, j < best.0));
                            }
                        }
                    },
                }
            },
        }
    }
}

/// The search returns the globally nearest hit, not merely the first found.
///
/// Let every object's crossings be in order. If the search returns nothing,
/// no object is hit within the window. If it returns an object and a
/// parameter, that is this object's own hit within the whole window, no object
/// is hit below that parameter, and every object before it in the list is hit
/// strictly above.
pub proof fn lemma_hit_is_nearest(roots: Seq<Roots>, ray_t: Interval)
    requires
        forall|i: int| 0 <= i < roots.len() ==> (#[trigger] roots[i]).ordered(),
    ensures
        is_nearest(roots, ray_t, roots.len() as int, nearest_among(roots, ray_t, roots.len() as int)),
{
    lemma_nearest_prefix(roots, ray_t, roots.len() as int);
}

} // verus!
