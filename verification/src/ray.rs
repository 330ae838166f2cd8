//! Rays, and the course of a path through the scene.

use vstd::prelude::*;
use crate::color::Color;
use crate::interval::Interval;
use crate::materials::Scatter;
use crate::scalar::{Scalar, INFINITY_BITS};
use crate::vec3::{Point, Vec3};

verus! {

/// The encoding of 0.001: a hit nearer than this to the origin of a ray is
/// taken for the surface that the ray has just left.
pub const NEAR_CUT_BITS: u64 = 0x3F50_624D_D2F1_A9FC;

/// A half line: the points `origin + t * direction`. The direction need not
/// have unit length.
#[derive(Clone, Copy, Debug, PartialEq, Eq, Structural)]
pub struct Ray {
    pub origin: Point,
    pub direction: Vec3,
}

impl Ray {
    /// The ray from the origin with no direction.
    pub fn default() -> (r: Ray)
        ensures
            r.origin == Vec3::spec_zero(),
            r.direction == r.origin,
    {
        Ray { origin: Vec3::zero(), direction: Vec3::zero() }
    }

    /// The window in which a ray of a path is searched for hits: above 0.001,
    /// so that the surface just left is not hit again, and without end.
    pub fn search_window() -> (w: Interval)
        ensures
            w.min.bits == NEAR_CUT_BITS,
            w.max.bits == INFINITY_BITS,
    {
        Interval { min: Scalar::from_bits(NEAR_CUT_BITS), max: Scalar::infinity() }
    }

    /// The path that starts with this ray and may take `depth` bounces.
    pub fn trace(self, depth: u32) -> (p: Path)
        ensures
            p@ == Course::begin(self, depth),
    {
        Path { ray: self, depth, attenuations: Vec::new(), stopped: None }
    }
}

/// What a ray met.
#[derive(Clone, Copy, Debug, PartialEq, Eq, Structural)]
pub enum Bounce {
    /// Nothing: the ray leaves the scene.
    Miss,
    /// A surface, which absorbed the ray (`None`) or sent it on.
    Hit(Option<Scatter>),
}

/// How a path ended.
#[derive(Clone, Copy, Debug, PartialEq, Eq, Structural)]
pub enum PathEnd {
    /// The last ray left the scene and sees the sky.
    Background,
    /// A surface absorbed the last ray.
    Absorbed,
    /// The bounces that the path was given are used up.
    DepthExhausted,
}

/// A path in the course of being traced: the ray to follow next, the bounces
/// left, what the surfaces met so far pass on, and whether it has ended.
#[derive(Debug)]
pub struct Path {
    pub ray: Ray,
    pub depth: u32,
    pub attenuations: Vec<Color>,
    pub stopped: Option<PathEnd>,
}

/// The mathematical content of a `Path`.
pub struct Course {
    pub ray: Ray,
    pub depth: nat,
    pub attenuations: Seq<Color>,
    pub stopped: Option<PathEnd>,
}

impl Course {
    /// The course before the first ray is followed.
    pub open spec fn begin(ray: Ray, depth: u32) -> Course {
        Course { ray, depth: depth as nat, attenuations: Seq::empty(), stopped: None }
    }

    /// How the course ended, or `None` while a ray is still to be followed. A
    /// course without bounces left has ended, whatever its ray would meet.
    pub open spec fn end(self) -> Option<PathEnd> {
        match self.stopped {
            Some(e) => Some(e),
            None => if self.depth == 0 {
                Some(PathEnd::DepthExhausted)
            } else {
                None
            },
        }
    }

    /// The course after its ray met `bounce`. A course that has ended stays as
    /// it is.
    pub open spec fn step(self, bounce: Bounce) -> Course {
        if self.end() is Some {
            self
        } else {
            match bounce {
                Bounce::Miss => Course { stopped: Some(PathEnd::Background), ..self },
                Bounce::Hit(None) => Course { stopped: Some(PathEnd::Absorbed), ..self },
                Bounce::Hit(Some(s)) => Course {
                    ray: s.scattered,
                    depth: (self.depth - 1) as nat,
                    attenuations: self.attenuations.push(s.attenuation),
                    stopped: None,
                },
            }
        }
    }

    /// The course after its rays met `bounces` in turn.
    pub open spec fn run(self, bounces: Seq<Bounce>) -> Course
        decreases bounces.len(),
    {
        if bounces.len() == 0 {
            self
        } else {
            self.step(bounces[0]).run(bounces.subrange(1, bounces.len() as int))
        }
    }

    /// The colour that the last ray of an ended course contributes, before
    /// the surfaces on the way take their share: `sky` where the ray left the
    /// scene, black where it was absorbed or the bounces ran out.
    pub open spec fn base_color(self, sky: Color) -> Color {
        match self.end() {
            Some(PathEnd::Background) => sky,
            _ => Color::spec_black(),
        }
    }
}

impl View for Path {
    type V = Course;

    open spec fn view(&self) -> Course {
        Course {
            ray: self.ray,
            depth: self.depth as nat,
            attenuations: self.attenuations@,
            stopped: self.stopped,
        }
    }
}

impl Path {
    /// How the path ended, or `None` while a ray is still to be followed.
    pub fn end(&self) -> (e: Option<PathEnd>)
        ensures
            e == self@.end(),
    {
        match self.stopped {
            Some(e) => Some(e),
            None => if self.depth == 0 {
                Some(PathEnd::DepthExhausted)
            } else {
                None
            },
        }
    }

    /// Takes note of what the ray of the path met. On a miss the path ends in
    /// the sky; on a hit that absorbs it ends there; on a hit that scatters,
    /// the scattered ray is followed next, with one bounce less, and the
    /// attenuation is kept. A path that has ended stays as it is.
    pub fn advance(&mut self, bounce: Bounce)
        ensures
            final(self)@ == old(self)@.step(bounce),
    {
        if self.end().is_some() {
            return ;
        }
        match bounce {
            Bounce::Miss => {
                self.stopped = Some(PathEnd::Background);
            },
            Bounce::Hit(None) => {
                self.stopped = Some(PathEnd::Absorbed);
            },
            Bounce::Hit(Some(s)) => {
                self.ray = s.scattered;
                self.depth = self.depth - 1;
                self.attenuations.push(s.attenuation);
            },
        }
    }

    /// The colour that the last ray of the path contributes once the path has
    /// ended, before the attenuations are applied to it; `None` while a ray is
    /// still to be followed. `sky` is the colour of the background in the
    /// direction of the last ray.
    pub fn base_color(&self, sky: Color) -> (c: Option<Color>)
        ensures
            c == if self@.end() is Some {
                Some(self@.base_color(sky))
            } else {
                None
            },
    {
        match self.end() {
            None => None,
            Some(PathEnd::Background) => Some(sky),
            Some(_) => Some(Color::black()),
        }
    }
}

/// A path never takes more bounces than it was given: after any run, the
/// attenuations kept and the bounces left add up to the depth at the start.
pub proof fn lemma_bounces_bounded(ray: Ray, depth: u32, bounces: Seq<Bounce>)
    ensures
        ({
            let c = Course::begin(ray, depth).run(bounces);
            c.attenuations.len() + c.depth == depth && c.attenuations.len() <= bounces.len()
        }),
{
    lemma_run_budget(Course::begin(ray, depth), bounces);
}

/// A run keeps the sum of attenuations and bounces left, and keeps at most one
/// attenuation for each thing met.
proof fn lemma_run_budget(c: Course, bounces: Seq<Bounce>)
    ensures
        c.run(bounces).attenuations.len() + c.run(bounces).depth == c.attenuations.len() + c.depth,
        c.attenuations.len() <= c.run(bounces).attenuations.len() <= c.attenuations.len()
            + bounces.len(),
    decreases bounces.len(),
{
    if bounces.len() > 0 {
        lemma_run_budget(c.step(bounces[0]), bounces.subrange(1, bounces.len() as int));
    }
}

/// A course that has ended is not changed by anything further.
pub proof fn lemma_ended_stays(c: Course, bounces: Seq<Bounce>)
    requires
        c.end() is Some,
    ensures
        c.run(bounces) == c,
    decreases bounces.len(),
{
    if bounces.len() > 0 {
        lemma_ended_stays(c, bounces.subrange(1, bounces.len() as int));
    }
}

/// A path that is given no bounce is black, whatever the scene holds: it has
/// ended before its ray is followed, no surface has a share in it, and the
/// colour it contributes is black under every sky.
pub proof fn lemma_no_depth_is_black(ray: Ray, bounces: Seq<Bounce>, sky: Color)
    ensures
        ({
            let c = Course::begin(ray, 0).run(bounces);
            &&& c.end() == Some(PathEnd::DepthExhausted)
            &&& c.attenuations.len() == 0
            &&& c.base_color(sky) == Color::spec_black()
        }),
{
    lemma_ended_stays(Course::begin(ray, 0), bounces);
}

} // verus!
