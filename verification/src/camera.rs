//! The camera: what it is set up with, and what is worked out from that.

use vstd::prelude::*;
use crate::scalar::Scalar;
use crate::vec3::{Point, Vec3};

verus! {

/// The encoding of sixteen ninths, the aspect ratio of a camera as it comes.
pub const WIDE_ASPECT_BITS: u64 = 0x3FFC_71C7_1C71_C71C;

/// The encoding of ninety, the vertical field of view of a camera as it comes,
/// in degrees.
pub const RIGHT_ANGLE_BITS: u64 = 0x4056_8000_0000_0000;

/// The encoding of ten, the focus distance of a camera as it comes.
pub const TEN_BITS: u64 = 0x4024_0000_0000_0000;

/// What is worked out once from the settings of a camera and then only read:
/// the weight of one sample, the place of the first pixel and the steps from
/// pixel to pixel, the three axes of the camera, and the two radii of the lens.
#[derive(Clone, Copy, Debug, PartialEq, Eq, Structural)]
pub struct Frame {
    pub pixel_samples_scale: Scalar,
    pub pixel00_loc: Point,
    pub pixel_delta_u: Vec3,
    pub pixel_delta_v: Vec3,
    pub u: Vec3,
    pub v: Vec3,
    pub w: Vec3,
    pub defocus_disk_u: Vec3,
    pub defocus_disk_v: Vec3,
}

/// A camera: its settings, and what `initialize` has worked out from them.
#[derive(Clone, Copy, Debug, PartialEq, Eq, Structural)]
pub struct Camera {
    pub aspect_ratio: Scalar,
    pub samples_per_pixel: u32,
    pub max_depth: u32,
    pub image_width: u32,
    pub vfov: Scalar,
    pub lookfrom: Point,
    pub lookat: Point,
    pub vup: Vec3,
    pub defocus_angle: Scalar,
    pub focus_dist: Scalar,
    pub image_height: u32,
    pub camera_center: Point,
    pub frame: Frame,
}

impl Frame {
    /// The frame in which everything is zero.
    pub open spec fn spec_zero() -> Frame {
        Frame {
            pixel_samples_scale: Scalar::spec_zero(),
            pixel00_loc: Vec3::spec_zero(),
            pixel_delta_u: Vec3::spec_zero(),
            pixel_delta_v: Vec3::spec_zero(),
            u: Vec3::spec_zero(),
            v: Vec3::spec_zero(),
            w: Vec3::spec_zero(),
            defocus_disk_u: Vec3::spec_zero(),
            defocus_disk_v: Vec3::spec_zero(),
        }
    }

    /// The frame in which everything is zero.
    pub fn zero() -> (f: Frame)
        ensures
            f == Frame::spec_zero(),
    {
        Frame {
            pixel_samples_scale: Scalar::zero(),
            pixel00_loc: Vec3::zero(),
            pixel_delta_u: Vec3::zero(),
            pixel_delta_v: Vec3::zero(),
            u: Vec3::zero(),
            v: Vec3::zero(),
            w: Vec3::zero(),
            defocus_disk_u: Vec3::zero(),
            defocus_disk_v: Vec3::zero(),
        }
    }
}

impl Camera {
    /// The camera as it comes: 400 pixels wide at sixteen to nine, a hundred
    /// samples a pixel, fifty bounces, a field of view of ninety degrees, no
    /// blur, the focus ten away; placed at the origin, and nothing worked out.
    pub open spec fn spec_default() -> Camera {
        Camera {
            aspect_ratio: Scalar { bits: WIDE_ASPECT_BITS },
            samples_per_pixel: 100,
            max_depth: 50,
            image_width: 400,
            vfov: Scalar { bits: RIGHT_ANGLE_BITS },
            lookfrom: Vec3::spec_zero(),
            lookat: Vec3::spec_zero(),
            vup: Vec3::spec_zero(),
            defocus_angle: Scalar::spec_zero(),
            focus_dist: Scalar { bits: TEN_BITS },
            image_height: 0,
            camera_center: Vec3::spec_zero(),
            frame: Frame::spec_zero(),
        }
    }

    /// The number of pixel rows: the quotient of width and aspect ratio,
    /// rounded to the nearest whole number, and at least one.
    pub open spec fn spec_image_height(quotient: Scalar) -> int {
        if quotient.spec_round_to_u32() < 1 {
            1
        } else {
            quotient.spec_round_to_u32()
        }
    }

    /// The number of pixel rows of an image, given `quotient`, its width
    /// divided by its aspect ratio.
    pub fn image_height(quotient: Scalar) -> (h: u32)
        ensures
            h == Camera::spec_image_height(quotient),
            h >= 1,
    {
        let rounded: u32 = quotient.round_to_u32();
        if rounded < 1 {
            1
        } else {
            rounded
        }
    }

    /// Takes in what was worked out from the settings: the number of rows from
    /// `quotient`, the image width divided by the aspect ratio; the centre,
    /// which is the point looked from; and `frame`. The settings stay.
    pub fn initialize(&mut self, quotient: Scalar, frame: Frame)
        ensures
            *final(self) == (Camera {
                image_height: Camera::spec_image_height(quotient) as u32,
                camera_center: old(self).lookfrom,
                frame: frame,
                ..*old(self)
            }),
            final(self).image_height >= 1,
    {
        self.image_height = Camera::image_height(quotient);
        self.camera_center = self.lookfrom;
        self.frame = frame;
    }

    /// Whether every ray starts at the centre of the camera: the defocus
    /// angle is zero or less. Otherwise a ray starts at a point drawn from
    /// the lens.
    pub fn pinhole(&self) -> (r: bool)
        ensures
            r == self.defocus_angle.spec_le(Scalar::spec_zero()),
    {
        self.defocus_angle.le(Scalar::zero())
    }

    /// Where a ray starts: at the centre of a pinhole camera, and else at
    /// `lens_sample`, a point drawn from the lens.
    pub fn ray_origin(&self, lens_sample: Point) -> (p: Point)
        ensures
            p == if self.defocus_angle.spec_le(Scalar::spec_zero()) {
                self.camera_center
            } else {
                lens_sample
            },
    {
        if self.pinhole() {
            self.camera_center
        } else {
            lens_sample
        }
    }
}

impl Default for Camera {
    fn default() -> (c: Camera)
        ensures
            c == Camera::spec_default(),
    {
        Camera {
            aspect_ratio: Scalar::from_bits(WIDE_ASPECT_BITS),
            samples_per_pixel: 100,
            max_depth: 50,
            image_width: 400,
            vfov: Scalar::from_bits(RIGHT_ANGLE_BITS),
            lookfrom: Vec3::zero(),
            lookat: Vec3::zero(),
            vup: Vec3::zero(),
            defocus_angle: Scalar::zero(),
            focus_dist: Scalar::from_bits(TEN_BITS),
            image_height: 0,
            camera_center: Vec3::zero(),
            frame: Frame::zero(),
        }
    }
}

} // verus!
