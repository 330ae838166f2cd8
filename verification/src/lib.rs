//! The exact core of a sphere path tracer.
//!
//! A path tracer computes with binary64 numbers. Most of what it computes is
//! rounded: sums, products, quotients, roots. The rest is exact: which of two
//! numbers is smaller, whether a parameter lies in a window, a change of sign,
//! the conversion between numbers and whole numbers, and everything that is
//! decided on such grounds: which intersection is the nearest, when a surface
//! absorbs a ray, when a path has used up its bounces, how bright a pixel is
//! shown.
//!
//! This crate holds the exact part. It carries a number as the sixty-four bits
//! of its encoding (see [`scalar::Scalar`]) and states what it does over the
//! integers that the encodings stand for. The rounded arithmetic is left to the
//! caller, who hands its results in: a function here that needs a dot product
//! or the roots of an equation takes them as arguments.

pub mod camera;
pub mod color;
pub mod hittable;
pub mod interval;
pub mod materials;
pub mod ray;
pub mod scalar;
pub mod shapes;
pub mod value;
pub mod vec3;
