//! A generative "warped magnetic field" texture: a grid of candidate marks is
//! thinned by a distance-based Bernoulli test around a reactive anchor, and
//! the surviving marks are displaced by two independent samples of a coherent
//! noise field.
//!
//! All geometry is carried in fixed-point milli-pixel units (one pixel is
//! `SUBPIXEL` units), so that every rule of the sampler and of the warp is
//! stated and proved over exact integer arithmetic. Sampling the noise field
//! itself is left to the caller, who hands the samples back as fixed-point
//! values in `[-NOISE_UNIT, NOISE_UNIT]`.

use vstd::prelude::*;

pub mod config;
pub mod entropy;
pub mod field;
pub mod grid;
pub mod sampler;
pub mod stream;
pub mod warp;

verus! {

/// Milli-pixel units per pixel: the fixed-point scale of all coordinates.
pub const SUBPIXEL: i64 = 1000;

/// Largest magnitude, in milli-pixels, accepted for a surface dimension or an
/// anchor coordinate; keeps every intermediate product inside `u128`.
pub const COORD_MAX: i64 = 500_000_000;

/// A planar position in milli-pixel units.
#[derive(Clone, Copy, PartialEq, Eq, Structural, Debug)]
pub struct Point {
    pub x: i64,
    pub y: i64,
}

impl Point {
    /// Builds the point `(x, y)`.
    pub fn new(x: i64, y: i64) -> (p: Point)
        ensures
            p.x == x,
            p.y == y,
    {
        Point { x, y }
    }
}

} // verus!
