//! A ray tracer over fixed-point reals: affine transforms, ray and shape
//! intersection, recursive shading, and a camera that renders a world
//! into a canvas.
//!
//! Every number is a `fixed::Fixed`. A world is ready to be rendered when
//! `World::is_wf` holds of it and `Matrix::is_usable` of the camera's
//! transform; under these two conditions no function of the render takes
//! the inverse of a singular matrix or the dot product of a point.
use crate::fixed::Fixed;
use vstd::prelude::*;

pub mod canvas;
pub mod decimal;
pub mod fixed;
pub mod lighting;
pub mod matrices;
pub mod rays;
pub mod shapes;
pub mod tuple;
pub mod world;
pub mod yaml;

verus! {

/// How many times in a row a ray is followed through a reflection or a
/// refraction.
pub const REFLECTION_RECURSION_DEPTH: usize = 7;

/// Tolerance, in raw units, of `float_eq`.
pub const FLOAT_EPSILON: i64 = 1_000;

/// Whether two numbers differ by less than a millionth.
pub fn float_eq(a: Fixed, b: Fixed) -> (r: bool)
    ensures
        r == a.within(b, Fixed { raw: FLOAT_EPSILON }),
{
    a.is_within(b, Fixed::from_raw(FLOAT_EPSILON))
}

} // verus!
