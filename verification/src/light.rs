//! Point lights with inverse-square falloff.

use vstd::prelude::*;
use crate::color::Color;
use crate::ray::Ray;

verus! {

/// A point light: position (the ray's origin), color, and fixed-point
/// intensity.  The ray's direction is carried along but unused by the
/// shading computation.
#[derive(Clone, Copy, Debug, PartialEq, Eq, Structural)]
pub struct PointLight {
    pub ray: Ray,
    pub color: Color,
    pub intensity: i64,
}

} // verus!
