//! World-space rays: an origin point and a direction.

use vstd::prelude::*;
use crate::iso::{transform_point_spec, transform_vector_spec, Isometry};
use crate::vec::Vec3;

verus! {

/// A ray: origin point plus direction.  Directions are kept unit-length
/// within fixed-point tolerance by the code that builds them.
#[derive(Clone, Copy, Debug, PartialEq, Eq, Structural)]
pub struct Ray {
    pub origin: Vec3,
    pub direction: Vec3,
}

/// The model of `Ray::apply_isometry`.
pub open spec fn ray_apply_isometry_spec(ray: Ray, iso: Isometry) -> Ray {
    Ray {
        origin: transform_point_spec(iso, ray.origin),
        direction: transform_vector_spec(iso, ray.direction),
    }
}

impl Ray {
    /// Map the ray through a rigid transform: the origin as a point, the
    /// direction as a vector (no translation).
    pub fn apply_isometry(&self, isometry: &Isometry) -> (r: Ray)
        ensures
            r == ray_apply_isometry_spec(*self, *isometry),
    {
        Ray {
            origin: isometry.transform_point(&self.origin),
            direction: isometry.transform_vector(&self.direction),
        }
    }
}

} // verus!
