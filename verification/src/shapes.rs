//! Shape primitives, the canonical hit record, and the nearest-hit policy.

use vstd::prelude::*;
use crate::iso::{transform_point_spec, transform_vector_spec, Isometry};
use crate::material::{material_wf, Material, MaterialType};
use crate::ray::Ray;
use crate::vec::Vec3;

pub mod plane;
pub mod sphere;

use plane::Plane;
use sphere::Sphere;

verus! {

/// The result of a successful ray/shape intersection: distance along the
/// ray, world-space hit point and unit normal, the unit vector back
/// toward the ray origin, a copy of the hit material, and the index of
/// the shape hit in the scene's shape list.
#[derive(Clone, Copy, Debug, PartialEq, Eq, Structural)]
pub struct CastInfo {
    pub normal: Vec3,
    pub pointing_to_viewer: Vec3,
    pub point_hit: Vec3,
    pub distance: i64,
    pub material: Material,
    pub casted: usize,
}

/// The model of `CastInfo::apply_isometry`: directions rotate, the point
/// also translates, and everything else is kept.
pub open spec fn cast_info_apply_isometry_spec(info: CastInfo, iso: Isometry) -> CastInfo {
    CastInfo {
        normal: transform_vector_spec(iso, info.normal),
        pointing_to_viewer: transform_vector_spec(iso, info.pointing_to_viewer),
        point_hit: transform_point_spec(iso, info.point_hit),
        distance: info.distance,
        material: info.material,
        casted: info.casted,
    }
}

impl CastInfo {
    /// Map a hit record through a rigid transform.  The translation
    /// applies only to the hit point, never to the two directions.
    pub fn apply_isometry(&self, isometry: &Isometry) -> (r: CastInfo)
        ensures
            r == cast_info_apply_isometry_spec(*self, *isometry),
    {
        CastInfo {
            normal: isometry.transform_vector(&self.normal),
            pointing_to_viewer: isometry.transform_vector(&self.pointing_to_viewer),
            point_hit: isometry.transform_point(&self.point_hit),
            distance: self.distance,
            material: self.material,
            casted: self.casted,
        }
    }
}

/// The model of `get_nearest_cast_info`: prefer the smaller distance;
/// on a tie, or when only one side hit, keep the first argument.
pub open spec fn nearest_cast_info_spec(
    a: Option<CastInfo>,
    b: Option<CastInfo>,
) -> Option<CastInfo> {
    match a {
        Option::None => b,
        Option::Some(ai) => match b {
            Option::None => Option::Some(ai),
            Option::Some(bi) => if ai.distance > bi.distance {
                Option::Some(bi)
            } else {
                Option::Some(ai)
            },
        },
    }
}

/// Combine two optional hits, keeping the nearer one (ties keep the
/// first).
pub fn get_nearest_cast_info(a: Option<CastInfo>, b: Option<CastInfo>) -> (r: Option<CastInfo>)
    ensures
        r == nearest_cast_info_spec(a, b),
{
    match a {
        None => b,
        Some(a_info) => match b {
            None => Some(a_info),
            Some(b_info) => {
                if a_info.distance > b_info.distance {
                    Some(b_info)
                } else {
                    Some(a_info)
                }
            },
        },
    }
}

/// A scene shape: the closed set of primitives, each carrying its own
/// geometry, material and cached isometries.
#[derive(Clone, Copy, Debug)]
pub enum Shape {
    Sphere(Sphere),
    Plane(Plane),
}

/// The model of `Shape::cast_ray`: dispatch to the primitive's model.
pub open spec fn spec_shape_cast(s: Shape, world_ray: Ray) -> Option<CastInfo> {
    match s {
        Shape::Sphere(sp) => sphere::spec_sphere_cast(sp, world_ray),
        Shape::Plane(pl) => plane::spec_plane_cast(pl, world_ray),
    }
}

/// The material carried by a shape.
pub open spec fn spec_shape_material(s: Shape) -> Material {
    match s {
        Shape::Sphere(sp) => sp.material,
        Shape::Plane(pl) => pl.material,
    }
}

/// Well-formedness of a shape: its material is well-formed.
pub open spec fn shape_wf(s: Shape) -> bool {
    material_wf(spec_shape_material(s))
}

/// Whether a shape occludes lights: every shape does except transparent
/// (refractive) ones, which do not cast hard shadows.
pub open spec fn spec_shape_shadow_casting(s: Shape) -> bool {
    !(spec_shape_material(s).material_type is Refraction)
}

impl Shape {
    /// Intersect a world-space ray with this shape.
    pub fn cast_ray(&self, world_ray: &Ray) -> (r: Option<CastInfo>)
        ensures
            r == spec_shape_cast(*self, *world_ray),
            r matches Some(info) ==> info.distance >= 0,
            r matches Some(info) ==> info.material == spec_shape_material(*self),
    {
        match self {
            Shape::Sphere(sp) => sp.cast_ray(world_ray),
            Shape::Plane(pl) => pl.cast_ray(world_ray),
        }
    }

    /// Whether this shape occludes lights in shadow tests.
    pub fn is_shadow_casting(&self) -> (r: bool)
        ensures
            r == spec_shape_shadow_casting(*self),
    {
        match self {
            Shape::Sphere(sp) => !(matches!(sp.material.material_type, MaterialType::Refraction { .. })),
            Shape::Plane(pl) => !(matches!(pl.material.material_type, MaterialType::Refraction { .. })),
        }
    }
}

} // verus!
