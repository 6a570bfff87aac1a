//! Planes: one-sided, optionally bounded by rectangular half-extents.

use vstd::prelude::*;
use crate::fx::{clip, fx_div, fx_div_spec, iabs, sat_abs};
use crate::iso::{inverse_spec, Isometry, Mat3};
use crate::material::Material;
use crate::ray::{ray_apply_isometry_spec, Ray};
use crate::shapes::{cast_info_apply_isometry_spec, CastInfo};
use crate::vec::{vadd_spec, vdot_spec, vnormalize_spec, vscale_spec, vsub_spec, Vec3};

verus! {

/// A plane: unit normal and center in local space, optional half-extents
/// on the local x and z axes (absent means unbounded on that axis), a
/// material, and the cached object/world isometries.
#[derive(Clone, Copy, Debug)]
pub struct Plane {
    pub normal: Vec3,
    pub center: Vec3,
    pub size: (Option<i64>, Option<i64>),
    pub material: Material,
    pub world_to_object: Isometry,
    pub object_to_world: Isometry,
}

/// The model of `Plane::new`: the world placement is baked into the
/// cached isometries and the local center is the origin.
pub open spec fn spec_plane_new(
    normal: Vec3,
    center: Vec3,
    size: (Option<i64>, Option<i64>),
    rotation: Mat3,
    material: Material,
) -> Plane {
    let model_matrix = Isometry { rotation, translation: center };
    Plane {
        normal,
        center: Vec3 { x: 0, y: 0, z: 0 },
        size,
        material,
        object_to_world: model_matrix,
        world_to_object: inverse_spec(model_matrix),
    }
}

/// The incoming world ray, seen in the plane's object space.
pub open spec fn plane_object_ray_spec(p: Plane, world_ray: Ray) -> Ray {
    ray_apply_isometry_spec(world_ray, p.world_to_object)
}

/// The denominator `n · D` of the intersection parameter; hits require
/// it negative (the plane is one-sided, back faces are culled).
pub open spec fn plane_denominator_spec(p: Plane, world_ray: Ray) -> int {
    vdot_spec(p.normal, plane_object_ray_spec(p, world_ray).direction)
}

/// The intersection parameter `t = (C - O) · n / (D · n)`.
pub open spec fn plane_t_spec(p: Plane, world_ray: Ray) -> int {
    let ray = plane_object_ray_spec(p, world_ray);
    fx_div_spec(
        vdot_spec(vsub_spec(p.center, ray.origin), p.normal),
        plane_denominator_spec(p, world_ray),
    )
}

/// The object-space hit point `O + t D`.
pub open spec fn plane_point_hit_spec(p: Plane, world_ray: Ray) -> Vec3 {
    let ray = plane_object_ray_spec(p, world_ray);
    vadd_spec(ray.origin, vscale_spec(ray.direction, plane_t_spec(p, world_ray)))
}

/// Whether the hit point lies within the configured half-extents: on each
/// bounded axis, the offset from the local center may not exceed the
/// bound; an absent bound accepts everything on that axis.
pub open spec fn plane_within_bounds_spec(p: Plane, world_ray: Ray) -> bool {
    let d2c = vsub_spec(plane_point_hit_spec(p, world_ray), p.center);
    &&& (p.size.0 matches Some(x_bound) ==> clip(iabs(d2c.x as int)) <= x_bound)
    &&& (p.size.1 matches Some(z_bound) ==> clip(iabs(d2c.z as int)) <= z_bound)
}

/// The model of `Plane::cast_ray`: a hit exactly when the denominator is
/// negative, the parameter non-negative, and the hit point within the
/// configured bounds; the record is mapped back to world space.
#[verifier::opaque]
pub open spec fn spec_plane_cast(p: Plane, world_ray: Ray) -> Option<CastInfo> {
    let ray = plane_object_ray_spec(p, world_ray);
    if plane_denominator_spec(p, world_ray) >= 0 {
        Option::None
    } else if plane_t_spec(p, world_ray) < 0 {
        Option::None
    } else if !plane_within_bounds_spec(p, world_ray) {
        Option::None
    } else {
        let point_hit = plane_point_hit_spec(p, world_ray);
        Option::Some(
            cast_info_apply_isometry_spec(
                CastInfo {
                    normal: p.normal,
                    pointing_to_viewer: vnormalize_spec(vsub_spec(ray.origin, point_hit)),
                    point_hit,
                    distance: plane_t_spec(p, world_ray) as i64,
                    material: p.material,
                    casted: 0,
                },
                p.object_to_world,
            ),
        )
    }
}

impl Plane {
    /// Build a plane placed by a rotation and a world-space center; the
    /// plane itself lives at the local origin.
    pub fn new(
        normal: Vec3,
        center: Vec3,
        size: (Option<i64>, Option<i64>),
        rotation: Mat3,
        material: Material,
    ) -> (p: Plane)
        ensures
            p == spec_plane_new(normal, center, size, rotation, material),
    {
        let model_matrix = Isometry::new(rotation, center);
        Plane {
            normal,
            center: Vec3::zero(),
            size,
            material,
            object_to_world: model_matrix,
            world_to_object: model_matrix.inverse(),
        }
    }

    /// Intersect a world-space ray: front-side forward hits within the
    /// configured half-extents, and nothing otherwise.
    pub fn cast_ray(&self, world_ray: &Ray) -> (r: Option<CastInfo>)
        ensures
            r == spec_plane_cast(*self, *world_ray),
            r is Some <==> plane_denominator_spec(*self, *world_ray) < 0
                && plane_t_spec(*self, *world_ray) >= 0
                && plane_within_bounds_spec(*self, *world_ray),
            r matches Some(info) ==> info.distance >= 0,
            r matches Some(info) ==> info.material == self.material,
    {
        proof {
            reveal(spec_plane_cast);
        }
        let ray = world_ray.apply_isometry(&self.world_to_object);
        let denominator = self.normal.dot(&ray.direction);
        if denominator >= 0 {
            return None;
        }
        let t = fx_div(self.center.sub(&ray.origin).dot(&self.normal), denominator);
        if t < 0 {
            return None;
        }
        let point_hit = ray.origin.add(&ray.direction.scale(t));
        let distance_to_center = point_hit.sub(&self.center);
        match self.size.0 {
            Some(x_bound) => {
                if sat_abs(distance_to_center.x) > x_bound {
                    return None;
                }
            },
            None => {},
        }
        match self.size.1 {
            Some(z_bound) => {
                if sat_abs(distance_to_center.z) > z_bound {
                    return None;
                }
            },
            None => {},
        }
        Some(
            CastInfo {
                normal: self.normal,
                pointing_to_viewer: ray.origin.sub(&point_hit).normalize(),
                point_hit,
                distance: t,
                material: self.material,
                casted: 0,
            }.apply_isometry(&self.object_to_world),
        )
    }
}

/// Relaxing the half-extents cannot lose a hit: a plane that differs only
/// by having no configured bounds hits whenever the bounded plane's
/// forward intersection exists at all, and the bounded plane hits exactly
/// when that intersection also lies within its bounds.
pub proof fn lemma_plane_unbounded_restores_hit(p: Plane, q: Plane, world_ray: Ray)
    requires
        q.normal == p.normal,
        q.center == p.center,
        q.material == p.material,
        q.world_to_object == p.world_to_object,
        q.object_to_world == p.object_to_world,
        q.size == (Option::<i64>::None, Option::<i64>::None),
        plane_denominator_spec(p, world_ray) < 0,
        plane_t_spec(p, world_ray) >= 0,
    ensures
        spec_plane_cast(q, world_ray) is Some,
        spec_plane_cast(p, world_ray) is Some <==> plane_within_bounds_spec(p, world_ray),
{
    reveal(spec_plane_cast);
    assert(plane_object_ray_spec(q, world_ray) == plane_object_ray_spec(p, world_ray));
    assert(plane_denominator_spec(q, world_ray) == plane_denominator_spec(p, world_ray));
    assert(plane_t_spec(q, world_ray) == plane_t_spec(p, world_ray));
    assert(plane_within_bounds_spec(q, world_ray));
}

} // verus!
