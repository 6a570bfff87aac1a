//! Spheres: quadratic ray intersection in object space.

use vstd::prelude::*;
use crate::fx::{
    clip, fx_div, fx_div_spec, fx_mul, fx_mul_spec, fx_sqrt, fx_sqrt_spec, iabs,
    lemma_fx_div_spec_exact, lemma_fx_mul_spec_exact, lemma_fx_mul_unit_multiple,
    lemma_isqrt_perfect_square, lemma_tdiv_mono, sat_add, sat_dbl, sat_neg, sat_scale, sat_sub,
    FX_ONE,
};
use crate::iso::{
    inverse_spec, lemma_identity_mat_vec, mat_identity_spec, mat_vec_spec, Isometry,
};
use crate::material::Material;
use crate::ray::{ray_apply_isometry_spec, Ray};
use crate::shapes::{cast_info_apply_isometry_spec, CastInfo};
use crate::vec::{
    axis_unit, lemma_axis_unit_facts, lemma_vdot_self_nonneg, vadd_spec, vdot_spec, vneg_spec,
    vnorm_spec, vnormalize_spec, vscale_spec, vsub_spec, Vec3,
};

verus! {

/// A sphere: local-space center and radius, a material, and the cached
/// object/world isometries.
#[derive(Clone, Copy, Debug)]
pub struct Sphere {
    pub center: Vec3,
    pub radius: i64,
    pub material: Material,
    pub world_to_object: Isometry,
    pub object_to_world: Isometry,
}

/// The model of `Sphere::new`: the world center is baked into the cached
/// isometries and the local center is the origin.
pub open spec fn spec_sphere_new(center: Vec3, radius: i64, material: Material) -> Sphere {
    let model_matrix = Isometry { rotation: mat_identity_spec(), translation: center };
    Sphere {
        center: Vec3 { x: 0, y: 0, z: 0 },
        radius,
        material,
        object_to_world: model_matrix,
        world_to_object: inverse_spec(model_matrix),
    }
}

/// The discriminant `b^2 - 4 a c` in fixed point.
pub open spec fn spec_quadratic_disc(a: int, b: int, c: int) -> int {
    clip(fx_mul_spec(b, b) - clip(4 * fx_mul_spec(a, c)))
}

/// The model of `find_roots_quadratic`: no roots on a negative
/// discriminant, else both roots, the smaller first (tangency gives two
/// equal roots).
pub open spec fn spec_find_roots_quadratic(a: int, b: int, c: int) -> Option<(i64, i64)> {
    let disc = spec_quadratic_disc(a, b, c);
    if disc < 0 {
        Option::None
    } else {
        let sq = fx_sqrt_spec(disc);
        let nb = clip(-b);
        let den = clip(2 * a);
        Option::Some(
            (
                fx_div_spec(clip(nb - sq), den) as i64,
                fx_div_spec(clip(nb + sq), den) as i64,
            ),
        )
    }
}

/// Solve `a t^2 + b t + c = 0`: either no roots or two ordered roots.
pub fn find_roots_quadratic(a: i64, b: i64, c: i64) -> (r: Option<(i64, i64)>)
    requires
        a > 0,
    ensures
        r == spec_find_roots_quadratic(a as int, b as int, c as int),
        r matches Some(t) ==> t.0 <= t.1,
{
    let disc = sat_sub(fx_mul(b, b), sat_scale(fx_mul(a, c), 4));
    if disc < 0 {
        None
    } else {
        let sq = fx_sqrt(disc);
        let nb = sat_neg(b);
        let den = sat_dbl(a);
        let n0 = sat_sub(nb, sq);
        let n1 = sat_add(nb, sq);
        let t0 = fx_div(n0, den);
        let t1 = fx_div(n1, den);
        proof {
            assert(sq >= 0);
            assert(n0 <= n1);
            lemma_tdiv_mono(n0 as int * FX_ONE, n1 as int * FX_ONE, den as int);
        }
        Some((t0, t1))
    }
}

/// The model of `Sphere::find_roots_intersection`: the quadratic from
/// `|O + t D - C|^2 = r^2` in object space; a degenerate direction
/// (squared norm rounding to zero) yields no roots.
pub open spec fn spec_find_roots_intersection(s: Sphere, ray: Ray) -> Option<(i64, i64)> {
    let diff = vsub_spec(ray.origin, s.center);
    let a = vdot_spec(ray.direction, ray.direction);
    let b = clip(2 * vdot_spec(ray.direction, diff));
    let c = clip(vdot_spec(diff, diff) - fx_mul_spec(s.radius as int, s.radius as int));
    if a == 0 {
        Option::None
    } else {
        spec_find_roots_quadratic(a, b as int, c as int)
    }
}

/// The model of `Sphere::cast_ray`: solve in object space, reject when
/// both roots are negative, take the smaller non-negative root, and map
/// the hit data back to world space.
#[verifier::opaque]
pub open spec fn spec_sphere_cast(s: Sphere, world_ray: Ray) -> Option<CastInfo> {
    let ray = ray_apply_isometry_spec(world_ray, s.world_to_object);
    match spec_find_roots_intersection(s, ray) {
        Option::None => Option::None,
        Option::Some(roots) => {
            let t0 = roots.0;
            let t1 = roots.1;
            if t0 < 0 && t1 < 0 {
                Option::None
            } else {
                let t = if t0 < 0 {
                    t1
                } else if t0 > t1 {
                    t1
                } else {
                    t0
                };
                let point_hit = vadd_spec(ray.origin, vscale_spec(ray.direction, t as int));
                Option::Some(
                    cast_info_apply_isometry_spec(
                        CastInfo {
                            normal: vnormalize_spec(vsub_spec(point_hit, s.center)),
                            pointing_to_viewer: vnormalize_spec(vsub_spec(ray.origin, point_hit)),
                            point_hit,
                            distance: t,
                            material: s.material,
                            casted: 0,
                        },
                        s.object_to_world,
                    ),
                )
            }
        },
    }
}

impl Sphere {
    /// Build a sphere at a world-space center; the center is cached in
    /// the isometries and the sphere itself lives at the local origin.
    pub fn new(center: Vec3, radius: i64, material: Material) -> (s: Sphere)
        ensures
            s == spec_sphere_new(center, radius, material),
    {
        let model_matrix = Isometry::from_translation(center);
        Sphere {
            center: Vec3::zero(),
            radius,
            material,
            object_to_world: model_matrix,
            world_to_object: model_matrix.inverse(),
        }
    }

    /// Translate the sphere's local center.
    pub fn move_to(&mut self, direction: Vec3)
        ensures
            final (self).center == vadd_spec(old(self).center, direction),
            final (self).radius == old(self).radius,
            final (self).material == old(self).material,
            final (self).world_to_object == old(self).world_to_object,
            final (self).object_to_world == old(self).object_to_world,
    {
        self.center = self.center.add(&direction);
    }

    /// The two intersection parameters with an object-space ray, if any.
    pub fn find_roots_intersection(&self, ray: &Ray) -> (r: Option<(i64, i64)>)
        ensures
            r == spec_find_roots_intersection(*self, *ray),
            r matches Some(t) ==> t.0 <= t.1,
    {
        let diff = ray.origin.sub(&self.center);
        let a = ray.direction.dot(&ray.direction);
        proof {
            lemma_vdot_self_nonneg(ray.direction);
        }
        let b = sat_dbl(ray.direction.dot(&diff));
        let c = sat_sub(diff.dot(&diff), fx_mul(self.radius, self.radius));
        if a == 0 {
            None
        } else {
            find_roots_quadratic(a, b, c)
        }
    }

    /// Intersect a world-space ray: the hit at the smaller non-negative
    /// root, or nothing.
    pub fn cast_ray(&self, world_ray: &Ray) -> (r: Option<CastInfo>)
        ensures
            r == spec_sphere_cast(*self, *world_ray),
            r matches Some(info) ==> info.distance >= 0,
            r matches Some(info) ==> info.material == self.material,
    {
        proof {
            reveal(spec_sphere_cast);
        }
        let ray = world_ray.apply_isometry(&self.world_to_object);
        match self.find_roots_intersection(&ray) {
            None => None,
            Some((t0, t1)) => {
                let mut t = t0;
                if t0 > t1 {
                    t = t1;
                }
                if t0 < 0 {
                    if t1 < 0 {
                        return None;
                    }
                    t = t1;
                }
                let point_hit = ray.origin.add(&ray.direction.scale(t));
                let normal = point_hit.sub(&self.center).normalize();
                let viewer = ray.origin.sub(&point_hit).normalize();
                Some(
                    CastInfo {
                        normal,
                        pointing_to_viewer: viewer,
                        point_hit,
                        distance: t,
                        material: self.material,
                        casted: 0,
                    }.apply_isometry(&self.object_to_world),
                )
            },
        }
    }
}


/// Root structure of the quadratic solver along an exactly-representable
/// line: the ray starts `m` units before the closest approach to the
/// sphere's local center and is offset sideways by `e` units along a
/// perpendicular axis `u`; the sphere's radius is `rho` units.  The ray
/// misses exactly when the closest approach `e` exceeds the radius, and
/// a ray through the center (`e == 0`) has its two roots at exactly
/// center minus radius and center plus radius along the line.
#[verifier::rlimit(50)]
pub proof fn lemma_sphere_ray_roots(s: Sphere, ray: Ray, u: Vec3, m: int, rho: int, e: int)
    requires
        axis_unit(ray.direction),
        axis_unit(u),
        ray.direction.x * u.x == 0,
        ray.direction.y * u.y == 0,
        ray.direction.z * u.z == 0,
        0 <= m <= 0x10_0000,
        1 <= rho <= 0x10_0000,
        0 <= e <= 0x10_0000,
        s.radius == rho * FX_ONE,
        iabs(s.center.x as int) <= 0x1_0000_0000_0000,
        iabs(s.center.y as int) <= 0x1_0000_0000_0000,
        iabs(s.center.z as int) <= 0x1_0000_0000_0000,
        ray.origin.x as int == s.center.x - m * ray.direction.x + e * u.x,
        ray.origin.y as int == s.center.y - m * ray.direction.y + e * u.y,
        ray.origin.z as int == s.center.z - m * ray.direction.z + e * u.z,
    ensures
        e > rho ==> spec_find_roots_intersection(s, ray) is None,
        e <= rho ==> spec_find_roots_intersection(s, ray) is Some,
        e == 0 ==> spec_find_roots_intersection(s, ray) == Option::Some(
            (((m - rho) * FX_ONE) as i64, ((m + rho) * FX_ONE) as i64),
        ),
{
    let one = FX_ONE as int;
    let dx = ray.direction.x as int;
    let dy = ray.direction.y as int;
    let dz = ray.direction.z as int;
    let ux = u.x as int;
    let uy = u.y as int;
    let uz = u.z as int;

    // The arithmetic shape of the two axis vectors.
    lemma_axis_unit_facts(ray.direction);
    lemma_axis_unit_facts(u);

    // The object-space offset from the center, exactly.
    let diff = vsub_spec(ray.origin, s.center);
    let fx = e * ux - m * dx;
    let fy = e * uy - m * dy;
    let fz = e * uz - m * dz;
    assert(iabs(fx) <= 0x20_0000 * one && iabs(fy) <= 0x20_0000 * one && iabs(fz) <= 0x20_0000
        * one) by (nonlinear_arith)
        requires
            fx == e * ux - m * dx,
            fy == e * uy - m * dy,
            fz == e * uz - m * dz,
            0 <= m <= 0x10_0000,
            0 <= e <= 0x10_0000,
            iabs(dx) <= one,
            iabs(dy) <= one,
            iabs(dz) <= one,
            iabs(ux) <= one,
            iabs(uy) <= one,
            iabs(uz) <= one,
            one == 65536,
    ;
    assert(ray.origin.x as int - s.center.x as int == fx);
    assert(ray.origin.y as int - s.center.y as int == fy);
    assert(ray.origin.z as int - s.center.z as int == fz);
    assert(iabs(fx) <= 0x20_0000_0000_0000 && iabs(fy) <= 0x20_0000_0000_0000 && iabs(fz)
        <= 0x20_0000_0000_0000);
    assert(-0x20_0000_0000_0000 <= fx <= 0x20_0000_0000_0000);
    assert(-0x20_0000_0000_0000 <= fy <= 0x20_0000_0000_0000);
    assert(-0x20_0000_0000_0000 <= fz <= 0x20_0000_0000_0000);
    assert(diff.x as int == fx && diff.y as int == fy && diff.z as int == fz);

    // a = D . D = one, exactly.
    assert(fx_mul_spec(dx, dx) == iabs(dx)) by {
        lemma_fx_mul_spec_exact(dx, dx, iabs(dx));
    }
    assert(fx_mul_spec(dy, dy) == iabs(dy)) by {
        lemma_fx_mul_spec_exact(dy, dy, iabs(dy));
    }
    assert(fx_mul_spec(dz, dz) == iabs(dz)) by {
        lemma_fx_mul_spec_exact(dz, dz, iabs(dz));
    }
    let a = vdot_spec(ray.direction, ray.direction);
    assert(a == one);

    // D . diff = -m, exactly (scaled by one).
    assert(dx * fx == one * (-m * iabs(dx)) && dy * fy == one * (-m * iabs(dy)) && dz * fz
        == one * (-m * iabs(dz))) by (nonlinear_arith)
        requires
            fx == e * ux - m * dx,
            fy == e * uy - m * dy,
            fz == e * uz - m * dz,
            dx * ux == 0,
            dy * uy == 0,
            dz * uz == 0,
            dx * dx == one * iabs(dx),
            dy * dy == one * iabs(dy),
            dz * dz == one * iabs(dz),
    ;
    assert(fx_mul_spec(dx, fx) == -m * iabs(dx)) by {
        lemma_fx_mul_spec_exact(dx, fx, -m * iabs(dx));
    }
    assert(fx_mul_spec(dy, fy) == -m * iabs(dy)) by {
        lemma_fx_mul_spec_exact(dy, fy, -m * iabs(dy));
    }
    assert(fx_mul_spec(dz, fz) == -m * iabs(dz)) by {
        lemma_fx_mul_spec_exact(dz, fz, -m * iabs(dz));
    }
    assert(-m * iabs(dx) + -m * iabs(dy) + -m * iabs(dz) == -m * one) by (nonlinear_arith)
        requires
            iabs(dx) + iabs(dy) + iabs(dz) == one,
    ;
    assert(vdot_spec(ray.direction, diff) == -m * one);
    let b = clip(2 * vdot_spec(ray.direction, diff));
    assert(b == -2 * m * one);

    // diff . diff = m^2 + e^2, exactly (scaled by one).
    assert(fx * fx == one * (m * m * iabs(dx) + e * e * iabs(ux))) by (nonlinear_arith)
        requires
            fx == e * ux - m * dx,
            dx * ux == 0,
            dx * dx == one * iabs(dx),
            ux * ux == one * iabs(ux),
    ;
    assert(fy * fy == one * (m * m * iabs(dy) + e * e * iabs(uy))) by (nonlinear_arith)
        requires
            fy == e * uy - m * dy,
            dy * uy == 0,
            dy * dy == one * iabs(dy),
            uy * uy == one * iabs(uy),
    ;
    assert(fz * fz == one * (m * m * iabs(dz) + e * e * iabs(uz))) by (nonlinear_arith)
        requires
            fz == e * uz - m * dz,
            dz * uz == 0,
            dz * dz == one * iabs(dz),
            uz * uz == one * iabs(uz),
    ;
    assert(0 <= m * m <= 0x100_0000_0000 && 0 <= e * e <= 0x100_0000_0000 && 1 <= rho * rho
        <= 0x100_0000_0000) by (nonlinear_arith)
        requires
            0 <= m <= 0x10_0000,
            0 <= e <= 0x10_0000,
            1 <= rho <= 0x10_0000,
    ;
    assert(fx_mul_spec(fx, fx) == m * m * iabs(dx) + e * e * iabs(ux)) by {
        lemma_fx_mul_spec_exact(fx, fx, m * m * iabs(dx) + e * e * iabs(ux));
    }
    assert(fx_mul_spec(fy, fy) == m * m * iabs(dy) + e * e * iabs(uy)) by {
        lemma_fx_mul_spec_exact(fy, fy, m * m * iabs(dy) + e * e * iabs(uy));
    }
    assert(fx_mul_spec(fz, fz) == m * m * iabs(dz) + e * e * iabs(uz)) by {
        lemma_fx_mul_spec_exact(fz, fz, m * m * iabs(dz) + e * e * iabs(uz));
    }
    assert(m * m * iabs(dx) + e * e * iabs(ux) + (m * m * iabs(dy) + e * e * iabs(uy)) + (m * m
        * iabs(dz) + e * e * iabs(uz)) == m * m * one + e * e * one) by (nonlinear_arith)
        requires
            iabs(dx) + iabs(dy) + iabs(dz) == one,
            iabs(ux) + iabs(uy) + iabs(uz) == one,
    ;
    assert(vdot_spec(diff, diff) == m * m * one + e * e * one);

    // radius^2, exactly (scaled by one).
    assert((rho * one) * (rho * one) == one * (rho * rho * one)) by (nonlinear_arith);
    assert(fx_mul_spec(s.radius as int, s.radius as int) == rho * rho * one) by {
        lemma_fx_mul_spec_exact(rho * one, rho * one, rho * rho * one);
    }
    let cterm = clip(vdot_spec(diff, diff) - fx_mul_spec(s.radius as int, s.radius as int));
    assert(cterm == (m * m + e * e - rho * rho) * one) by (nonlinear_arith)
        requires
            cterm == clip(m * m * one + e * e * one - rho * rho * one),
            0 <= m * m <= 0x100_0000_0000,
            0 <= e * e <= 0x100_0000_0000,
            1 <= rho * rho <= 0x100_0000_0000,
            one == 65536,
    ;

    // The discriminant is 4 (rho^2 - e^2), scaled by one.
    assert(b * b == one * (4 * (m * m) * one)) by (nonlinear_arith)
        requires
            b == -2 * m * one,
    ;
    assert(fx_mul_spec(b, b) == 4 * (m * m) * one) by {
        lemma_fx_mul_spec_exact(b, b, 4 * (m * m) * one);
    }
    assert(one * cterm == one * cterm);
    assert(fx_mul_spec(a, cterm) == cterm) by {
        lemma_fx_mul_spec_exact(one, cterm, cterm);
    }
    let disc = spec_quadratic_disc(a, b, cterm);
    assert(disc == 4 * (rho * rho - e * e) * one) by (nonlinear_arith)
        requires
            disc == clip(4 * (m * m) * one - clip(4 * ((m * m + e * e - rho * rho) * one))),
            0 <= m * m <= 0x100_0000_0000,
            0 <= e * e <= 0x100_0000_0000,
            1 <= rho * rho <= 0x100_0000_0000,
            one == 65536,
    ;

    // The solver sees a nonzero leading coefficient.
    assert(spec_find_roots_intersection(s, ray) == spec_find_roots_quadratic(a, b, cterm));

    if e > rho {
        assert(disc < 0) by (nonlinear_arith)
            requires
                disc == 4 * (rho * rho - e * e) * one,
                0 <= rho < e,
                one > 0,
        ;
    } else {
        assert(disc >= 0) by (nonlinear_arith)
            requires
                disc == 4 * (rho * rho - e * e) * one,
                0 <= e <= rho,
                one > 0,
        ;
        if e == 0 {
            // A perfect square: the square root is exactly 2 rho.
            assert(disc * one == (2 * rho * one) * (2 * rho * one)) by (nonlinear_arith)
                requires
                    disc == 4 * (rho * rho - e * e) * one,
                    e == 0,
            ;
            let sq = fx_sqrt_spec(disc);
            assert(sq == 2 * rho * one) by {
                lemma_isqrt_perfect_square((2 * rho * one) as nat);
                assert((disc * one) as nat == ((2 * rho * one) * (2 * rho * one)) as nat);
            }
            let nb = clip(-b);
            assert(nb == 2 * m * one);
            let den = clip(2 * a);
            assert(den == 2 * one);
            let n0 = clip(nb - sq);
            let n1 = clip(nb + sq);
            assert(n0 == 2 * (m - rho) * one && n1 == 2 * (m + rho) * one) by (nonlinear_arith)
                requires
                    n0 == clip(2 * m * one - 2 * rho * one),
                    n1 == clip(2 * m * one + 2 * rho * one),
                    0 <= m <= 0x10_0000,
                    1 <= rho <= 0x10_0000,
                    one == 65536,
            ;
            assert((2 * (m - rho) * one) * one == (2 * one) * ((m - rho) * one))
                by (nonlinear_arith);
            assert(fx_div_spec(n0, den) == (m - rho) * one) by {
                lemma_fx_div_spec_exact(2 * (m - rho) * one, 2 * one, (m - rho) * one);
            }
            assert((2 * (m + rho) * one) * one == (2 * one) * ((m + rho) * one))
                by (nonlinear_arith);
            assert(fx_div_spec(n1, den) == (m + rho) * one) by {
                lemma_fx_div_spec_exact(2 * (m + rho) * one, 2 * one, (m + rho) * one);
            }
        }
    }
}

/// A ray fired along an axis through a sphere's center hits exactly: the
/// sphere stands `m` units from the ray origin along the direction, with
/// radius `rho` units, and the cast returns the surface point
/// `center - radius * direction`, the inward-facing unit normal and
/// viewer direction opposite the ray, and distance `m - rho` units — all
/// without rounding, since the placement is exactly representable.
#[verifier::rlimit(50)]
pub proof fn lemma_sphere_cast_through_center(
    s: Sphere,
    ray: Ray,
    center: Vec3,
    material: Material,
    m: int,
    rho: int,
)
    requires
        s == spec_sphere_new(center, (rho * FX_ONE) as i64, material),
        axis_unit(ray.direction),
        1 <= rho < m <= 0x10_0000,
        iabs(center.x as int) <= 0x1_0000_0000_0000,
        iabs(center.y as int) <= 0x1_0000_0000_0000,
        iabs(center.z as int) <= 0x1_0000_0000_0000,
        ray.origin.x as int == center.x - m * ray.direction.x,
        ray.origin.y as int == center.y - m * ray.direction.y,
        ray.origin.z as int == center.z - m * ray.direction.z,
    ensures
        spec_sphere_cast(s, ray) == Option::Some(
            CastInfo {
                normal: vneg_spec(ray.direction),
                pointing_to_viewer: vneg_spec(ray.direction),
                point_hit: Vec3 {
                    x: (center.x - rho * ray.direction.x) as i64,
                    y: (center.y - rho * ray.direction.y) as i64,
                    z: (center.z - rho * ray.direction.z) as i64,
                },
                distance: ((m - rho) * FX_ONE) as i64,
                material,
                casted: 0,
            },
        ),
{
    reveal(spec_sphere_cast);
    let one = FX_ONE as int;
    let d = ray.direction;
    let dx = d.x as int;
    let dy = d.y as int;
    let dz = d.z as int;
    lemma_axis_unit_facts(d);
    assert(iabs(dx) <= one && iabs(dy) <= one && iabs(dz) <= one);

    // Products of the direction with the whole scalars stay small.
    assert(iabs(m * dx) <= 0x10_0000 * one && iabs(m * dy) <= 0x10_0000 * one && iabs(m * dz)
        <= 0x10_0000 * one && iabs(rho * dx) <= 0x10_0000 * one && iabs(rho * dy) <= 0x10_0000
        * one && iabs(rho * dz) <= 0x10_0000 * one) by (nonlinear_arith)
        requires
            0 <= m <= 0x10_0000,
            0 <= rho <= 0x10_0000,
            iabs(dx) <= one,
            iabs(dy) <= one,
            iabs(dz) <= one,
            one == 65536,
    ;

    // The cached inverse isometry is the exact opposite translation.
    let w2o = s.world_to_object;
    assert(w2o.rotation == mat_identity_spec());
    assert(mat_vec_spec(mat_identity_spec(), center) == center) by {
        lemma_identity_mat_vec(center);
    }
    assert(w2o.translation.x as int == -(center.x as int) && w2o.translation.y as int
        == -(center.y as int) && w2o.translation.z as int == -(center.z as int));

    // The object-space ray runs through the local origin.
    let oray = ray_apply_isometry_spec(ray, w2o);
    assert(mat_vec_spec(mat_identity_spec(), ray.origin) == ray.origin) by {
        lemma_identity_mat_vec(ray.origin);
    }
    assert(mat_vec_spec(mat_identity_spec(), d) == d) by {
        lemma_identity_mat_vec(d);
    }
    assert(oray.direction == d);
    assert(oray.origin.x as int == 0 - m * dx + 0 * dx);
    assert(oray.origin.y as int == 0 - m * dy + 0 * dy);
    assert(oray.origin.z as int == 0 - m * dz + 0 * dz);

    // A second axis perpendicular to the direction, for the root lemma.
    let u = if dx != 0 {
        Vec3 { x: 0, y: FX_ONE, z: 0 }
    } else {
        Vec3 { x: FX_ONE, y: 0, z: 0 }
    };
    if dx != 0 {
        assert(iabs(dx) == one);
        assert(dy == 0 && dz == 0);
    }
    assert(axis_unit(u)) by (nonlinear_arith)
        requires
            u.x as int * u.x as int + u.y as int * u.y as int + u.z as int * u.z as int == one
                * one,
            (u.x == 0 || u.x == FX_ONE),
            (u.y == 0 || u.y == FX_ONE),
            (u.z == 0 || u.z == FX_ONE),
            one == 65536,
    ;
    assert(dx * u.x == 0 && dy * u.y == 0 && dz * u.z == 0) by (nonlinear_arith)
        requires
            (dx != 0 && u.x == 0 && u.y == FX_ONE && dy == 0 && u.z == 0) || (dx == 0 && u.x
                == FX_ONE && dy * u.y == dy * 0 + dy * u.y - dy * u.y && u.y == 0 && u.z == 0),
    ;

    assert(s.radius as int == rho * one);
    assert(s.center == (Vec3 { x: 0i64, y: 0i64, z: 0i64 }));
    lemma_sphere_ray_roots(s, oray, u, m, rho, 0);
    let roots = spec_find_roots_intersection(s, oray);
    let t0: i64 = ((m - rho) * one) as i64;
    let t1: i64 = ((m + rho) * one) as i64;
    assert(roots == Option::Some((t0, t1)));
    assert(t0 >= 0 && t0 <= t1);

    // The object-space hit point is rho units before the local origin.
    let ph = vadd_spec(oray.origin, vscale_spec(oray.direction, t0 as int));
    assert(fx_mul_spec(dx, (m - rho) * one) == (m - rho) * dx) by {
        lemma_fx_mul_unit_multiple(dx, m - rho);
    }
    assert(fx_mul_spec(dy, (m - rho) * one) == (m - rho) * dy) by {
        lemma_fx_mul_unit_multiple(dy, m - rho);
    }
    assert(fx_mul_spec(dz, (m - rho) * one) == (m - rho) * dz) by {
        lemma_fx_mul_unit_multiple(dz, m - rho);
    }
    assert((m - rho) * dx - m * dx == -(rho * dx) && (m - rho) * dy - m * dy == -(rho * dy) && (
    m - rho) * dz - m * dz == -(rho * dz)) by (nonlinear_arith);
    assert(ph.x as int == -(rho * dx) && ph.y as int == -(rho * dy) && ph.z as int == -(rho
        * dz));

    // The local normal is the exact inward axis direction.
    assert(ph.x as int == (-rho) * dx && ph.y as int == (-rho) * dy && ph.z as int == (-rho)
        * dz) by (nonlinear_arith)
        requires
            ph.x as int == -(rho * dx),
            ph.y as int == -(rho * dy),
            ph.z as int == -(rho * dz),
    ;
    lemma_normalize_axis_multiple(ph, d, -rho);
    let nrm = vnormalize_spec(vsub_spec(ph, s.center));
    assert(vsub_spec(ph, s.center) == ph);
    assert(nrm == vneg_spec(d));

    // So is the viewer direction, looking back along the ray.
    let back = vsub_spec(oray.origin, ph);
    assert(-(m * dx) - (-(rho * dx)) == -((m - rho) * dx) && -(m * dy) - (-(rho * dy)) == -((m
        - rho) * dy) && -(m * dz) - (-(rho * dz)) == -((m - rho) * dz)) by (nonlinear_arith);
    assert(back.x as int == -((m - rho) * dx) && back.y as int == -((m - rho) * dy) && back.z
        as int == -((m - rho) * dz));
    assert(back.x as int == (-(m - rho)) * dx && back.y as int == (-(m - rho)) * dy && back.z
        as int == (-(m - rho)) * dz) by (nonlinear_arith)
        requires
            back.x as int == -((m - rho) * dx),
            back.y as int == -((m - rho) * dy),
            back.z as int == -((m - rho) * dz),
    ;
    lemma_normalize_axis_multiple(back, d, -(m - rho));
    let viewer = vnormalize_spec(back);
    assert(viewer == vneg_spec(d));

    // Mapping back to world space translates only the hit point.
    let o2w = s.object_to_world;
    assert(o2w.rotation == mat_identity_spec());
    assert(mat_vec_spec(mat_identity_spec(), nrm) == nrm) by {
        lemma_identity_mat_vec(nrm);
    }
    assert(mat_vec_spec(mat_identity_spec(), ph) == ph) by {
        lemma_identity_mat_vec(ph);
    }
    let world_ph = vadd_spec(ph, center);
    assert(world_ph.x as int == center.x - rho * dx && world_ph.y as int == center.y - rho * dy
        && world_ph.z as int == center.z - rho * dz);
}

/// Normalizing a whole (nonzero) multiple of an axis direction recovers
/// the direction with its sign, exactly.
proof fn lemma_normalize_axis_multiple(w: Vec3, d: Vec3, k: int)
    requires
        axis_unit(d),
        k != 0,
        iabs(k) <= 0x10_0000,
        w.x as int == k * d.x,
        w.y as int == k * d.y,
        w.z as int == k * d.z,
    ensures
        k > 0 ==> vnormalize_spec(w) == d,
        k < 0 ==> vnormalize_spec(w) == vneg_spec(d),
{
    let one = FX_ONE as int;
    let dx = d.x as int;
    let dy = d.y as int;
    let dz = d.z as int;
    lemma_axis_unit_facts(d);
    let ka = iabs(k);
    assert((k * dx) * (k * dx) == one * ((ka * ka) * iabs(dx))) by (nonlinear_arith)
        requires
            ka == iabs(k),
            dx * dx == one * iabs(dx),
    ;
    assert((k * dy) * (k * dy) == one * ((ka * ka) * iabs(dy))) by (nonlinear_arith)
        requires
            ka == iabs(k),
            dy * dy == one * iabs(dy),
    ;
    assert((k * dz) * (k * dz) == one * ((ka * ka) * iabs(dz))) by (nonlinear_arith)
        requires
            ka == iabs(k),
            dz * dz == one * iabs(dz),
    ;
    assert(0 <= ka * ka <= 0x100_0000_0000) by (nonlinear_arith)
        requires
            0 <= ka <= 0x10_0000,
    ;
    assert(0 <= (ka * ka) * iabs(dx) <= 0x100_0000_0000 * one && 0 <= (ka * ka) * iabs(dy)
        <= 0x100_0000_0000 * one && 0 <= (ka * ka) * iabs(dz) <= 0x100_0000_0000 * one)
        by (nonlinear_arith)
        requires
            0 <= ka * ka <= 0x100_0000_0000,
            iabs(dx) <= one,
            iabs(dy) <= one,
            iabs(dz) <= one,
            one == 65536,
    ;
    assert(fx_mul_spec(k * dx, k * dx) == (ka * ka) * iabs(dx)) by {
        lemma_fx_mul_spec_exact(k * dx, k * dx, (ka * ka) * iabs(dx));
    }
    assert(fx_mul_spec(k * dy, k * dy) == (ka * ka) * iabs(dy)) by {
        lemma_fx_mul_spec_exact(k * dy, k * dy, (ka * ka) * iabs(dy));
    }
    assert(fx_mul_spec(k * dz, k * dz) == (ka * ka) * iabs(dz)) by {
        lemma_fx_mul_spec_exact(k * dz, k * dz, (ka * ka) * iabs(dz));
    }
    assert((ka * ka) * iabs(dx) + (ka * ka) * iabs(dy) + (ka * ka) * iabs(dz) == (ka * ka)
        * one) by (nonlinear_arith)
        requires
            iabs(dx) + iabs(dy) + iabs(dz) == one,
    ;
    assert(vdot_spec(w, w) == (ka * ka) * one);
    let n = vnorm_spec(w);
    assert(((ka * ka) * one) * one == (ka * one) * (ka * one)) by (nonlinear_arith);
    assert(n == ka * one) by {
        lemma_isqrt_perfect_square((ka * one) as nat);
    }
    assert(n > 0) by (nonlinear_arith)
        requires
            n == ka * one,
            ka >= 1,
            one > 0,
    ;
    let sx: int = if k > 0 {
        dx
    } else {
        -dx
    };
    let sy: int = if k > 0 {
        dy
    } else {
        -dy
    };
    let sz: int = if k > 0 {
        dz
    } else {
        -dz
    };
    assert((k * dx) * one == (ka * one) * sx && (k * dy) * one == (ka * one) * sy && (k * dz)
        * one == (ka * one) * sz) by (nonlinear_arith)
        requires
            ka == iabs(k),
            sx == (if k > 0 { dx } else { -dx }),
            sy == (if k > 0 { dy } else { -dy }),
            sz == (if k > 0 { dz } else { -dz }),
    ;
    assert(fx_div_spec(k * dx, ka * one) == sx) by {
        lemma_fx_div_spec_exact(k * dx, ka * one, sx);
    }
    assert(fx_div_spec(k * dy, ka * one) == sy) by {
        lemma_fx_div_spec_exact(k * dy, ka * one, sy);
    }
    assert(fx_div_spec(k * dz, ka * one) == sz) by {
        lemma_fx_div_spec_exact(k * dz, ka * one, sz);
    }
}

} // verus!
