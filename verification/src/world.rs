//! The scene: shapes and lights, nearest-hit queries, hard shadows, and
//! the recursive Whitted shading function with a fixed depth bound.

use vstd::prelude::*;
use crate::color::{color_add_spec, color_mul_spec, Color};
use crate::fx::{clip, fx_div, fx_div_spec, fx_max0, fx_mul, fx_mul_spec, fx_powi, fx_powi_spec,
    sat_sub, FX_ONE};
use crate::light::PointLight;
use crate::material::{material_wf, MaterialType};
use crate::ops::{fresnel, fresnel_spec, reflect, reflect_spec, refract, refract_spec};
use crate::ray::Ray;
use crate::shapes::{
    get_nearest_cast_info, nearest_cast_info_spec, spec_shape_cast, spec_shape_material,
    spec_shape_shadow_casting, CastInfo, Shape,
};
use crate::vec::{
    lemma_vdot_self_nonneg, vadd_spec, vdot_spec, vneg_spec, vnorm_spec, vnormalize_spec,
    vscale_spec, vsub_spec,
};

verus! {

/// Recursion bound for reflection/refraction chains.
pub const MAX_RAY_DEPTH: i32 = 10;

/// Outward bias (about a thousandth) applied along the normal to
/// secondary-ray origins, against self-intersection ("shadow acne").
pub const NUDGE: i64 = 66;

/// Four pi in fixed point, for the inverse-square falloff.
pub const FOUR_PI: i64 = 823550;

/// The background color returned for rays that hit nothing.
pub open spec fn spec_background() -> Color {
    Color { r: 59, g: 172, b: 214 }
}

/// The scene: an ordered list of shapes and the lights that shade them.
#[derive(Debug)]
pub struct World {
    pub shapes: Vec<Shape>,
    pub lights: Vec<PointLight>,
}

/// A per-shape cast whose hit record carries the shape's index.
pub open spec fn spec_cast_with_index(s: Shape, ray: Ray, idx: int) -> Option<CastInfo> {
    match spec_shape_cast(s, ray) {
        Option::None => Option::None,
        Option::Some(ci) => Option::Some(CastInfo { casted: idx as usize, ..ci }),
    }
}

/// The nearest hit over the first `n` shapes, in iteration order.
pub open spec fn spec_cast_fold(shapes: Seq<Shape>, ray: Ray, n: int) -> Option<CastInfo>
    decreases n,
{
    if n <= 0 {
        Option::None
    } else {
        nearest_cast_info_spec(
            spec_cast_fold(shapes, ray, n - 1),
            spec_cast_with_index(shapes[n - 1], ray, n - 1),
        )
    }
}

/// The nearest hit over the first `n` shadow-casting shapes.
pub open spec fn spec_shadow_fold(shapes: Seq<Shape>, ray: Ray, n: int) -> Option<CastInfo>
    decreases n,
{
    if n <= 0 {
        Option::None
    } else {
        let entry = if spec_shape_shadow_casting(shapes[n - 1]) {
            spec_cast_with_index(shapes[n - 1], ray, n - 1)
        } else {
            Option::None
        };
        nearest_cast_info_spec(spec_shadow_fold(shapes, ray, n - 1), entry)
    }
}

/// The model of `World::cast_to_shapes`.
pub open spec fn spec_cast_to_shapes(w: World, ray: Ray) -> Option<CastInfo> {
    spec_cast_fold(w.shapes@, ray, w.shapes@.len() as int)
}

/// The model of `World::cast_to_shadow_casting_shapes`.
pub open spec fn spec_cast_to_shadow_casting_shapes(w: World, ray: Ray) -> Option<CastInfo> {
    spec_shadow_fold(w.shapes@, ray, w.shapes@.len() as int)
}

/// The shadow ray for a surface point and a light: origin biased outward
/// along the normal, aimed at the light.
pub open spec fn spec_shadow_ray(info: CastInfo, light: PointLight) -> Ray {
    Ray {
        origin: vadd_spec(info.point_hit, vscale_spec(info.normal, NUDGE as int)),
        direction: vnormalize_spec(vsub_spec(light.ray.origin, info.point_hit)),
    }
}

/// Whether some shadow-casting shape stands strictly nearer than the
/// light along the shadow ray.
pub open spec fn spec_light_blocked(w: World, info: CastInfo, light: PointLight) -> bool {
    match spec_cast_to_shadow_casting_shapes(w, spec_shadow_ray(info, light)) {
        Option::Some(shadow_info) => shadow_info.distance
            < vnorm_spec(vsub_spec(light.ray.origin, info.point_hit)),
        Option::None => false,
    }
}

/// The model of `World::get_lighting`: zero when the light is blocked;
/// otherwise the diffuse term scales the light by albedo, inverse-square
/// intensity and the facing ratio, and the specular term by intensity
/// and the viewer-reflection alignment raised to `specular_n`.
#[verifier::opaque]
pub open spec fn spec_get_lighting(
    w: World,
    info: CastInfo,
    specular_n: i32,
    light: PointLight,
) -> (Color, Color) {
    if spec_light_blocked(w, info, light) {
        (Color { r: 0, g: 0, b: 0 }, Color { r: 0, g: 0, b: 0 })
    } else {
        let d2l = vsub_spec(light.ray.origin, info.point_hit);
        let p2l = vnormalize_spec(d2l);
        let fr = vdot_spec(info.normal, p2l);
        let facing_ratio = if fr > 0 {
            fr
        } else {
            0
        };
        let reflected_light = reflect_spec(p2l, info.normal);
        let denom = fx_mul_spec(FOUR_PI as int, vdot_spec(d2l, d2l));
        let lip = if denom > 0 {
            fx_div_spec(light.intensity as int, denom)
        } else {
            0
        };
        let diffuse = color_mul_spec(
            light.color,
            fx_mul_spec(fx_mul_spec(info.material.albedo as int, lip), facing_ratio),
        );
        let sa = vdot_spec(info.pointing_to_viewer, reflected_light);
        let specular_align = if sa > 0 {
            sa
        } else {
            0
        };
        let specular = color_mul_spec(
            color_mul_spec(light.color, lip),
            fx_powi_spec(specular_align, specular_n as int),
        );
        (diffuse, specular)
    }
}

/// The model of `World::get_reflected_ray`: origin biased outward along
/// the normal, direction the normalized mirror of the viewer vector.
#[verifier::opaque]
pub open spec fn spec_get_reflected_ray(info: CastInfo) -> Ray {
    Ray {
        direction: vnormalize_spec(reflect_spec(info.pointing_to_viewer, info.normal)),
        origin: vadd_spec(info.point_hit, vscale_spec(info.normal, NUDGE as int)),
    }
}

/// The refractive index carried by a refractive material (one otherwise).
pub open spec fn spec_refraction_index(info: CastInfo) -> i64 {
    match info.material.material_type {
        MaterialType::Refraction { refractive_index } => refractive_index,
        _ => FX_ONE,
    }
}

/// The model of `World::get_refracted_ray`: pick the index order, bias
/// sign and normal orientation from the side the ray approaches, then
/// Fresnel-weight the refracted ray; under total internal reflection fall
/// back to the reflected ray with `(kr, kt) = (1, 0)`.
#[verifier::opaque]
pub open spec fn spec_get_refracted_ray(info: CastInfo) -> (i64, i64, Ray) {
    let ray_direction = vneg_spec(info.pointing_to_viewer);
    let ior = spec_refraction_index(info);
    let nudge = vscale_spec(info.normal, NUDGE as int);
    let outside = vdot_spec(info.normal, ray_direction) < 0;
    let n_i = if outside {
        FX_ONE
    } else {
        ior
    };
    let n_t = if outside {
        ior
    } else {
        FX_ONE
    };
    let bias = if outside {
        vneg_spec(nudge)
    } else {
        nudge
    };
    let refract_normal = if outside {
        info.normal
    } else {
        vneg_spec(info.normal)
    };
    let f = fresnel_spec(ray_direction, refract_normal, n_i as int, n_t as int);
    match refract_spec(ray_direction, refract_normal, n_i as int, n_t as int) {
        Option::Some(refraction) => (
            f.0 as i64,
            f.1 as i64,
            Ray {
                direction: vnormalize_spec(refraction),
                origin: vadd_spec(info.point_hit, bias),
            },
        ),
        Option::None => (FX_ONE, 0, spec_get_reflected_ray(info)),
    }
}

/// The summed per-light diffuse and specular contributions over the
/// first `n` lights.
pub open spec fn spec_lighting_fold(
    w: World,
    info: CastInfo,
    specular_n: i32,
    n: int,
) -> (Color, Color)
    decreases n,
{
    if n <= 0 {
        (Color { r: 0, g: 0, b: 0 }, Color { r: 0, g: 0, b: 0 })
    } else {
        let prev = spec_lighting_fold(w, info, specular_n, n - 1);
        let cur = spec_get_lighting(w, info, specular_n, w.lights@[n - 1]);
        (color_add_spec(prev.0, cur.0), color_add_spec(prev.1, cur.1))
    }
}

/// The model of `World::get_color_at_ray`: zero beyond the depth bound,
/// background on a miss, and per-material shading on a hit — Phong sums
/// the lights; a mirror blends the recursive reflection with the base
/// color; a dielectric blends the recursive refraction and reflection by
/// the Fresnel coefficients.
#[verifier::opaque]
pub open spec fn spec_get_color_at_ray(w: World, ray: Ray, depth: int) -> Color
    decreases MAX_RAY_DEPTH + 1 - depth,
{
    if depth > MAX_RAY_DEPTH {
        Color { r: 0, g: 0, b: 0 }
    } else {
        match spec_cast_to_shapes(w, ray) {
            Option::None => spec_background(),
            Option::Some(info) => match info.material.material_type {
                MaterialType::Phong { k_specular, k_diffuse, specular_n } => {
                    let sums = spec_lighting_fold(w, info, specular_n, w.lights@.len() as int);
                    color_add_spec(
                        color_mul_spec(sums.0, k_diffuse as int),
                        color_mul_spec(sums.1, k_specular as int),
                    )
                },
                MaterialType::Reflection { reflectivity } => color_add_spec(
                    color_mul_spec(
                        spec_get_color_at_ray(w, spec_get_reflected_ray(info), depth + 1),
                        reflectivity as int,
                    ),
                    color_mul_spec(info.material.color, clip(FX_ONE - reflectivity)),
                ),
                MaterialType::Refraction { .. } => {
                    let reflect_color = spec_get_color_at_ray(
                        w,
                        spec_get_reflected_ray(info),
                        depth + 1,
                    );
                    let rr = spec_get_refracted_ray(info);
                    let refract_color = spec_get_color_at_ray(w, rr.2, depth + 1);
                    color_add_spec(
                        color_mul_spec(refract_color, rr.1 as int),
                        color_mul_spec(reflect_color, rr.0 as int),
                    )
                },
            },
        }
    }
}


/// The fold keeps the nearest hit: whenever shape `k` reports a hit, the
/// fold over the first `n > k` shapes reports one at most as far away.
pub proof fn lemma_cast_fold_is_nearest(shapes: Seq<Shape>, ray: Ray, n: int, k: int)
    requires
        0 <= k < n,
    ensures
        spec_cast_with_index(shapes[k], ray, k) matches Some(ck)
            ==> spec_cast_fold(shapes, ray, n) matches Some(r) && r.distance <= ck.distance,
    decreases n,
{
    if k < n - 1 {
        lemma_cast_fold_is_nearest(shapes, ray, n - 1, k);
    }
}

/// The fold invents nothing: a reported hit is exactly what one of the
/// first `n` shapes reported, with that shape's index recorded.
pub proof fn lemma_cast_fold_member(shapes: Seq<Shape>, ray: Ray, n: int)
    ensures
        spec_cast_fold(shapes, ray, n) matches Some(r) ==> exists|k: int|
            0 <= k < n && #[trigger] spec_cast_with_index(shapes[k], ray, k) == Option::Some(r),
    decreases n,
{
    if n > 0 {
        lemma_cast_fold_member(shapes, ray, n - 1);
    }
}

/// An occluder gates a light's whole contribution: when some
/// shadow-casting shape stands strictly between the surface point and
/// the light, both terms are zero; when none does, the diffuse term is
/// exactly the light scaled by albedo, inverse-square intensity and the
/// facing ratio — and wherever the normal actually faces the light, the
/// facing ratio is that (positive) alignment, not clamped away.
pub proof fn lemma_occlusion_gates_lighting(
    w: World,
    info: CastInfo,
    specular_n: i32,
    light: PointLight,
)
    ensures
        spec_light_blocked(w, info, light) ==> spec_get_lighting(w, info, specular_n, light)
            == ((Color { r: 0u8, g: 0u8, b: 0u8 }, Color { r: 0u8, g: 0u8, b: 0u8 })),
        !spec_light_blocked(w, info, light) ==> ({
            let d2l = vsub_spec(light.ray.origin, info.point_hit);
            let p2l = vnormalize_spec(d2l);
            let fr = vdot_spec(info.normal, p2l);
            let facing_ratio = if fr > 0 {
                fr
            } else {
                0
            };
            let denom = fx_mul_spec(FOUR_PI as int, vdot_spec(d2l, d2l));
            let lip = if denom > 0 {
                fx_div_spec(light.intensity as int, denom)
            } else {
                0
            };
            &&& spec_get_lighting(w, info, specular_n, light).0 == color_mul_spec(
                light.color,
                fx_mul_spec(fx_mul_spec(info.material.albedo as int, lip), facing_ratio),
            )
            &&& (fr > 0 ==> facing_ratio == fr)
        }),
{
    reveal(spec_get_lighting);
}

impl World {
    /// Well-formedness: every shape's material is well-formed.
    pub open spec fn wf(&self) -> bool {
        forall|k: int|
            0 <= k < self.shapes@.len() ==> crate::shapes::shape_wf(#[trigger] self.shapes@[k])
    }

    /// The nearest hit over all shapes, with the shape's index recorded.
    pub fn cast_to_shapes(&self, ray: &Ray) -> (r: Option<CastInfo>)
        ensures
            r == spec_cast_to_shapes(*self, *ray),
            r matches Some(info) ==> info.distance >= 0 && info.casted < self.shapes@.len()
                && info.material == spec_shape_material(self.shapes@[info.casted as int]),
    {
        let mut acc: Option<CastInfo> = None;
        let mut i: usize = 0;
        while i < self.shapes.len()
            invariant
                i <= self.shapes@.len(),
                acc == spec_cast_fold(self.shapes@, *ray, i as int),
                acc matches Some(info) ==> info.distance >= 0 && info.casted < i
                    && info.material == spec_shape_material(self.shapes@[info.casted as int]),
            decreases self.shapes@.len() - i,
        {
            let cast = self.shapes[i].cast_ray(ray);
            let entry = match cast {
                Some(mut ci) => {
                    ci.casted = i;
                    Some(ci)
                },
                None => None,
            };
            proof {
                assert(entry == spec_cast_with_index(self.shapes@[i as int], *ray, i as int));
            }
            acc = get_nearest_cast_info(acc, entry);
            i = i + 1;
        }
        acc
    }

    /// The nearest hit over the shadow-casting shapes only, used for
    /// light-visibility tests.
    pub fn cast_to_shadow_casting_shapes(&self, ray: &Ray) -> (r: Option<CastInfo>)
        ensures
            r == spec_cast_to_shadow_casting_shapes(*self, *ray),
            r matches Some(info) ==> info.distance >= 0 && info.casted < self.shapes@.len()
                && spec_shape_shadow_casting(self.shapes@[info.casted as int]),
    {
        let mut acc: Option<CastInfo> = None;
        let mut i: usize = 0;
        while i < self.shapes.len()
            invariant
                i <= self.shapes@.len(),
                acc == spec_shadow_fold(self.shapes@, *ray, i as int),
                acc matches Some(info) ==> info.distance >= 0 && info.casted < i
                    && spec_shape_shadow_casting(self.shapes@[info.casted as int]),
            decreases self.shapes@.len() - i,
        {
            let entry = if self.shapes[i].is_shadow_casting() {
                let cast = self.shapes[i].cast_ray(ray);
                match cast {
                    Some(mut ci) => {
                        ci.casted = i;
                        Some(ci)
                    },
                    None => None,
                }
            } else {
                None
            };
            acc = get_nearest_cast_info(acc, entry);
            i = i + 1;
        }
        acc
    }

    /// Per-light diffuse and specular contributions at a hit, zero for a
    /// blocked light.
    pub fn get_lighting(&self, info: &CastInfo, specular_n: i32, light: &PointLight) -> (r: (
        Color,
        Color,
    ))
        requires
            specular_n >= 0,
        ensures
            r == spec_get_lighting(*self, *info, specular_n, *light),
            spec_light_blocked(*self, *info, *light) ==> r == (
                Color { r: 0u8, g: 0u8, b: 0u8 },
                Color { r: 0u8, g: 0u8, b: 0u8 },
            ),
    {
        proof {
            reveal(spec_get_lighting);
        }
        let nudge = info.normal.scale(NUDGE);
        let distance_to_light = light.ray.origin.sub(&info.point_hit);
        let pointing_to_light = distance_to_light.normalize();
        let shadow_ray = Ray {
            origin: info.point_hit.add(&nudge),
            direction: pointing_to_light,
        };
        let point_to_light_crosses_object = self.cast_to_shadow_casting_shapes(&shadow_ray);
        match point_to_light_crosses_object {
            None => {},
            Some(shadow_info) => {
                if shadow_info.distance < distance_to_light.norm() {
                    return (Color::zero(), Color::zero());
                }
            },
        }
        let facing_ratio = fx_max0(info.normal.dot(&pointing_to_light));
        let reflected_light = reflect(&pointing_to_light, &info.normal);
        proof {
            lemma_vdot_self_nonneg(distance_to_light);
            crate::fx::lemma_fx_mul_nonneg(
                FOUR_PI as int,
                vdot_spec(distance_to_light, distance_to_light),
            );
        }
        let denom = fx_mul(FOUR_PI, distance_to_light.norm_squared());
        let light_intensity_at_point = if denom > 0 {
            fx_div(light.intensity, denom)
        } else {
            0
        };
        let diffuse = light.color.mul(
            fx_mul(fx_mul(info.material.albedo, light_intensity_at_point), facing_ratio),
        );
        let specular_align = fx_max0(info.pointing_to_viewer.dot(&reflected_light));
        let specular = light.color.mul(light_intensity_at_point).mul(
            fx_powi(specular_align, specular_n),
        );
        (diffuse, specular)
    }

    /// The mirror ray leaving a hit: biased origin, reflected viewer
    /// direction.
    pub fn get_reflected_ray(&self, info: &CastInfo) -> (r: Ray)
        ensures
            r == spec_get_reflected_ray(*info),
    {
        proof {
            reveal(spec_get_reflected_ray);
        }
        let nudge = info.normal.scale(NUDGE);
        let reflection = reflect(&info.pointing_to_viewer, &info.normal);
        Ray { direction: reflection.normalize(), origin: info.point_hit.add(&nudge) }
    }

    /// The Fresnel coefficients and continuation ray at a refractive hit;
    /// under total internal reflection, the reflected ray with
    /// `(kr, kt) = (1, 0)`.  The coefficients always sum to one.
    pub fn get_refracted_ray(&self, info: &CastInfo) -> (r: (i64, i64, Ray))
        requires
            info.material.material_type is Refraction,
            material_wf(info.material),
        ensures
            r == spec_get_refracted_ray(*info),
            r.0 + r.1 == FX_ONE,
    {
        proof {
            reveal(spec_get_refracted_ray);
        }
        let ray_direction = info.pointing_to_viewer.neg();
        let ior = if let MaterialType::Refraction { refractive_index } =
            info.material.material_type {
            refractive_index
        } else {
            FX_ONE
        };
        let nudge = info.normal.scale(NUDGE);
        let outside = info.normal.dot(&ray_direction) < 0;
        let n_i = if outside {
            FX_ONE
        } else {
            ior
        };
        let n_t = if outside {
            ior
        } else {
            FX_ONE
        };
        let bias = if outside {
            nudge.neg()
        } else {
            nudge
        };
        let refract_normal = if outside {
            info.normal
        } else {
            info.normal.neg()
        };
        let (kr, kt) = fresnel(&ray_direction, &refract_normal, n_i, n_t);
        match refract(&ray_direction, &refract_normal, n_i, n_t) {
            Some(refraction) => (
                kr,
                kt,
                Ray {
                    direction: refraction.normalize(),
                    origin: info.point_hit.add(&bias),
                },
            ),
            None => (FX_ONE, 0, self.get_reflected_ray(info)),
        }
    }

    /// The color seen along a ray: background on a miss, Phong shading at
    /// a diffuse hit, and bounded-depth recursion for mirrors and
    /// dielectrics.
    pub fn get_color_at_ray(&self, ray: &Ray, depth: i32) -> (r: Color)
        requires
            self.wf(),
        ensures
            r == spec_get_color_at_ray(*self, *ray, depth as int),
            depth > MAX_RAY_DEPTH ==> r == (Color { r: 0u8, g: 0u8, b: 0u8 }),
            depth <= MAX_RAY_DEPTH && spec_cast_to_shapes(*self, *ray) is None ==> r
                == spec_background(),
        decreases MAX_RAY_DEPTH + 1 - depth,
    {
        proof {
            reveal(spec_get_color_at_ray);
        }
        if depth > MAX_RAY_DEPTH {
            return Color::zero();
        }
        match self.cast_to_shapes(ray) {
            None => Color::RGB(59, 172, 214),
            Some(info) => {
                match info.material.material_type {
                    MaterialType::Phong { k_specular, k_diffuse, specular_n } => {
                        proof {
                            assert(crate::shapes::shape_wf(self.shapes@[info.casted as int]));
                        }
                        let mut diffuse = Color::zero();
                        let mut specular = Color::zero();
                        let mut j: usize = 0;
                        while j < self.lights.len()
                            invariant
                                j <= self.lights@.len(),
                                specular_n >= 0,
                                (diffuse, specular) == spec_lighting_fold(
                                    *self,
                                    info,
                                    specular_n,
                                    j as int,
                                ),
                            decreases self.lights@.len() - j,
                        {
                            let (d, s) = self.get_lighting(&info, specular_n, &self.lights[j]);
                            diffuse = diffuse.add(d);
                            specular = specular.add(s);
                            j = j + 1;
                        }
                        diffuse.mul(k_diffuse).add(specular.mul(k_specular))
                    },
                    MaterialType::Reflection { reflectivity } => {
                        let reflected = self.get_color_at_ray(
                            &self.get_reflected_ray(&info),
                            depth + 1,
                        );
                        reflected.mul(reflectivity).add(
                            info.material.color.mul(sat_sub(FX_ONE, reflectivity)),
                        )
                    },
                    MaterialType::Refraction { .. } => {
                        proof {
                            assert(crate::shapes::shape_wf(self.shapes@[info.casted as int]));
                        }
                        let reflect_color = self.get_color_at_ray(
                            &self.get_reflected_ray(&info),
                            depth + 1,
                        );
                        let (kr, kt, refracted_ray) = self.get_refracted_ray(&info);
                        let refract_color = self.get_color_at_ray(&refracted_ray, depth + 1);
                        refract_color.mul(kt).add(reflect_color.mul(kr))
                    },
                }
            },
        }
    }
}

} // verus!
