//! Surface materials: exactly one variant per shape, immutable once built.

use vstd::prelude::*;
use crate::color::Color;
use crate::fx::FX_ONE;

verus! {

/// The shading behaviour of a surface.
#[derive(Clone, Copy, Debug, PartialEq, Eq, Structural)]
pub enum MaterialType {
    /// A mirror: blends the recursively traced reflection with the base
    /// color by `reflectivity` (a fixed-point weight).
    Reflection { reflectivity: i64 },
    /// A dielectric: refracts and reflects, blended by Fresnel
    /// coefficients; `refractive_index` is fixed-point, at least one.
    Refraction { refractive_index: i64 },
    /// Local Phong illumination: diffuse and specular terms weighted by
    /// the fixed-point `k_diffuse` and `k_specular`, with the specular
    /// highlight sharpened by the exponent `specular_n`.
    Phong { k_specular: i64, k_diffuse: i64, specular_n: i32 },
}

/// A material: base color, diffuse albedo (fixed-point), and one variant.
#[derive(Clone, Copy, Debug, PartialEq, Eq, Structural)]
pub struct Material {
    pub color: Color,
    pub albedo: i64,
    pub material_type: MaterialType,
}

/// Well-formedness: the Phong exponent is nonnegative, and a refractive
/// index is at least one (denser than vacuum), so that index ratios and
/// specular powers are defined.
pub open spec fn material_wf(m: Material) -> bool {
    match m.material_type {
        MaterialType::Phong { specular_n, .. } => specular_n >= 0,
        MaterialType::Refraction { refractive_index } => refractive_index >= FX_ONE,
        MaterialType::Reflection { .. } => true,
    }
}

} // verus!
