//! A Whitted-style ray tracer verified with Verus.
//!
//! All geometry is carried in signed 64-bit fixed-point scalars (see `fx`),
//! so every function is exact integer arithmetic with a pinned contract:
//! ray/shape intersection in object space through cached isometries, a
//! nearest-hit policy, Phong shading with hard shadows, and bounded-depth
//! recursive reflection and refraction blended by Fresnel coefficients.

pub mod color;
pub mod fx;
pub mod iso;
pub mod light;
pub mod material;
pub mod ops;
pub mod ray;
pub mod shapes;
pub mod vec;
pub mod world;
