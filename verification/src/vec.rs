//! Three-component fixed-point vectors, used for both points and directions.

use vstd::prelude::*;
use crate::fx::{
    clip, fx_div, fx_div_spec, fx_mul, fx_mul_spec, fx_sqrt, fx_sqrt_spec, iabs, sat_add,
    sat_neg, sat_sub, tdiv, FX_ONE,
};

verus! {

/// A vector (or point) of three fixed-point scalars.
#[derive(Clone, Copy, Debug, PartialEq, Eq, Structural)]
pub struct Vec3 {
    pub x: i64,
    pub y: i64,
    pub z: i64,
}

/// The exact (unrounded) inner product of the raw components.
pub open spec fn idot(a: Vec3, b: Vec3) -> int {
    a.x * b.x + a.y * b.y + a.z * b.z
}

/// An axis direction: every component is zero or one unit (positive or
/// negative), and the squared norm is exactly one, so exactly one
/// component is nonzero.  Such directions make the fixed-point geometry
/// exact where a general direction would round.
pub open spec fn axis_unit(d: Vec3) -> bool {
    &&& (d.x == 0 || d.x == FX_ONE || d.x == -FX_ONE)
    &&& (d.y == 0 || d.y == FX_ONE || d.y == -FX_ONE)
    &&& (d.z == 0 || d.z == FX_ONE || d.z == -FX_ONE)
    &&& idot(d, d) == FX_ONE * FX_ONE
}

/// The model of `Vec3::add`: componentwise saturating addition.
pub open spec fn vadd_spec(a: Vec3, b: Vec3) -> Vec3 {
    Vec3 { x: clip(a.x + b.x) as i64, y: clip(a.y + b.y) as i64, z: clip(a.z + b.z) as i64 }
}

/// The model of `Vec3::sub`: componentwise saturating subtraction.
pub open spec fn vsub_spec(a: Vec3, b: Vec3) -> Vec3 {
    Vec3 { x: clip(a.x - b.x) as i64, y: clip(a.y - b.y) as i64, z: clip(a.z - b.z) as i64 }
}

/// The model of `Vec3::neg`.
pub open spec fn vneg_spec(a: Vec3) -> Vec3 {
    Vec3 { x: clip(-a.x) as i64, y: clip(-a.y) as i64, z: clip(-a.z) as i64 }
}

/// The model of `Vec3::scale`: each component multiplied by the scalar.
pub open spec fn vscale_spec(a: Vec3, s: int) -> Vec3 {
    Vec3 {
        x: fx_mul_spec(a.x as int, s) as i64,
        y: fx_mul_spec(a.y as int, s) as i64,
        z: fx_mul_spec(a.z as int, s) as i64,
    }
}

/// The model of `Vec3::dot`: the three scaled products, summed with
/// saturation after each addition.
pub open spec fn vdot_spec(a: Vec3, b: Vec3) -> int {
    clip(
        clip(fx_mul_spec(a.x as int, b.x as int) + fx_mul_spec(a.y as int, b.y as int))
            + fx_mul_spec(a.z as int, b.z as int),
    )
}

/// The model of `Vec3::norm`.
pub open spec fn vnorm_spec(a: Vec3) -> int {
    fx_sqrt_spec(vdot_spec(a, a))
}

/// The model of `Vec3::normalize`: the vector divided by its norm, or the
/// zero vector when the norm rounds to zero.
pub open spec fn vnormalize_spec(a: Vec3) -> Vec3 {
    let n = vnorm_spec(a);
    if n == 0 {
        Vec3 { x: 0, y: 0, z: 0 }
    } else {
        Vec3 {
            x: fx_div_spec(a.x as int, n) as i64,
            y: fx_div_spec(a.y as int, n) as i64,
            z: fx_div_spec(a.z as int, n) as i64,
        }
    }
}

/// The model of `Vec3::div`: each component divided by the scalar.
pub open spec fn vdiv_spec(a: Vec3, s: int) -> Vec3 {
    Vec3 {
        x: fx_div_spec(a.x as int, s) as i64,
        y: fx_div_spec(a.y as int, s) as i64,
        z: fx_div_spec(a.z as int, s) as i64,
    }
}

/// The arithmetic shape of an axis direction: each component squares to
/// one unit times its own size, and the component sizes sum to one unit.
pub proof fn lemma_axis_unit_facts(d: Vec3)
    requires
        axis_unit(d),
    ensures
        d.x * d.x == FX_ONE * iabs(d.x as int),
        d.y * d.y == FX_ONE * iabs(d.y as int),
        d.z * d.z == FX_ONE * iabs(d.z as int),
        iabs(d.x as int) + iabs(d.y as int) + iabs(d.z as int) == FX_ONE,
{
    let one = FX_ONE as int;
    let dx = d.x as int;
    let dy = d.y as int;
    let dz = d.z as int;
    assert(dx * dx == one * iabs(dx) && dy * dy == one * iabs(dy) && dz * dz == one * iabs(dz))
        by (nonlinear_arith)
        requires
            (dx == 0 || dx == one || dx == -one),
            (dy == 0 || dy == one || dy == -one),
            (dz == 0 || dz == one || dz == -one),
            one == 65536,
    ;
    assert(one * (iabs(dx) + iabs(dy) + iabs(dz)) == one * one) by (nonlinear_arith)
        requires
            dx * dx + dy * dy + dz * dz == one * one,
            dx * dx == one * iabs(dx),
            dy * dy == one * iabs(dy),
            dz * dz == one * iabs(dz),
    ;
    assert(iabs(dx) + iabs(dy) + iabs(dz) == one) by (nonlinear_arith)
        requires
            one * (iabs(dx) + iabs(dy) + iabs(dz)) == one * one,
            one > 0,
    ;
}

/// A scaled square is nonnegative and within the `i64` range.
pub proof fn lemma_fx_square_nonneg(a: int)
    requires
        i64::MIN <= a <= i64::MAX,
    ensures
        0 <= fx_mul_spec(a, a) <= i64::MAX,
{
    assert(a * a >= 0) by (nonlinear_arith);
    assert(tdiv(a * a, FX_ONE as int) >= 0) by {
        assert(iabs(a * a) == a * a);
        assert(iabs(a * a) / (FX_ONE as int) >= 0);
    }
}

/// The dot product of a vector with itself is nonnegative.
pub proof fn lemma_vdot_self_nonneg(a: Vec3)
    ensures
        0 <= vdot_spec(a, a) <= i64::MAX,
{
    lemma_fx_square_nonneg(a.x as int);
    lemma_fx_square_nonneg(a.y as int);
    lemma_fx_square_nonneg(a.z as int);
}

impl Vec3 {
    /// Build a vector from its components.
    pub fn new(x: i64, y: i64, z: i64) -> (r: Vec3)
        ensures
            r == (Vec3 { x, y, z }),
    {
        Vec3 { x, y, z }
    }

    /// The zero vector.
    pub fn zero() -> (r: Vec3)
        ensures
            r == (Vec3 { x: 0i64, y: 0i64, z: 0i64 }),
    {
        Vec3 { x: 0, y: 0, z: 0 }
    }

    /// Componentwise saturating addition.
    pub fn add(&self, rhs: &Vec3) -> (r: Vec3)
        ensures
            r == vadd_spec(*self, *rhs),
    {
        Vec3 { x: sat_add(self.x, rhs.x), y: sat_add(self.y, rhs.y), z: sat_add(self.z, rhs.z) }
    }

    /// Componentwise saturating subtraction.
    pub fn sub(&self, rhs: &Vec3) -> (r: Vec3)
        ensures
            r == vsub_spec(*self, *rhs),
    {
        Vec3 { x: sat_sub(self.x, rhs.x), y: sat_sub(self.y, rhs.y), z: sat_sub(self.z, rhs.z) }
    }

    /// Componentwise saturating negation.
    pub fn neg(&self) -> (r: Vec3)
        ensures
            r == vneg_spec(*self),
    {
        Vec3 { x: sat_neg(self.x), y: sat_neg(self.y), z: sat_neg(self.z) }
    }

    /// Multiply each component by a fixed-point scalar.
    pub fn scale(&self, s: i64) -> (r: Vec3)
        ensures
            r == vscale_spec(*self, s as int),
    {
        Vec3 { x: fx_mul(self.x, s), y: fx_mul(self.y, s), z: fx_mul(self.z, s) }
    }

    /// Divide each component by a fixed-point scalar.
    pub fn div(&self, s: i64) -> (r: Vec3)
        requires
            s != 0,
        ensures
            r == vdiv_spec(*self, s as int),
    {
        Vec3 { x: fx_div(self.x, s), y: fx_div(self.y, s), z: fx_div(self.z, s) }
    }

    /// Fixed-point dot product.
    pub fn dot(&self, rhs: &Vec3) -> (r: i64)
        ensures
            r as int == vdot_spec(*self, *rhs),
    {
        sat_add(sat_add(fx_mul(self.x, rhs.x), fx_mul(self.y, rhs.y)), fx_mul(self.z, rhs.z))
    }

    /// The squared norm; always nonnegative.
    pub fn norm_squared(&self) -> (r: i64)
        ensures
            r as int == vdot_spec(*self, *self),
            r >= 0,
    {
        proof {
            lemma_vdot_self_nonneg(*self);
        }
        self.dot(self)
    }

    /// The norm, rounded down to the fixed-point grid.
    pub fn norm(&self) -> (r: i64)
        ensures
            r as int == vnorm_spec(*self),
            r >= 0,
    {
        let ns = self.norm_squared();
        let r = fx_sqrt(ns);
        proof {
            crate::fx::lemma_isqrt((ns as int * FX_ONE as int) as nat);
        }
        r
    }

    /// The unit vector in this direction, or zero when the norm rounds to
    /// zero (only for vectors shorter than one fixed-point step).
    pub fn normalize(&self) -> (r: Vec3)
        ensures
            r == vnormalize_spec(*self),
    {
        let n = self.norm();
        if n == 0 {
            Vec3 { x: 0, y: 0, z: 0 }
        } else {
            Vec3 { x: fx_div(self.x, n), y: fx_div(self.y, n), z: fx_div(self.z, n) }
        }
    }
}

} // verus!
