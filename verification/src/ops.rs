//! Pure optics: mirror reflection, Snell refraction, and Fresnel
//! coefficients, all in fixed point.

use vstd::prelude::*;
use crate::fx::{
    clamp_spec, clip, fx_clamp, fx_div, fx_div_spec, fx_half, fx_mul, fx_mul_spec, fx_sqrt,
    fx_sqrt_spec, iabs, isqrt_spec, lemma_fx_div_nonneg, lemma_fx_div_ratio_bounded,
    lemma_fx_mul_ge_one, lemma_fx_mul_nonneg, lemma_fx_mul_one, lemma_fx_mul_spec_exact,
    lemma_fx_mul_zero,
    lemma_fx_sqrt_pos, lemma_fx_square_below_unit, lemma_fx_square_unit,
    lemma_isqrt_perfect_square, sat_dbl, sat_neg, sat_add, sat_sub, tdiv, FX_ONE,
};
use crate::vec::{
    axis_unit, lemma_fx_square_nonneg, vadd_spec, vdiv_spec, vdot_spec, vneg_spec, vscale_spec,
    vsub_spec, Vec3,
};

verus! {

/// The model of `reflect`: `2 (n·v) n - v`, rounded to the grid.
pub open spec fn reflect_spec(v: Vec3, n: Vec3) -> Vec3 {
    vsub_spec(vscale_spec(n, clip(2 * vdot_spec(n, v))), v)
}

/// Mirror a vector in a unit normal: `2 (n·v) n - v`.
pub fn reflect(v: &Vec3, n: &Vec3) -> (r: Vec3)
    ensures
        r == reflect_spec(*v, *n),
{
    let d2 = sat_dbl(n.dot(v));
    n.scale(d2).sub(v)
}

/// The cosine of the incident angle: `-(n·i)`, clamped to `[-1, 1]`.
pub open spec fn cos_i_spec(i: Vec3, n: Vec3) -> int {
    clamp_spec(clip(-vdot_spec(n, i)), -(FX_ONE as int), FX_ONE as int)
}

/// The sine of the incident angle, from `sin^2 = 1 - cos^2`.
pub open spec fn sin_i_spec(i: Vec3, n: Vec3) -> int {
    fx_sqrt_spec(FX_ONE - fx_mul_spec(cos_i_spec(i, n), cos_i_spec(i, n)))
}

/// The transmission sine by Snell's law: `(n_i / n_t) sin_i`.
pub open spec fn sin_t_spec(i: Vec3, n: Vec3, n_i: int, n_t: int) -> int {
    fx_div_spec(fx_mul_spec(n_i, sin_i_spec(i, n)), n_t)
}

/// The model of `refract`: no result whenever the transmission sine
/// exceeds one (total internal reflection); otherwise the transmitted
/// direction `sin_t * tangent - cos_t * n`, where the tangent is the
/// in-plane unit component of the incident direction.
#[verifier::opaque]
pub open spec fn refract_spec(i: Vec3, n: Vec3, n_i: int, n_t: int) -> Option<Vec3> {
    let cos_i = cos_i_spec(i, n);
    let sin_i = sin_i_spec(i, n);
    let sin_t = sin_t_spec(i, n, n_i, n_t);
    if sin_t > FX_ONE {
        Option::None
    } else {
        let cos_t = fx_sqrt_spec(FX_ONE - fx_mul_spec(sin_t, sin_t));
        let tangent = if sin_i > 0 {
            vdiv_spec(vadd_spec(vscale_spec(n, cos_i), i), sin_i)
        } else {
            Vec3 { x: 0, y: 0, z: 0 }
        };
        Option::Some(
            vadd_spec(vscale_spec(tangent, sin_t), vscale_spec(vneg_spec(n), cos_t)),
        )
    }
}

/// Refract a unit direction `i` at a surface with unit normal `n`
/// oriented against it, passing from refractive index `n_i` into `n_t`
/// (the caller pre-orients normal and index order for the side the ray
/// approaches from).  `None` means total internal reflection.
pub fn refract(i: &Vec3, n: &Vec3, n_i: i64, n_t: i64) -> (r: Option<Vec3>)
    requires
        n_i > 0,
        n_t > 0,
    ensures
        r == refract_spec(*i, *n, n_i as int, n_t as int),
        r is Some <==> sin_t_spec(*i, *n, n_i as int, n_t as int) <= FX_ONE,
{
    proof {
        reveal(refract_spec);
    }
    let cos_i = fx_clamp(sat_neg(n.dot(i)), -FX_ONE, FX_ONE);
    proof {
        lemma_fx_square_unit(cos_i as int);
    }
    let cs = fx_mul(cos_i, cos_i);
    let sin_i = fx_sqrt(FX_ONE - cs);
    proof {
        lemma_fx_mul_nonneg(n_i as int, sin_i as int);
        lemma_fx_div_nonneg(fx_mul_spec(n_i as int, sin_i as int), n_t as int);
    }
    let sin_t = fx_div(fx_mul(n_i, sin_i), n_t);
    if sin_t > FX_ONE {
        None
    } else {
        proof {
            lemma_fx_square_unit(sin_t as int);
        }
        let st2 = fx_mul(sin_t, sin_t);
        let cos_t = fx_sqrt(FX_ONE - st2);
        let tangent = if sin_i > 0 {
            n.scale(cos_i).add(i).div(sin_i)
        } else {
            Vec3::zero()
        };
        Some(tangent.scale(sin_t).add(&n.neg().scale(cos_t)))
    }
}

/// The model of `fresnel`: `(1, 0)` as soon as the transmission sine
/// reaches one, and also at grazing degeneracy (a zero denominator);
/// otherwise the unpolarized average of the squared s- and
/// p-polarization amplitude ratios, and its complement.
#[verifier::opaque]
pub open spec fn fresnel_spec(i: Vec3, n: Vec3, n_i: int, n_t: int) -> (int, int) {
    let cos_i = cos_i_spec(i, n);
    let sin_t = sin_t_spec(i, n, n_i, n_t);
    if sin_t >= FX_ONE {
        (FX_ONE as int, 0)
    } else {
        let cos_t = fx_sqrt_spec(FX_ONE - fx_mul_spec(sin_t, sin_t));
        let a = fx_mul_spec(n_t, cos_i);
        let b = fx_mul_spec(n_i, cos_t);
        let den = clip(a + b);
        if den == 0 {
            (FX_ONE as int, 0)
        } else {
            let rs = fx_div_spec(clip(a - b), den);
            let rp = fx_div_spec(clip(b - a), den);
            let kr = clip(fx_mul_spec(rs, rs) + fx_mul_spec(rp, rp)) / 2;
            (kr, FX_ONE - kr)
        }
    }
}

/// Fresnel reflectance and transmittance `(kr, kt)` for an incident
/// direction `i` against a unit normal `n` oriented against it.  The two
/// coefficients always sum to exactly one, and the result is exactly
/// `(1, 0)` whenever the transmission sine reaches one.  When the normal
/// is properly oriented (`n·i <= 0`) and both indices are at least one,
/// the reflectance lies within `[0, 1]`.
pub fn fresnel(i: &Vec3, n: &Vec3, n_i: i64, n_t: i64) -> (r: (i64, i64))
    requires
        n_i > 0,
        n_t > 0,
    ensures
        (r.0 as int, r.1 as int) == fresnel_spec(*i, *n, n_i as int, n_t as int),
        r.0 + r.1 == FX_ONE,
        0 <= r.0,
        sin_t_spec(*i, *n, n_i as int, n_t as int) >= FX_ONE ==> r.0 == FX_ONE && r.1 == 0,
        vdot_spec(*n, *i) <= 0 && n_i >= FX_ONE && n_t >= FX_ONE ==> r.0 <= FX_ONE,
{
    proof {
        reveal(fresnel_spec);
    }
    let cos_i = fx_clamp(sat_neg(n.dot(i)), -FX_ONE, FX_ONE);
    proof {
        lemma_fx_square_unit(cos_i as int);
    }
    let cs = fx_mul(cos_i, cos_i);
    let sin_i = fx_sqrt(FX_ONE - cs);
    proof {
        lemma_fx_mul_nonneg(n_i as int, sin_i as int);
        lemma_fx_div_nonneg(fx_mul_spec(n_i as int, sin_i as int), n_t as int);
    }
    let sin_t = fx_div(fx_mul(n_i, sin_i), n_t);
    if sin_t >= FX_ONE {
        (FX_ONE, 0)
    } else {
        proof {
            lemma_fx_square_below_unit(sin_t as int);
        }
        let st2 = fx_mul(sin_t, sin_t);
        let cos_t = fx_sqrt(FX_ONE - st2);
        let a = fx_mul(n_t, cos_i);
        let b = fx_mul(n_i, cos_t);
        let den = sat_add(a, b);
        if den == 0 {
            (FX_ONE, 0)
        } else {
            let num_s = sat_sub(a, b);
            let rs = fx_div(num_s, den);
            let num_p = sat_sub(b, a);
            let den_p = sat_add(b, a);
            let rp = fx_div(num_p, den_p);
            proof {
                lemma_fx_square_nonneg(rs as int);
                lemma_fx_square_nonneg(rp as int);
            }
            let kr = fx_half(sat_add(fx_mul(rs, rs), fx_mul(rp, rp)));
            proof {
                if vdot_spec(*n, *i) <= 0 && n_i >= FX_ONE && n_t >= FX_ONE {
                    lemma_fx_sqrt_pos(FX_ONE - st2 as int);
                    lemma_fx_mul_nonneg(n_t as int, cos_i as int);
                    lemma_fx_mul_ge_one(n_i as int, cos_t as int);
                    assert(iabs(num_s as int) <= den as int);
                    lemma_fx_div_ratio_bounded(num_s as int, den as int);
                    assert(iabs(num_p as int) <= den_p as int);
                    lemma_fx_div_ratio_bounded(num_p as int, den_p as int);
                    lemma_fx_square_unit(rs as int);
                    lemma_fx_square_unit(rp as int);
                    assert(kr <= FX_ONE);
                }
            }
            (kr, FX_ONE - kr)
        }
    }
}

/// A head-on ray refracts straight through, exactly: when the incident
/// cosine clamps to one, the refracted direction is the inward normal,
/// for any positive pair of indices.  This is the exactly-representable
/// case of the refraction round trip, which rounding otherwise blurs.
pub proof fn lemma_refract_head_on(i: Vec3, n: Vec3, n_i: int, n_t: int)
    requires
        clip(-vdot_spec(n, i)) >= FX_ONE,
        n_i > 0,
        n_t > 0,
    ensures
        refract_spec(i, n, n_i, n_t) == Option::Some(vneg_spec(n)),
{
    reveal(refract_spec);
    let one = FX_ONE as int;
    assert(cos_i_spec(i, n) == one);
    assert(fx_mul_spec(one, one) == one) by {
        lemma_fx_mul_one(one);
    }
    assert(fx_sqrt_spec(0) == 0) by {
        assert(isqrt_spec(0) == 0);
    }
    assert(sin_i_spec(i, n) == 0);
    assert(fx_mul_spec(n_i, 0) == 0) by {
        lemma_fx_mul_zero(n_i);
    }
    assert(tdiv(0, n_t) == 0);
    assert(sin_t_spec(i, n, n_i, n_t) == 0);
    assert(fx_mul_spec(0, 0) == 0) by {
        lemma_fx_mul_zero(0);
    }
    assert(fx_sqrt_spec(one) == one) by {
        lemma_isqrt_perfect_square(FX_ONE as nat);
        assert((one * FX_ONE) as nat == (FX_ONE as nat) * (FX_ONE as nat));
    }
    let nn = vneg_spec(n);
    assert(fx_mul_spec(nn.x as int, one) == nn.x as int) by {
        lemma_fx_mul_one(nn.x as int);
    }
    assert(fx_mul_spec(nn.y as int, one) == nn.y as int) by {
        lemma_fx_mul_one(nn.y as int);
    }
    assert(fx_mul_spec(nn.z as int, one) == nn.z as int) by {
        lemma_fx_mul_one(nn.z as int);
    }
    assert(vscale_spec(nn, one) == nn);
    let tangent = Vec3 { x: 0, y: 0, z: 0 };
    assert(vscale_spec(tangent, 0) == tangent) by {
        lemma_fx_mul_zero(0);
    }
    assert(vadd_spec(tangent, nn) == nn);
}

/// A product with an axis component is exact: zero, the scalar itself,
/// or its negation.
proof fn lemma_axis_mul(nc: int, w: int)
    requires
        nc == 0 || nc == FX_ONE || nc == -FX_ONE,
        i64::MIN < w <= i64::MAX,
    ensures
        fx_mul_spec(nc, w) == (if nc == 0 {
            0int
        } else if nc == FX_ONE {
            w
        } else {
            -w
        }),
{
    if nc == 0 {
        lemma_fx_mul_zero(w);
    } else if nc == FX_ONE {
        lemma_fx_mul_one(w);
    } else {
        assert(nc * w == FX_ONE * (-w)) by (nonlinear_arith)
            requires
                nc == -(FX_ONE as int),
        ;
        lemma_fx_mul_spec_exact(nc, w, -w);
    }
}

/// The executable reflection is exactly involutive in an axis normal:
/// for such normals no rounding occurs, and reflecting any vector twice
/// returns it unchanged (components bounded away from the saturation
/// edge).
pub proof fn lemma_reflect_involution_axis(v: Vec3, n: Vec3)
    requires
        axis_unit(n),
        iabs(v.x as int) <= 0x2000_0000_0000_0000,
        iabs(v.y as int) <= 0x2000_0000_0000_0000,
        iabs(v.z as int) <= 0x2000_0000_0000_0000,
    ensures
        reflect_spec(reflect_spec(v, n), n) == v,
{
    let one = FX_ONE as int;
    let nx = n.x as int;
    let ny = n.y as int;
    let nz = n.z as int;
    if nx != 0 {
        assert(ny == 0 && nz == 0) by (nonlinear_arith)
            requires
                nx * nx + ny * ny + nz * nz == one * one,
                nx == one || nx == -one,
                ny == 0 || ny == one || ny == -one,
                nz == 0 || nz == one || nz == -one,
                one == 65536,
        ;
        lemma_reflect_axis_step(v, n);
        let r1 = reflect_spec(v, n);
        assert(r1 == (Vec3 { x: v.x, y: (-(v.y as int)) as i64, z: (-(v.z as int)) as i64 }));
        lemma_reflect_axis_step(r1, n);
    } else if ny != 0 {
        assert(nx == 0 && nz == 0) by (nonlinear_arith)
            requires
                nx * nx + ny * ny + nz * nz == one * one,
                nx == 0,
                ny == one || ny == -one,
                nz == 0 || nz == one || nz == -one,
                one == 65536,
        ;
        lemma_reflect_axis_step(v, n);
        let r1 = reflect_spec(v, n);
        lemma_reflect_axis_step(r1, n);
    } else {
        assert(nz != 0) by (nonlinear_arith)
            requires
                nx * nx + ny * ny + nz * nz == one * one,
                nx == 0,
                ny == 0,
                nz == 0 || nz == one || nz == -one,
                one == 65536,
        ;
        lemma_reflect_axis_step(v, n);
        let r1 = reflect_spec(v, n);
        lemma_reflect_axis_step(r1, n);
    }
}

/// One reflection in an axis normal keeps the on-axis component and
/// negates the two others, exactly.
proof fn lemma_reflect_axis_step(v: Vec3, n: Vec3)
    requires
        (n.x == 0 || n.x == FX_ONE || n.x == -FX_ONE),
        (n.y == 0 || n.y == FX_ONE || n.y == -FX_ONE),
        (n.z == 0 || n.z == FX_ONE || n.z == -FX_ONE),
        (n.x != 0 && n.y == 0 && n.z == 0) || (n.x == 0 && n.y != 0 && n.z == 0) || (n.x == 0
            && n.y == 0 && n.z != 0),
        iabs(v.x as int) <= 0x2000_0000_0000_0000,
        iabs(v.y as int) <= 0x2000_0000_0000_0000,
        iabs(v.z as int) <= 0x2000_0000_0000_0000,
    ensures
        n.x != 0 ==> reflect_spec(v, n) == (Vec3 {
            x: v.x,
            y: (-(v.y as int)) as i64,
            z: (-(v.z as int)) as i64,
        }),
        n.y != 0 ==> reflect_spec(v, n) == (Vec3 {
            x: (-(v.x as int)) as i64,
            y: v.y,
            z: (-(v.z as int)) as i64,
        }),
        n.z != 0 ==> reflect_spec(v, n) == (Vec3 {
            x: (-(v.x as int)) as i64,
            y: (-(v.y as int)) as i64,
            z: v.z,
        }),
{
    lemma_axis_mul(n.x as int, v.x as int);
    lemma_axis_mul(n.y as int, v.y as int);
    lemma_axis_mul(n.z as int, v.z as int);
    let d = vdot_spec(n, v);
    let t = clip(2 * d);
    assert(t == 2 * d);
    lemma_axis_mul(n.x as int, t);
    lemma_axis_mul(n.y as int, t);
    lemma_axis_mul(n.z as int, t);
}

/// The exact inner product of integer triples.
pub open spec fn idot3(a: (int, int, int), b: (int, int, int)) -> int {
    a.0 * b.0 + a.1 * b.1 + a.2 * b.2
}

/// Exact mirror reflection over a common denominator `s`: the numerators
/// of `2 (n·v) n - v` when `n` has squared norm `s`.  This is the algebra
/// that `reflect` computes and then rounds to the fixed-point grid.
pub open spec fn ireflect(v: (int, int, int), n: (int, int, int), s: int) -> (int, int, int) {
    let d = idot3(n, v);
    (2 * d * n.0 - s * v.0, 2 * d * n.1 - s * v.1, 2 * d * n.2 - s * v.2)
}

/// Mirror reflection is an involution: reflecting any vector twice in the
/// same normal returns the vector, over the exact algebra (each pass
/// contributes one factor of the normal's squared norm `s` as a common
/// denominator).
pub proof fn lemma_reflect_involution(v: (int, int, int), n: (int, int, int), s: int)
    requires
        idot3(n, n) == s,
    ensures
        ireflect(ireflect(v, n, s), n, s) == (s * s * v.0, s * s * v.1, s * s * v.2),
{
    let d = idot3(n, v);
    let a = 2 * d * n.0 - s * v.0;
    let b = 2 * d * n.1 - s * v.1;
    let c = 2 * d * n.2 - s * v.2;
    assert(ireflect(v, n, s) == (a, b, c));
    assert(n.0 * a == 2 * d * (n.0 * n.0) - s * (n.0 * v.0)) by (nonlinear_arith)
        requires
            a == 2 * d * n.0 - s * v.0,
    ;
    assert(n.1 * b == 2 * d * (n.1 * n.1) - s * (n.1 * v.1)) by (nonlinear_arith)
        requires
            b == 2 * d * n.1 - s * v.1,
    ;
    assert(n.2 * c == 2 * d * (n.2 * n.2) - s * (n.2 * v.2)) by (nonlinear_arith)
        requires
            c == 2 * d * n.2 - s * v.2,
    ;
    assert(2 * d * (n.0 * n.0) + 2 * d * (n.1 * n.1) + 2 * d * (n.2 * n.2) == 2 * d * s)
        by (nonlinear_arith)
        requires
            s == n.0 * n.0 + n.1 * n.1 + n.2 * n.2,
    ;
    assert(s * (n.0 * v.0) + s * (n.1 * v.1) + s * (n.2 * v.2) == s * d) by (nonlinear_arith)
        requires
            d == n.0 * v.0 + n.1 * v.1 + n.2 * v.2,
    ;
    assert(2 * d * s - s * d == s * d) by (nonlinear_arith);
    assert(n.0 * a + n.1 * b + n.2 * c == s * d);
    assert(idot3(n, (a, b, c)) == s * d);
    assert(2 * (s * d) * n.0 - s * a == s * s * v.0) by (nonlinear_arith)
        requires
            a == 2 * d * n.0 - s * v.0,
    ;
    assert(2 * (s * d) * n.1 - s * b == s * s * v.1) by (nonlinear_arith)
        requires
            b == 2 * d * n.1 - s * v.1,
    ;
    assert(2 * (s * d) * n.2 - s * c == s * s * v.2) by (nonlinear_arith)
        requires
            c == 2 * d * n.2 - s * v.2,
    ;
}

} // verus!
