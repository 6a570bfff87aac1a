//! Signed fixed-point scalars: an `i64` counts steps of `1 / FX_ONE`.
//!
//! Every operation is total. Multiplication and division truncate toward
//! zero (as the corresponding real operation would, rounded toward zero)
//! and results outside the `i64` range saturate to the nearest bound.
//! Each executable operation is pinned to a spec-level model over `int`.

use vstd::prelude::*;

verus! {

/// One unit: scalars are counts of `1 / FX_ONE`.
pub const FX_ONE: i64 = 65536;

/// Absolute value over `int`.
pub open spec fn iabs(a: int) -> int {
    if a < 0 {
        -a
    } else {
        a
    }
}

/// Truncating (toward-zero) integer division; `0` when the divisor is `0`.
pub open spec fn tdiv(a: int, b: int) -> int {
    if b == 0 {
        0
    } else {
        let q = iabs(a) / iabs(b);
        if (a < 0) == (b < 0) {
            q
        } else {
            -q
        }
    }
}

/// Saturation to the `i64` range.
pub open spec fn clip(a: int) -> int {
    if a > i64::MAX {
        i64::MAX as int
    } else if a < i64::MIN {
        i64::MIN as int
    } else {
        a
    }
}

/// The model of `fx_mul`: the scaled product, truncated and saturated.
pub open spec fn fx_mul_spec(a: int, b: int) -> int {
    clip(tdiv(a * b, FX_ONE as int))
}

/// The model of `fx_div`: the scaled quotient, truncated and saturated.
pub open spec fn fx_div_spec(a: int, b: int) -> int {
    clip(tdiv(a * FX_ONE, b))
}

/// Integer square root, defined by halving the argument's digits.
pub open spec fn isqrt_spec(n: nat) -> nat
    decreases n,
{
    if n == 0 {
        0
    } else {
        let r = 2 * isqrt_spec(n / 4);
        if (r + 1) * (r + 1) <= n {
            r + 1
        } else {
            r
        }
    }
}

/// `isqrt_spec(n)` is the floor of the square root of `n`.
pub proof fn lemma_isqrt(n: nat)
    ensures
        isqrt_spec(n) * isqrt_spec(n) <= n,
        n < (isqrt_spec(n) + 1) * (isqrt_spec(n) + 1),
    decreases n,
{
    if n > 0 {
        let q = n / 4;
        lemma_isqrt(q);
        let s = isqrt_spec(q);
        let r: nat = 2 * s;
        assert(n == 4 * q + n % 4) by {
            vstd::arithmetic::div_mod::lemma_fundamental_div_mod(n as int, 4);
        }
        assert(n >= 4 * q);
        assert(n < 4 * q + 4);
        assert(r * r <= n) by (nonlinear_arith)
            requires
                s * s <= q,
                r == 2 * s,
                n >= 4 * q,
        ;
        assert(n < (r + 2) * (r + 2)) by (nonlinear_arith)
            requires
                q < (s + 1) * (s + 1),
                r == 2 * s,
                n < 4 * q + 4,
        ;
        if (r + 1) * (r + 1) <= n {
            assert(isqrt_spec(n) == r + 1);
            assert(isqrt_spec(n) * isqrt_spec(n) <= n);
            assert((isqrt_spec(n) + 1) * (isqrt_spec(n) + 1) == (r + 2) * (r + 2));
            assert(n < (isqrt_spec(n) + 1) * (isqrt_spec(n) + 1));
        } else {
            assert(isqrt_spec(n) == r);
            assert(isqrt_spec(n) * isqrt_spec(n) <= n);
            assert(n < (isqrt_spec(n) + 1) * (isqrt_spec(n) + 1));
        }
    } else {
        assert(isqrt_spec(n) == 0);
        assert(n < (isqrt_spec(n) + 1) * (isqrt_spec(n) + 1)) by (nonlinear_arith)
            requires
                n == 0,
                isqrt_spec(n) == 0,
        ;
    }
}

/// The model of `fx_sqrt`: the square root of a nonnegative scalar,
/// rounded down to the fixed-point grid; `0` for negative input.
pub open spec fn fx_sqrt_spec(a: int) -> int {
    if a < 0 {
        0
    } else {
        isqrt_spec((a * FX_ONE) as nat) as int
    }
}

/// The model of `fx_powi`: the `n`-fold scaled product of `b`, truncating
/// after each factor; `FX_ONE` (one) when `n <= 0`.
pub open spec fn fx_powi_spec(b: int, n: int) -> int
    decreases n,
{
    if n <= 0 {
        FX_ONE as int
    } else {
        fx_mul_spec(fx_powi_spec(b, n - 1), b)
    }
}

/// Dividing an exact multiple is exact.
pub proof fn lemma_tdiv_exact(q: int, d: int)
    requires
        d > 0,
    ensures
        tdiv(q * d, d) == q,
        tdiv(d * q, d) == q,
{
    assert(iabs(q * d) == iabs(q) * d) by (nonlinear_arith)
        requires
            d > 0,
    ;
    assert(q * d == d * q) by (nonlinear_arith);
    assert((d * iabs(q)) / d == iabs(q)) by {
        vstd::arithmetic::div_mod::lemma_div_multiples_vanish(iabs(q), d);
    }
    assert(iabs(q) * d == d * iabs(q)) by (nonlinear_arith);
    if q >= 0 {
        assert(tdiv(q * d, d) == q);
    } else {
        assert(q * d < 0) by (nonlinear_arith)
            requires
                q < 0,
                d > 0,
        ;
        assert(tdiv(q * d, d) == -(iabs(q * d) / d));
    }
}

/// The integer square root of a perfect square is exact.
pub proof fn lemma_isqrt_perfect_square(q: nat)
    ensures
        isqrt_spec(q * q) == q,
{
    lemma_isqrt(q * q);
    let r = isqrt_spec(q * q);
    assert(r <= q) by (nonlinear_arith)
        requires
            r * r <= q * q,
    ;
    assert(q <= r) by (nonlinear_arith)
        requires
            q * q < (r + 1) * (r + 1),
    ;
}

/// A scaled product whose numerator is an exact multiple of the unit is
/// computed exactly.
pub proof fn lemma_fx_mul_spec_exact(a: int, b: int, k: int)
    requires
        a * b == FX_ONE * k,
        i64::MIN <= k <= i64::MAX,
    ensures
        fx_mul_spec(a, b) == k,
{
    lemma_tdiv_exact(k, FX_ONE as int);
}

/// A scaled quotient that divides exactly is computed exactly.
pub proof fn lemma_fx_div_spec_exact(a: int, b: int, k: int)
    requires
        a * FX_ONE == b * k,
        b > 0,
        i64::MIN <= k <= i64::MAX,
    ensures
        fx_div_spec(a, b) == k,
{
    lemma_tdiv_exact(k, b);
}

/// Multiplying by a whole multiple of the unit is exact.
pub proof fn lemma_fx_mul_unit_multiple(a: int, k: int)
    requires
        i64::MIN <= a <= i64::MAX,
        i64::MIN <= k * a <= i64::MAX,
        i64::MIN <= k * FX_ONE <= i64::MAX,
    ensures
        fx_mul_spec(a, k * FX_ONE) == k * a,
        fx_mul_spec(k * FX_ONE, a) == k * a,
{
    assert(a * (k * FX_ONE) == FX_ONE * (k * a)) by (nonlinear_arith);
    assert((k * FX_ONE) * a == FX_ONE * (k * a)) by (nonlinear_arith);
    lemma_fx_mul_spec_exact(a, k * FX_ONE, k * a);
    lemma_fx_mul_spec_exact(k * FX_ONE, a, k * a);
}

/// Multiplying by the fixed-point unit is exact.
pub proof fn lemma_fx_mul_one(a: int)
    requires
        i64::MIN <= a <= i64::MAX,
    ensures
        fx_mul_spec(FX_ONE as int, a) == a,
        fx_mul_spec(a, FX_ONE as int) == a,
{
    let d = FX_ONE as int;
    assert(iabs(d * a) == d * iabs(a));
    assert(iabs(a * d) == d * iabs(a));
    assert((d * iabs(a)) / d == iabs(a)) by {
        vstd::arithmetic::div_mod::lemma_div_multiples_vanish(iabs(a), d);
    }
    assert(tdiv(d * a, d) == a);
    assert(tdiv(a * d, d) == a);
}

/// Multiplying by zero gives zero.
pub proof fn lemma_fx_mul_zero(a: int)
    ensures
        fx_mul_spec(0, a) == 0,
        fx_mul_spec(a, 0) == 0,
{
    assert(0 * a == 0) by (nonlinear_arith);
    assert(a * 0 == 0) by (nonlinear_arith);
    assert(iabs(0) / iabs(FX_ONE as int) == 0);
}

/// The scaled product of nonnegative scalars is nonnegative.
pub proof fn lemma_fx_mul_nonneg(a: int, b: int)
    requires
        a >= 0,
        b >= 0,
    ensures
        fx_mul_spec(a, b) >= 0,
{
    assert(a * b >= 0) by (nonlinear_arith)
        requires
            a >= 0,
            b >= 0,
    ;
    assert(iabs(a * b) / (FX_ONE as int) >= 0);
}

/// The scaled product of two scalars between minus one and one stays
/// between zero (for a square) and one.
pub proof fn lemma_fx_square_unit(c: int)
    requires
        -(FX_ONE as int) <= c <= FX_ONE as int,
    ensures
        0 <= fx_mul_spec(c, c) <= FX_ONE as int,
{
    let d = FX_ONE as int;
    assert(0 <= c * c <= d * d) by (nonlinear_arith)
        requires
            -d <= c <= d,
    ;
    assert(iabs(c * c) == c * c);
    assert((c * c) / d <= (d * d) / d) by {
        vstd::arithmetic::div_mod::lemma_div_is_ordered(c * c, d * d, d);
    }
    assert((d * d) / d == d) by {
        vstd::arithmetic::div_mod::lemma_div_multiples_vanish(d, d);
    }
}

/// A scaled product of factors at least one and at least one step stays
/// at least one step.
pub proof fn lemma_fx_mul_ge_one(a: int, b: int)
    requires
        a >= FX_ONE,
        b >= 1,
    ensures
        fx_mul_spec(a, b) >= 1,
{
    let d = FX_ONE as int;
    assert(a * b >= d) by (nonlinear_arith)
        requires
            a >= d,
            b >= 1,
            d > 0,
    ;
    assert(iabs(a * b) == a * b);
    assert((a * b) / d >= d / d) by {
        vstd::arithmetic::div_mod::lemma_div_is_ordered(d, a * b, d);
    }
    assert(d / d == 1) by {
        vstd::arithmetic::div_mod::lemma_div_multiples_vanish(1, d);
    }
}

/// The scaled square of a scalar strictly below one stays at least two
/// steps below one.
pub proof fn lemma_fx_square_below_unit(s: int)
    requires
        0 <= s <= FX_ONE - 1,
    ensures
        0 <= fx_mul_spec(s, s) <= FX_ONE - 2,
{
    let d = FX_ONE as int;
    assert(0 <= s * s <= (d - 1) * (d - 1)) by (nonlinear_arith)
        requires
            0 <= s <= d - 1,
    ;
    assert(iabs(s * s) == s * s);
    assert((s * s) / d <= ((d - 1) * (d - 1)) / d) by {
        vstd::arithmetic::div_mod::lemma_div_is_ordered(s * s, (d - 1) * (d - 1), d);
    }
    assert((d - 1) * (d - 1) == d * (d - 2) + 1) by (nonlinear_arith);
    assert((d * (d - 2) + 1) / d == d - 2) by {
        vstd::arithmetic::div_mod::lemma_div_multiples_vanish_fancy(d - 2, 1, d);
    }
}

/// The scaled quotient of a nonnegative scalar by a positive one is
/// nonnegative.
pub proof fn lemma_fx_div_nonneg(a: int, b: int)
    requires
        a >= 0,
        b > 0,
    ensures
        fx_div_spec(a, b) >= 0,
{
    assert(a * FX_ONE >= 0);
    assert(iabs(a * FX_ONE) / iabs(b) >= 0);
}

/// A quotient whose numerator magnitude is at most the (positive)
/// denominator is between minus one and one after scaling.
pub proof fn lemma_fx_div_ratio_bounded(a: int, b: int)
    requires
        iabs(a) <= b,
        b >= 1,
    ensures
        -(FX_ONE as int) <= fx_div_spec(a, b) <= FX_ONE as int,
{
    let d = FX_ONE as int;
    assert(iabs(a * d) == iabs(a) * d) by (nonlinear_arith)
        requires
            d > 0,
    ;
    assert(iabs(a) * d <= b * d) by (nonlinear_arith)
        requires
            iabs(a) <= b,
            d > 0,
    ;
    assert((iabs(a) * d) / b <= (b * d) / b) by {
        vstd::arithmetic::div_mod::lemma_div_is_ordered(iabs(a) * d, b * d, b);
    }
    assert((b * d) / b == d) by {
        vstd::arithmetic::div_mod::lemma_div_multiples_vanish(d, b);
    }
    assert(iabs(a) * d / b >= 0);
}

/// A square root of at least one step is itself at least one step.
pub proof fn lemma_fx_sqrt_pos(a: int)
    requires
        a >= 1,
        a <= i64::MAX,
    ensures
        fx_sqrt_spec(a) >= 1,
{
    let n = (a * FX_ONE) as nat;
    lemma_isqrt(n);
    let r = isqrt_spec(n);
    if r == 0 {
        assert((r + 1) * (r + 1) == 1) by (nonlinear_arith)
            requires
                r == 0,
        ;
        assert(n >= FX_ONE);
        assert(false);
    }
}

/// The product of two `i64` values stays within `i128`.
proof fn lemma_i64_product_in_i128(a: int, b: int)
    requires
        i64::MIN <= a <= i64::MAX,
        i64::MIN <= b <= i64::MAX,
    ensures
        iabs(a * b) <= 0x4000_0000_0000_0000_0000_0000_0000_0000,
    {
    assert(iabs(a * b) <= 0x4000_0000_0000_0000_0000_0000_0000_0000)
        by (nonlinear_arith)
        requires
            -0x8000_0000_0000_0000 <= a <= 0x7fff_ffff_ffff_ffff,
            -0x8000_0000_0000_0000 <= b <= 0x7fff_ffff_ffff_ffff,
    ;
}

/// Truncating division on `i128`, via the unsigned magnitudes.
fn tdiv128(a: i128, b: i128) -> (r: i128)
    requires
        b != 0,
        a > i128::MIN,
        b > i128::MIN,
    ensures
        r as int == tdiv(a as int, b as int),
    {
    let an: u128 = if a < 0 {
        (-a) as u128
    } else {
        a as u128
    };
    let bn: u128 = if b < 0 {
        (-b) as u128
    } else {
        b as u128
    };
    let qn: u128 = an / bn;
    assert(qn <= an) by {
        vstd::arithmetic::div_mod::lemma_div_is_ordered_by_denominator(
            an as int,
            1,
            bn as int,
        );
    }
    if (a < 0) == (b < 0) {
        qn as i128
    } else {
        -(qn as i128)
    }
}

/// Saturation of an `i128` into the `i64` range.
fn clip64(a: i128) -> (r: i64)
    ensures
        r as int == clip(a as int),
    {
    if a > i64::MAX as i128 {
        i64::MAX
    } else if a < i64::MIN as i128 {
        i64::MIN
    } else {
        a as i64
    }
}

/// Fixed-point multiplication: truncates toward zero, saturates on overflow.
pub fn fx_mul(a: i64, b: i64) -> (r: i64)
    ensures
        r as int == fx_mul_spec(a as int, b as int),
    {
    proof {
        lemma_i64_product_in_i128(a as int, b as int);
    }
    let p: i128 = (a as i128) * (b as i128);
    clip64(tdiv128(p, FX_ONE as i128))
}

/// Fixed-point division: truncates toward zero, saturates on overflow.
pub fn fx_div(a: i64, b: i64) -> (r: i64)
    requires
        b != 0,
    ensures
        r as int == fx_div_spec(a as int, b as int),
    {
    proof {
        lemma_i64_product_in_i128(a as int, FX_ONE as int);
    }
    let p: i128 = (a as i128) * (FX_ONE as i128);
    clip64(tdiv128(p, b as i128))
}

/// Saturating addition.
pub fn sat_add(a: i64, b: i64) -> (r: i64)
    ensures
        r as int == clip(a + b),
    {
    clip64((a as i128) + (b as i128))
}

/// Saturating subtraction.
pub fn sat_sub(a: i64, b: i64) -> (r: i64)
    ensures
        r as int == clip(a - b),
    {
    clip64((a as i128) - (b as i128))
}

/// Saturating negation.
pub fn sat_neg(a: i64) -> (r: i64)
    ensures
        r as int == clip(-a),
    {
    clip64(-(a as i128))
}

/// Saturating doubling.
pub fn sat_dbl(a: i64) -> (r: i64)
    ensures
        r as int == clip(2 * a),
    {
    clip64(2 * (a as i128))
}

/// Integer square root of `n`, exactly `isqrt_spec(n)`.
pub fn isqrt(n: u128) -> (r: u128)
    requires
        n < 0x4000_0000_0000_0000_0000_0000_0000_0000,
    ensures
        r as nat == isqrt_spec(n as nat),
    decreases n,
{
    if n == 0 {
        0
    } else {
        let s = isqrt(n / 4);
        proof {
            lemma_isqrt((n / 4) as nat);
            assert(s < 0x4000_0000_0000_0000) by (nonlinear_arith)
                requires
                    s * s <= n / 4,
                    n / 4 < 0x1000_0000_0000_0000_0000_0000_0000_0000,
            ;
        }
        let r = 2 * s;
        proof {
            assert((r + 1) * (r + 1) < 0x4000_0000_0000_0000_0000_0000_0000_0000)
                by (nonlinear_arith)
                requires
                    r + 1 < 0x8000_0000_0000_0000,
            ;
        }
        if (r + 1) * (r + 1) <= n {
            r + 1
        } else {
            r
        }
    }
}

/// Fixed-point square root of a nonnegative scalar.
pub fn fx_sqrt(a: i64) -> (r: i64)
    requires
        a >= 0,
    ensures
        r as int == fx_sqrt_spec(a as int),
    {
    proof {
        assert((a as int) * (FX_ONE as int) < 0x4000_0000_0000_0000_0000_0000_0000_0000)
            by (nonlinear_arith)
            requires
                0 <= a <= 0x7fff_ffff_ffff_ffff,
                FX_ONE == 65536,
        ;
    }
    let n: u128 = (a as u128) * (FX_ONE as u128);
    let r = isqrt(n);
    proof {
        lemma_isqrt(n as nat);
        assert(r <= 0x7fff_ffff_ffff_ffff) by (nonlinear_arith)
            requires
                r * r <= n,
                n < 0x1_0000_0000_0000_0000_0000_0000,
        ;
    }
    r as i64
}

/// Fixed-point power with a nonnegative integer exponent.
pub fn fx_powi(b: i64, n: i32) -> (r: i64)
    requires
        n >= 0,
    ensures
        r as int == fx_powi_spec(b as int, n as int),
    {
    let mut acc: i64 = FX_ONE;
    let mut i: i32 = 0;
    while i < n
        invariant
            0 <= i <= n,
            acc as int == fx_powi_spec(b as int, i as int),
        decreases n - i,
    {
        acc = fx_mul(acc, b);
        i = i + 1;
    }
    acc
}

/// Truncating division is monotone in the numerator (for a positive
/// denominator).
pub proof fn lemma_tdiv_mono(a1: int, a2: int, b: int)
    requires
        a1 <= a2,
        b > 0,
    ensures
        tdiv(a1, b) <= tdiv(a2, b),
{
    if a1 >= 0 {
        vstd::arithmetic::div_mod::lemma_div_is_ordered(a1, a2, b);
    } else if a2 < 0 {
        vstd::arithmetic::div_mod::lemma_div_is_ordered(-a2, -a1, b);
    } else {
        assert(iabs(a1) / b >= 0);
        assert(iabs(a2) / b >= 0);
    }
}

/// Saturating absolute value.
pub fn sat_abs(a: i64) -> (r: i64)
    ensures
        r as int == clip(iabs(a as int)),
    {
    if a < 0 {
        clip64(-(a as i128))
    } else {
        a
    }
}

/// Saturating product with a small integer factor (not fixed-point).
pub fn sat_scale(a: i64, k: i64) -> (r: i64)
    requires
        -1024 <= k <= 1024,
    ensures
        r as int == clip(k * a),
    {
    proof {
        assert(iabs((k as int) * (a as int)) <= 0x4000_0000_0000_0000_0000_0000_0000_0000)
            by (nonlinear_arith)
            requires
                -1024 <= k <= 1024,
                -0x8000_0000_0000_0000 <= a <= 0x7fff_ffff_ffff_ffff,
        ;
    }
    clip64((k as i128) * (a as i128))
}

/// Halve a nonnegative scalar, rounding down.
pub fn fx_half(a: i64) -> (r: i64)
    requires
        a >= 0,
    ensures
        r as int == a as int / 2,
    {
    ((a as u64) / 2) as i64
}

/// The model of `fx_clamp`.
pub open spec fn clamp_spec(v: int, lo: int, hi: int) -> int {
    if v < lo {
        lo
    } else if v > hi {
        hi
    } else {
        v
    }
}

/// Clamp a scalar into `[lo, hi]`.
pub fn fx_clamp(v: i64, lo: i64, hi: i64) -> (r: i64)
    requires
        lo <= hi,
    ensures
        r as int == clamp_spec(v as int, lo as int, hi as int),
    {
    if v < lo {
        lo
    } else if v > hi {
        hi
    } else {
        v
    }
}

/// The larger of a scalar and zero.
pub fn fx_max0(v: i64) -> (r: i64)
    ensures
        r as int == if v > 0 {
            v as int
        } else {
            0
        },
    {
    if v > 0 {
        v
    } else {
        0
    }
}

} // verus!
