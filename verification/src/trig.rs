//! Fixed-point trigonometry.
//!
//! Angles in degrees are carried as fixed-point values (degrees * SCALE).
//! Sine and cosine reduce the angle exactly to a quadrant in degree units,
//! convert the remainder to radians, and evaluate a truncated Taylor series;
//! quadrant boundaries (0, 90, 180, 270 degrees) therefore come out exact.
//! The arc tangent evaluates a series on an octant-reduced ratio. Every
//! executable function is pinned to its spec-level mirror, so the whole
//! pipeline built on top of these is a deterministic integer function.

use vstd::prelude::*;
use crate::fx::{
    SCALE, PI_FX, HALF_PI_FX, QUARTER_PI_FX, DEG90_FX, DEG360_FX,
    sp_fxmul, sp_clamp, div_floor, euc_mod, fx_mul_small, lemma_fxmul_bound,
};

verus! {

/// Ratio at which the arc-tangent series switches to the shifted argument:
/// tan(pi / 8) * SCALE, rounded.
pub const ATAN_BREAK_FX: i64 = 434334;

/// Degrees (fixed point) to radians (fixed point): m * pi / 180.
pub open spec fn sp_rad(m: int) -> int {
    (m * PI_FX) / (180 * SCALE)
}

/// Truncated Taylor series for sine on [0, pi/2], clamped into [-SCALE, SCALE].
pub open spec fn sp_sin_poly(x: int) -> int {
    let x2 = sp_fxmul(x, x);
    let x3 = sp_fxmul(x2, x);
    let x5 = sp_fxmul(x3, x2);
    let x7 = sp_fxmul(x5, x2);
    let x9 = sp_fxmul(x7, x2);
    let x11 = sp_fxmul(x9, x2);
    sp_clamp(
        x - x3 / 6 + x5 / 120 - x7 / 5040 + x9 / 362880 - x11 / 39916800,
        -SCALE as int,
        SCALE as int,
    )
}

/// Truncated Taylor series for cosine on [0, pi/2], clamped into [-SCALE, SCALE].
pub open spec fn sp_cos_poly(x: int) -> int {
    let x2 = sp_fxmul(x, x);
    let x4 = sp_fxmul(x2, x2);
    let x6 = sp_fxmul(x4, x2);
    let x8 = sp_fxmul(x6, x2);
    let x10 = sp_fxmul(x8, x2);
    sp_clamp(
        SCALE - x2 / 2 + x4 / 24 - x6 / 720 + x8 / 40320 - x10 / 3628800,
        -SCALE as int,
        SCALE as int,
    )
}

/// Sine of an angle given in fixed-point degrees.
pub open spec fn sp_sin_fx(a: int) -> int {
    let r = a % (DEG360_FX as int);
    let q = r / (DEG90_FX as int);
    let m = r % (DEG90_FX as int);
    let x = sp_rad(m);
    if q == 0 {
        sp_sin_poly(x)
    } else if q == 1 {
        sp_cos_poly(x)
    } else if q == 2 {
        -sp_sin_poly(x)
    } else {
        -sp_cos_poly(x)
    }
}

/// Cosine of an angle given in fixed-point degrees.
pub open spec fn sp_cos_fx(a: int) -> int {
    sp_sin_fx(a + DEG90_FX as int)
}

/// Evaluate the sine series at a radian argument in [0, pi/2].
fn sin_poly(x: i64) -> (r: i64)
    requires
        0 <= x <= HALF_PI_FX,
    ensures
        r == sp_sin_poly(x as int),
        -SCALE <= r <= SCALE,
{
    let x2: i64 = fx_mul_small(x, x);
    proof {
        lemma_fxmul_bound(x as int, x as int, 0x20_0000, 0x20_0000);
        assert(0 <= x2 <= 0x80_0000);
    }
    let x3: i64 = fx_mul_small(x2, x);
    proof {
        lemma_fxmul_bound(x2 as int, x as int, 0x80_0000, 0x20_0000);
        assert(0 <= x3 <= 0x200_0000);
    }
    let x5: i64 = fx_mul_small(x3, x2);
    proof {
        lemma_fxmul_bound(x3 as int, x2 as int, 0x200_0000, 0x80_0000);
        assert(0 <= x5 <= 0x2000_0000);
    }
    let x7: i64 = fx_mul_small(x5, x2);
    proof {
        lemma_fxmul_bound(x5 as int, x2 as int, 0x2000_0000, 0x80_0000);
        assert(0 <= x7 <= 0x2_0000_0000);
    }
    let x9: i64 = fx_mul_small(x7, x2);
    proof {
        lemma_fxmul_bound(x7 as int, x2 as int, 0x2_0000_0000, 0x80_0000);
        assert(0 <= x9 <= 0x20_0000_0000);
    }
    let x11: i64 = fx_mul_small(x9, x2);
    proof {
        lemma_fxmul_bound(x9 as int, x2 as int, 0x20_0000_0000, 0x80_0000);
        assert(0 <= x11 <= 0x200_0000_0000);
    }
    let v: i64 = x - x3 / 6 + x5 / 120 - x7 / 5040 + x9 / 362880 - x11 / 39916800;
    if v < -SCALE {
        -SCALE
    } else if v > SCALE {
        SCALE
    } else {
        v
    }
}

/// Evaluate the cosine series at a radian argument in [0, pi/2].
fn cos_poly(x: i64) -> (r: i64)
    requires
        0 <= x <= HALF_PI_FX,
    ensures
        r == sp_cos_poly(x as int),
        -SCALE <= r <= SCALE,
{
    let x2: i64 = fx_mul_small(x, x);
    proof {
        lemma_fxmul_bound(x as int, x as int, 0x20_0000, 0x20_0000);
        assert(0 <= x2 <= 0x80_0000);
    }
    let x4: i64 = fx_mul_small(x2, x2);
    proof {
        lemma_fxmul_bound(x2 as int, x2 as int, 0x80_0000, 0x80_0000);
        assert(0 <= x4 <= 0x800_0000);
    }
    let x6: i64 = fx_mul_small(x4, x2);
    proof {
        lemma_fxmul_bound(x4 as int, x2 as int, 0x800_0000, 0x80_0000);
        assert(0 <= x6 <= 0x8_0000_0000);
    }
    let x8: i64 = fx_mul_small(x6, x2);
    proof {
        lemma_fxmul_bound(x6 as int, x2 as int, 0x8_0000_0000, 0x80_0000);
        assert(0 <= x8 <= 0x80_0000_0000);
    }
    let x10: i64 = fx_mul_small(x8, x2);
    proof {
        lemma_fxmul_bound(x8 as int, x2 as int, 0x80_0000_0000, 0x80_0000);
        assert(0 <= x10 <= 0x800_0000_0000);
    }
    let v: i64 = SCALE - x2 / 2 + x4 / 24 - x6 / 720 + x8 / 40320 - x10 / 3628800;
    if v < -SCALE {
        -SCALE
    } else if v > SCALE {
        SCALE
    } else {
        v
    }
}

/// Sine on an angle already reduced into [0, 360 degrees).
fn sin_reduced(r: i64) -> (s: i64)
    requires
        0 <= r < DEG360_FX,
    ensures
        s == sp_sin_fx(r as int),
        -SCALE <= s <= SCALE,
{
    proof {
        vstd::arithmetic::div_mod::lemma_small_mod(r as nat, DEG360_FX as nat);
        vstd::arithmetic::div_mod::lemma_fundamental_div_mod(r as int, DEG90_FX as int);
        vstd::arithmetic::div_mod::lemma_mod_division_less_than_divisor(r as int, DEG90_FX as int);
    }
    let q: i64 = r / DEG90_FX;
    let m: i64 = r % DEG90_FX;
    let xw: i128 = div_floor((m as i128) * (PI_FX as i128), 180 * (SCALE as i128));
    proof {
        assert(0 <= (m as int) * (PI_FX as int) < (DEG90_FX as int) * (PI_FX as int))
            by (nonlinear_arith)
            requires
                0 <= (m as int) && (m as int) < (DEG90_FX as int),
                PI_FX as int == 3294199,
        ;
        assert((DEG90_FX as int) * (PI_FX as int) == 310879620956160int);
        assert(0 <= xw);
        assert(188743680 * (xw as int) < 310879620956160int);
        assert(xw <= HALF_PI_FX);
    }
    let x: i64 = xw as i64;
    if q == 0 {
        sin_poly(x)
    } else if q == 1 {
        cos_poly(x)
    } else if q == 2 {
        -sin_poly(x)
    } else {
        -cos_poly(x)
    }
}

/// Absolute value.
pub open spec fn sp_abs(v: int) -> int {
    if v < 0 {
        -v
    } else {
        v
    }
}

/// Truncated Taylor series for the arc tangent of a ratio in [-1, 1].
pub open spec fn sp_atan_poly(u: int) -> int {
    let u2 = sp_fxmul(u, u);
    let u3 = sp_fxmul(u2, u);
    let u5 = sp_fxmul(u3, u2);
    let u7 = sp_fxmul(u5, u2);
    let u9 = sp_fxmul(u7, u2);
    let u11 = sp_fxmul(u9, u2);
    let u13 = sp_fxmul(u11, u2);
    u - u3 / 3 + u5 / 5 - u7 / 7 + u9 / 9 - u11 / 11 + u13 / 13
}

/// Arc tangent of a ratio in [0, 1]; above tan(pi/8) the argument is moved
/// to (u - 1)/(u + 1) around pi/4 to keep the series accurate.
pub open spec fn sp_atan_frac(u: int) -> int {
    if u > ATAN_BREAK_FX {
        QUARTER_PI_FX + sp_atan_poly(((u - SCALE) * SCALE) / (u + SCALE))
    } else {
        sp_atan_poly(u)
    }
}

/// Two-argument arc tangent on fixed-point values: the angle of the point
/// (b, a), in (-pi, pi], with the octant reduced to a ratio in [0, 1].
pub open spec fn sp_atan2_fx(a: int, b: int) -> int {
    let aa = sp_abs(a);
    let bb = sp_abs(b);
    let base0 = if aa <= bb {
        if bb == 0 {
            0
        } else {
            sp_atan_frac((aa * SCALE) / bb)
        }
    } else {
        HALF_PI_FX - sp_atan_frac((bb * SCALE) / aa)
    };
    let base = sp_clamp(base0, 0, HALF_PI_FX as int);
    if a >= 0 {
        if b >= 0 {
            base
        } else {
            PI_FX - base
        }
    } else {
        if b >= 0 {
            -base
        } else {
            -(PI_FX - base)
        }
    }
}

/// Evaluate the arc-tangent series.
fn atan_poly(u: i64) -> (r: i64)
    requires
        -SCALE <= u <= SCALE,
    ensures
        r == sp_atan_poly(u as int),
        -0x2_0000_0000 <= r <= 0x2_0000_0000,
{
    let u2: i64 = fx_mul_small(u, u);
    proof {
        lemma_fxmul_bound(u as int, u as int, 0x10_0000, 0x10_0000);
        assert(0 <= (u as int) * (u as int)) by (nonlinear_arith);
        vstd::arithmetic::div_mod::lemma_div_pos_is_pos((u as int) * (u as int), SCALE as int);
        assert(0 <= u2 <= 0x20_0000);
    }
    let u3: i64 = fx_mul_small(u2, u);
    proof {
        lemma_fxmul_bound(u2 as int, u as int, 0x20_0000, 0x10_0000);
        assert(-0x40_0000 <= u3 <= 0x40_0000);
    }
    let u5: i64 = fx_mul_small(u3, u2);
    proof {
        lemma_fxmul_bound(u3 as int, u2 as int, 0x40_0000, 0x20_0000);
        assert(-0x100_0000 <= u5 <= 0x100_0000);
    }
    let u7: i64 = fx_mul_small(u5, u2);
    proof {
        lemma_fxmul_bound(u5 as int, u2 as int, 0x100_0000, 0x20_0000);
        assert(-0x400_0000 <= u7 <= 0x400_0000);
    }
    let u9: i64 = fx_mul_small(u7, u2);
    proof {
        lemma_fxmul_bound(u7 as int, u2 as int, 0x400_0000, 0x20_0000);
        assert(-0x1000_0000 <= u9 <= 0x1000_0000);
    }
    let u11: i64 = fx_mul_small(u9, u2);
    proof {
        lemma_fxmul_bound(u9 as int, u2 as int, 0x1000_0000, 0x20_0000);
        assert(-0x4000_0000 <= u11 <= 0x4000_0000);
    }
    let u13: i64 = fx_mul_small(u11, u2);
    proof {
        lemma_fxmul_bound(u11 as int, u2 as int, 0x4000_0000, 0x20_0000);
        assert(-0x1_0000_0000 <= u13 <= 0x1_0000_0000);
    }
    let t3: i64 = div_floor(u3 as i128, 3) as i64;
    let t5: i64 = div_floor(u5 as i128, 5) as i64;
    let t7: i64 = div_floor(u7 as i128, 7) as i64;
    let t9: i64 = div_floor(u9 as i128, 9) as i64;
    let t11: i64 = div_floor(u11 as i128, 11) as i64;
    let t13: i64 = div_floor(u13 as i128, 13) as i64;
    u - t3 + t5 - t7 + t9 - t11 + t13
}

/// Arc tangent of a ratio in [0, SCALE].
fn atan_frac(u: i64) -> (r: i64)
    requires
        0 <= u <= SCALE,
    ensures
        r == sp_atan_frac(u as int),
        -0x4_0000_0000 <= r <= 0x4_0000_0000,
{
    proof {
        assert(SCALE == 1048576);
        assert(ATAN_BREAK_FX == 434334);
        assert(QUARTER_PI_FX == 823550);
    }
    if u > ATAN_BREAK_FX {
        let du: i64 = u - SCALE;
        let num: i128 = (du as i128) * 1048576;
        let den: i128 = (u + SCALE) as i128;
        let vw: i128 = div_floor(num, den);
        proof {
            assert(-500000 <= vw <= 0) by (nonlinear_arith)
                requires
                    (den as int) * (vw as int) <= num as int,
                    (num as int) < (den as int) * ((vw as int) + 1),
                    -644078370816 <= (num as int) && (num as int) <= 0,
                    1482911 <= den as int,
            ;
        }
        let v: i64 = vw as i64;
        let p: i64 = atan_poly(v);
        QUARTER_PI_FX + p
    } else {
        atan_poly(u)
    }
}

/// Two-argument arc tangent; the result lies in [-PI_FX, PI_FX] and, when
/// b is non-negative, in [-HALF_PI_FX, HALF_PI_FX].
pub fn atan2_fx(a: i64, b: i64) -> (r: i64)
    requires
        -0x100_0000_0000 <= a <= 0x100_0000_0000,
        -0x100_0000_0000 <= b <= 0x100_0000_0000,
    ensures
        r == sp_atan2_fx(a as int, b as int),
        -PI_FX <= r <= PI_FX,
        b >= 0 ==> -HALF_PI_FX <= r <= HALF_PI_FX,
{
    proof {
        assert(SCALE == 1048576);
        assert(PI_FX == 3294199);
        assert(HALF_PI_FX == 1647099);
    }
    let aa: i64 = if a < 0 {
        -a
    } else {
        a
    };
    let bb: i64 = if b < 0 {
        -b
    } else {
        b
    };
    let base0: i64 = if aa <= bb {
        if bb == 0 {
            0
        } else {
            let rr: i128 = div_floor((aa as i128) * (SCALE as i128), bb as i128);
            proof {
                assert(0 <= rr <= SCALE as int) by (nonlinear_arith)
                    requires
                        (bb as int) * (rr as int) <= (aa as int) * (SCALE as int),
                        (aa as int) * (SCALE as int) < (bb as int) * ((rr as int) + 1),
                        0 <= aa as int <= bb as int,
                        0 < bb as int,
                        SCALE as int == 1048576,
                ;
            }
            atan_frac(rr as i64)
        }
    } else {
        let rr: i128 = div_floor((bb as i128) * (SCALE as i128), aa as i128);
        proof {
            assert(0 <= rr <= SCALE as int) by (nonlinear_arith)
                requires
                    (aa as int) * (rr as int) <= (bb as int) * (SCALE as int),
                    (bb as int) * (SCALE as int) < (aa as int) * ((rr as int) + 1),
                    0 <= bb as int,
                    (bb as int) < (aa as int),
                    SCALE as int == 1048576,
            ;
        }
        let f: i64 = atan_frac(rr as i64);
        HALF_PI_FX - f
    };
    let base: i64 = if base0 < 0 {
        0
    } else if base0 > HALF_PI_FX {
        HALF_PI_FX
    } else {
        base0
    };
    if a >= 0 {
        if b >= 0 {
            base
        } else {
            PI_FX - base
        }
    } else {
        if b >= 0 {
            -base
        } else {
            -(PI_FX - base)
        }
    }
}

/// Sine of a fixed-point degree angle; any angle is reduced modulo 360 degrees.
pub fn sin_fx(a: i64) -> (s: i64)
    ensures
        s == sp_sin_fx(a as int),
        -SCALE <= s <= SCALE,
{
    let red: i128 = euc_mod(a as i128, DEG360_FX as i128);
    proof {
        vstd::arithmetic::div_mod::lemma_mod_twice(a as int, DEG360_FX as int);
    }
    sin_reduced(red as i64)
}

/// Cosine of a fixed-point degree angle, as the sine shifted by 90 degrees.
pub fn cos_fx(a: i64) -> (c: i64)
    ensures
        c == sp_cos_fx(a as int),
        -SCALE <= c <= SCALE,
{
    let red: i128 = euc_mod(a as i128 + DEG90_FX as i128, DEG360_FX as i128);
    proof {
        vstd::arithmetic::div_mod::lemma_mod_twice(a as int + DEG90_FX as int, DEG360_FX as int);
    }
    sin_reduced(red as i64)
}

} // verus!
