//! Fixed-point scalar arithmetic.
//!
//! Every quantity in the geometric pipeline is a binary fixed-point number:
//! an `i64` holding the real value multiplied by `SCALE` (2^20). All helpers
//! here are exact integer functions, so each carries a contract pinning its
//! result to the corresponding mathematical (Euclidean) integer operation.

use vstd::prelude::*;

verus! {

/// Denominator of the fixed-point representation: 2^20.
pub const SCALE: i64 = 1048576;

/// SCALE / 2, used for exact midpoints.
pub const HALF_SCALE: i64 = 524288;

/// pi * SCALE, rounded to the nearest integer.
pub const PI_FX: i64 = 3294199;

/// (pi / 2) * SCALE, rounded down: twice this stays below PI_FX, so a
/// latitude bounded by it can never map outside the source's vertical
/// extent.
pub const HALF_PI_FX: i64 = 1647099;

/// (pi / 4) * SCALE, rounded to the nearest integer.
pub const QUARTER_PI_FX: i64 = 823550;

/// 90 degrees in fixed-point degree units (90 * SCALE).
pub const DEG90_FX: i64 = 94371840;

/// 180 degrees in fixed-point degree units (180 * SCALE).
pub const DEG180_FX: i64 = 188743680;

/// 360 degrees in fixed-point degree units (360 * SCALE).
pub const DEG360_FX: i64 = 377487360;

/// Product of two fixed-point values divided back to fixed point,
/// as an exact function on integers (Euclidean floor division).
pub open spec fn sp_fxmul(a: int, b: int) -> int {
    (a * b) / (SCALE as int)
}

/// Clamp an integer into [lo, hi].
pub open spec fn sp_clamp(v: int, lo: int, hi: int) -> int {
    if v < lo {
        lo
    } else if v > hi {
        hi
    } else {
        v
    }
}

/// Floor division of a possibly negative dividend by a positive divisor.
pub fn div_floor(n: i128, d: i128) -> (r: i128)
    requires
        0 < d < 0x4000_0000_0000_0000_0000_0000_0000_0000i128,
        -0x4000_0000_0000_0000_0000_0000_0000_0000i128 < n,
    ensures
        r == n as int / d as int,
        d * r <= n < d * (r + 1),
{
    let q: i128 = if n >= 0 {
        let q0: i128 = n / d;
        proof {
            vstd::arithmetic::div_mod::lemma_fundamental_div_mod(n as int, d as int);
            vstd::arithmetic::div_mod::lemma_mod_division_less_than_divisor(n as int, d as int);
        }
        q0
    } else {
        let m: i128 = -n;
        let q1: i128 = (m + (d - 1)) / d;
        proof {
            let mi = m as int;
            let di = d as int;
            vstd::arithmetic::div_mod::lemma_fundamental_div_mod(mi + di - 1, di);
            vstd::arithmetic::div_mod::lemma_mod_division_less_than_divisor(mi + di - 1, di);
            let r1 = (mi + di - 1) % di;
            assert(n == di * (-(q1 as int)) + (di - 1 - r1)) by (nonlinear_arith)
                requires
                    mi + di - 1 == di * (q1 as int) + r1,
                    n == -mi,
            ;
            vstd::arithmetic::div_mod::lemma_fundamental_div_mod_converse(
                n as int,
                di,
                -(q1 as int),
                di - 1 - r1,
            );
            vstd::arithmetic::div_mod::lemma_fundamental_div_mod(n as int, di);
            vstd::arithmetic::div_mod::lemma_mod_division_less_than_divisor(n as int, di);
        }
        -q1
    };
    proof {
        assert(d as int * (q as int + 1) == d as int * (q as int) + d as int) by (nonlinear_arith);
    }
    q
}

/// Euclidean remainder with a positive divisor; the result is in [0, d).
pub fn euc_mod(n: i128, d: i128) -> (r: i128)
    requires
        0 < d < 0x4000_0000_0000_0000_0000_0000_0000_0000i128,
        -0x4000_0000_0000_0000_0000_0000_0000_0000i128 < n
            < 0x4000_0000_0000_0000_0000_0000_0000_0000i128,
    ensures
        r == n as int % d as int,
        0 <= r < d,
{
    let q: i128 = div_floor(n, d);
    proof {
        vstd::arithmetic::div_mod::lemma_fundamental_div_mod(n as int, d as int);
        vstd::arithmetic::div_mod::lemma_mod_division_less_than_divisor(n as int, d as int);
    }
    n - d * q
}

/// Fixed-point multiplication: (a * b) / SCALE with floor rounding.
pub fn fx_mul(a: i64, b: i64) -> (r: i64)
    requires
        -0x4_0000_0000_0000_0000_0000 <= a * b <= 0x4_0000_0000_0000_0000_0000,
    ensures
        r == sp_fxmul(a as int, b as int),
        SCALE * r <= a * b < SCALE * (r + 1),
{
    let p: i128 = (a as i128) * (b as i128);
    let q: i128 = div_floor(p, 1048576);
    q as i64
}

/// Integer square root, defined by quartering: for n >= 4 the root is
/// 2 * sp_isqrt(n / 4), corrected upward by one when that still fits.
pub open spec fn sp_isqrt(n: int) -> int
    decreases n,
{
    if n <= 0 {
        0
    } else if n < 4 {
        1
    } else {
        let q = sp_isqrt(n / 4);
        if (2 * q + 1) * (2 * q + 1) <= n {
            2 * q + 1
        } else {
            2 * q
        }
    }
}

/// The integer square root: the unique r >= 0 with r * r <= n < (r + 1) * (r + 1).
pub fn isqrt(n: i128) -> (r: i128)
    requires
        0 <= n <= 0x1_0000_0000_0000_0000_0000_0000_0000i128,
    ensures
        r == sp_isqrt(n as int),
        0 <= r,
        r * r <= n < (r + 1) * (r + 1),
        r <= 0x4_0000_0000_0000_0000i128,
    decreases n,
{
    if n < 4 {
        if n <= 0 {
            0
        } else {
            1
        }
    } else {
        let q: i128 = isqrt(n / 4);
        proof {
            vstd::arithmetic::div_mod::lemma_fundamental_div_mod(n as int, 4);
            vstd::arithmetic::div_mod::lemma_mod_division_less_than_divisor(n as int, 4);
            // From q * q <= n / 4 and n < 4 * (n / 4) + 4 we get the two candidate bounds.
            assert((2 * (q as int)) * (2 * (q as int)) <= 4 * (n as int / 4)) by (nonlinear_arith)
                requires
                    (q as int) * (q as int) <= n as int / 4,
            ;
            assert(4 * (n as int / 4) + 4 <= (2 * (q as int) + 2) * (2 * (q as int) + 2))
                by (nonlinear_arith)
                requires
                    n as int / 4 < ((q as int) + 1) * ((q as int) + 1),
            ;
            assert(q as int <= 0x100_0000_0000_0000int) by (nonlinear_arith)
                requires
                    0 <= q as int,
                    (q as int) * (q as int) <= n as int / 4,
                    n as int / 4 <= 0x4000_0000_0000_0000_0000_0000_0000int,
            ;
        }
        let c: i128 = 2 * q + 1;
        proof {
            assert((c as int) * (c as int) <= 0x10_0000_0000_0000_0000_0000_0000_0000int)
                by (nonlinear_arith)
                requires
                    0 <= c as int <= 0x400_0000_0000_0000int,
            ;
        }
        if c * c <= n {
            c
        } else {
            2 * q
        }
    }
}

/// Floor division of a negated non-negative value: off by at most one
/// from the negated quotient.
pub proof fn lemma_neg_div(m: int, d: int)
    requires
        0 <= m,
        0 < d,
    ensures
        -(m / d) - 1 <= (-m) / d <= 0,
{
    vstd::arithmetic::div_mod::lemma_fundamental_div_mod(m, d);
    vstd::arithmetic::div_mod::lemma_mod_division_less_than_divisor(m, d);
    let s = m / d;
    let r = m % d;
    if r == 0 {
        assert(-m == d * (-s) + 0) by (nonlinear_arith)
            requires
                m == d * s + r,
                r == 0,
        ;
        vstd::arithmetic::div_mod::lemma_fundamental_div_mod_converse(-m, d, -s, 0);
    } else {
        assert(-m == d * (-s - 1) + (d - r)) by (nonlinear_arith)
            requires
                m == d * s + r,
        ;
        vstd::arithmetic::div_mod::lemma_fundamental_div_mod_converse(-m, d, -s - 1, d - r);
    }
    vstd::arithmetic::div_mod::lemma_div_is_ordered(-m, 0, d);
    vstd::arithmetic::div_mod::lemma_div_of0(d);
}

/// Interval bound for a fixed-point product from interval bounds on the factors.
pub proof fn lemma_fxmul_bound(a: int, b: int, aa: int, bb: int)
    requires
        -aa <= a <= aa,
        -bb <= b <= bb,
    ensures
        -(aa * bb) <= a * b <= aa * bb,
        -((aa * bb) / (SCALE as int)) - 1 <= sp_fxmul(a, b) <= (aa * bb) / (SCALE as int),
        0 <= a && 0 <= b ==> 0 <= sp_fxmul(a, b),
{
    if 0 <= a && 0 <= b {
        assert(0 <= a * b) by (nonlinear_arith)
            requires
                0 <= a,
                0 <= b,
        ;
        vstd::arithmetic::div_mod::lemma_div_is_ordered(0, a * b, SCALE as int);
        vstd::arithmetic::div_mod::lemma_div_of0(SCALE as int);
    }
    assert(-(aa * bb) <= a * b <= aa * bb) by (nonlinear_arith)
        requires
            -aa <= a <= aa,
            -bb <= b <= bb,
    ;
    vstd::arithmetic::div_mod::lemma_div_is_ordered(a * b, aa * bb, SCALE as int);
    vstd::arithmetic::div_mod::lemma_div_is_ordered(-(aa * bb), a * b, SCALE as int);
    lemma_neg_div(aa * bb, SCALE as int);
}

/// Fixed-point multiplication for operands of moderate magnitude.
pub fn fx_mul_small(a: i64, b: i64) -> (r: i64)
    requires
        -0x100_0000_0000 <= a <= 0x100_0000_0000,
        -0x100_0000_0000 <= b <= 0x100_0000_0000,
    ensures
        r == sp_fxmul(a as int, b as int),
        SCALE * r <= a * b < SCALE * (r + 1),
        -0x1000_0000_0000_0001 <= r <= 0x1000_0000_0000_0000,
{
    proof {
        assert(-0x4_0000_0000_0000_0000_0000 <= (a as int) * (b as int) <= 0x4_0000_0000_0000_0000_0000)
            by (nonlinear_arith)
            requires
                -0x100_0000_0000 <= a as int <= 0x100_0000_0000,
                -0x100_0000_0000 <= b as int <= 0x100_0000_0000,
        ;
        lemma_fxmul_bound(a as int, b as int, 0x100_0000_0000, 0x100_0000_0000);
    }
    fx_mul(a, b)
}

/// Fixed-point multiplication of a small factor with a wide one.
pub fn fx_mul_wide(a: i64, b: i64) -> (r: i64)
    requires
        -0x40_0000 <= a <= 0x40_0000,
        -0x400_0000_0000_0000 <= b <= 0x400_0000_0000_0000,
    ensures
        r == sp_fxmul(a as int, b as int),
        SCALE * r <= a * b < SCALE * (r + 1),
        -0x1000_0000_0000_0001 <= r <= 0x1000_0000_0000_0000,
{
    proof {
        assert(-0x4_0000_0000_0000_0000_0000 <= (a as int) * (b as int) <= 0x4_0000_0000_0000_0000_0000)
            by (nonlinear_arith)
            requires
                -0x40_0000 <= a as int <= 0x40_0000,
                -0x400_0000_0000_0000 <= b as int <= 0x400_0000_0000_0000,
        ;
        lemma_fxmul_bound(a as int, b as int, 0x40_0000, 0x400_0000_0000_0000);
    }
    fx_mul(a, b)
}

/// Clamp a wide intermediate into an inclusive `i64` interval.
pub fn clamp_i128(v: i128, lo: i64, hi: i64) -> (r: i64)
    requires
        lo <= hi,
    ensures
        r == sp_clamp(v as int, lo as int, hi as int),
        lo <= r <= hi,
{
    if v < lo as i128 {
        lo
    } else if v > hi as i128 {
        hi
    } else {
        v as i64
    }
}

} // verus!
