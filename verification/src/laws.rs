//! The algebraic laws of the pipeline, stated over exact integers and
//! proved once and for all.
//!
//! The pinhole intrinsic matrix is invertible whenever the focal length is
//! nonzero, with its inverse given in closed form; the ideal yaw rotation
//! the composer starts from is orthonormal with positive determinant; and
//! the sphere projection is invariant under positive scaling of the ray it
//! projects.

use vstd::prelude::*;
use crate::fx::SCALE;
use crate::mat3::SMat3;
use crate::trig::{sp_abs, sp_atan2_fx};
use crate::sphere::{sp_lon, sp_lat};

verus! {

/// Exact (unscaled) integer matrix product.
pub open spec fn sm_mul_exact(a: SMat3, b: SMat3) -> SMat3 {
    SMat3 {
        m00: a.m00 * b.m00 + a.m01 * b.m10 + a.m02 * b.m20,
        m01: a.m00 * b.m01 + a.m01 * b.m11 + a.m02 * b.m21,
        m02: a.m00 * b.m02 + a.m01 * b.m12 + a.m02 * b.m22,
        m10: a.m10 * b.m00 + a.m11 * b.m10 + a.m12 * b.m20,
        m11: a.m10 * b.m01 + a.m11 * b.m11 + a.m12 * b.m21,
        m12: a.m10 * b.m02 + a.m11 * b.m12 + a.m12 * b.m22,
        m20: a.m20 * b.m00 + a.m21 * b.m10 + a.m22 * b.m20,
        m21: a.m20 * b.m01 + a.m21 * b.m11 + a.m22 * b.m21,
        m22: a.m20 * b.m02 + a.m21 * b.m12 + a.m22 * b.m22,
    }
}

/// Transpose.
pub open spec fn sm_transpose(a: SMat3) -> SMat3 {
    SMat3 {
        m00: a.m00,
        m01: a.m10,
        m02: a.m20,
        m10: a.m01,
        m11: a.m11,
        m12: a.m21,
        m20: a.m02,
        m21: a.m12,
        m22: a.m22,
    }
}

/// d times the identity matrix.
pub open spec fn sm_scaled_identity(d: int) -> SMat3 {
    SMat3 { m00: d, m01: 0, m02: 0, m10: 0, m11: d, m12: 0, m20: 0, m21: 0, m22: d }
}

/// Determinant by Laplace expansion along the first row.
pub open spec fn sm_det(a: SMat3) -> int {
    a.m00 * (a.m11 * a.m22 - a.m12 * a.m21) - a.m01 * (a.m10 * a.m22 - a.m12 * a.m20) + a.m02 * (
    a.m10 * a.m21 - a.m11 * a.m20)
}

/// The pinhole intrinsic matrix K for focal length f and principal point
/// (cx, cy): [[f, 0, cx], [0, f, cy], [0, 0, 1]].
pub open spec fn sm_k(f: int, cx: int, cy: int) -> SMat3 {
    SMat3 { m00: f, m01: 0, m02: cx, m10: 0, m11: f, m12: cy, m20: 0, m21: 0, m22: 1 }
}

/// f times the inverse of K: [[1, 0, -cx], [0, 1, -cy], [0, 0, f]].
pub open spec fn sm_k_inv_num(f: int, cx: int, cy: int) -> SMat3 {
    SMat3 { m00: 1, m01: 0, m02: -cx, m10: 0, m11: 1, m12: -cy, m20: 0, m21: 0, m22: f }
}

/// The intrinsic matrix K is invertible for every nonzero focal length —
/// so for every field of view strictly inside (0, 180) degrees — and its
/// closed-form inverse recovers the identity from both sides:
/// (f * K^-1) * K == K * (f * K^-1) == f * I, with det(K) == f * f.
pub proof fn lemma_intrinsics_inverse(f: int, cx: int, cy: int)
    requires
        f != 0,
    ensures
        sm_mul_exact(sm_k_inv_num(f, cx, cy), sm_k(f, cx, cy)) == sm_scaled_identity(f),
        sm_mul_exact(sm_k(f, cx, cy), sm_k_inv_num(f, cx, cy)) == sm_scaled_identity(f),
        sm_det(sm_k(f, cx, cy)) == f * f,
{
    assert(1 * cx + 0 * cy + (-cx) * 1 == 0) by (nonlinear_arith);
    assert(1 * cy * 0 == 0) by (nonlinear_arith);
    assert(0 * cx + 1 * cy + (-cy) * 1 == 0) by (nonlinear_arith);
    assert(f * (-cx) + 0 * (-cy) + cx * f == 0) by (nonlinear_arith);
    assert(0 * (-cx) + f * (-cy) + cy * f == 0) by (nonlinear_arith);
    assert(f * (f * 1 - cy * 0) - 0 * (0 * 1 - cy * 0) + cx * (0 * 0 - f * 0) == f * f)
        by (nonlinear_arith);
    assert(sm_mul_exact(sm_k_inv_num(f, cx, cy), sm_k(f, cx, cy)) == sm_scaled_identity(f));
    assert(sm_mul_exact(sm_k(f, cx, cy), sm_k_inv_num(f, cx, cy)) == sm_scaled_identity(f));
}

/// An ideal yaw rotation around the vertical axis, all values scaled by d:
/// sine s, cosine c with s^2 + c^2 == d^2.
pub open spec fn sm_yaw(s: int, c: int, d: int) -> SMat3 {
    SMat3 { m00: c, m01: 0, m02: s, m10: 0, m11: d, m12: 0, m20: -s, m21: 0, m22: c }
}

/// Yaw matrices are orthonormal with positive determinant: for any scaled
/// sine/cosine pair, Y^T * Y == (d^2) * I and det(Y) == d^3.
pub proof fn lemma_yaw_orthonormal(s: int, c: int, d: int)
    requires
        s * s + c * c == d * d,
    ensures
        sm_mul_exact(sm_transpose(sm_yaw(s, c, d)), sm_yaw(s, c, d)) == sm_scaled_identity(d * d),
        sm_det(sm_yaw(s, c, d)) == d * d * d,
{
    let y = sm_yaw(s, c, d);
    let p = sm_mul_exact(sm_transpose(y), y);
    assert(c * c + 0 * 0 + (-s) * (-s) == d * d && c * 0 + 0 * 0 + (-s) * 0 == 0 && c * s + 0 * 0
        + (-s) * c == 0 && 0 * c + d * 0 + 0 * (-s) == 0 && 0 * 0 + d * d + 0 * 0 == d * d && 0 * s
        + d * 0 + 0 * c == 0 && s * c + 0 * 0 + c * (-s) == 0 && s * 0 + 0 * d + c * 0 == 0 && s
        * s + 0 * 0 + c * c == d * d) by (nonlinear_arith)
        requires
            s * s + c * c == d * d,
    ;
    assert(p == sm_scaled_identity(d * d));
    assert(c * (d * c - 0 * 0) - 0 * (0 * c - 0 * (-s)) + s * (0 * 0 - d * (-s)) == d * d * d)
        by (nonlinear_arith)
        requires
            s * s + c * c == d * d,
    ;
}


/// Scaling both atan2 arguments by a positive factor leaves the angle
/// unchanged: the octant reduction divides one magnitude by the other.
pub proof fn lemma_atan2_scale(a: int, b: int, k: int)
    requires
        k > 0,
    ensures
        sp_atan2_fx(k * a, k * b) == sp_atan2_fx(a, b),
{
    let aa = sp_abs(a);
    let bb = sp_abs(b);
    assert(sp_abs(k * a) == k * aa && sp_abs(k * b) == k * bb) by (nonlinear_arith)
        requires
            k > 0,
            aa == sp_abs(a),
            bb == sp_abs(b),
            a < 0 ==> aa == -a,
            a >= 0 ==> aa == a,
            b < 0 ==> bb == -b,
            b >= 0 ==> bb == b,
            k * a < 0 ==> sp_abs(k * a) == -(k * a),
            k * a >= 0 ==> sp_abs(k * a) == k * a,
            k * b < 0 ==> sp_abs(k * b) == -(k * b),
            k * b >= 0 ==> sp_abs(k * b) == k * b,
    ;
    assert((k * aa <= k * bb) == (aa <= bb)) by (nonlinear_arith)
        requires
            k > 0,
    ;
    assert((k * bb == 0) == (bb == 0)) by (nonlinear_arith)
        requires
            k > 0,
    ;
    assert((k * a >= 0) == (a >= 0) && (k * b >= 0) == (b >= 0)) by (nonlinear_arith)
        requires
            k > 0,
    ;
    if aa <= bb && bb != 0 {
        assert(((k * aa) * (SCALE as int)) == k * (aa * (SCALE as int))) by (nonlinear_arith);
        vstd::arithmetic::div_mod::lemma_div_multiples_vanish_quotient(
            k,
            aa * (SCALE as int),
            bb,
        );
        assert((k * (aa * (SCALE as int))) / (k * bb) == (aa * (SCALE as int)) / bb);
    } else if !(aa <= bb) {
        assert(((k * bb) * (SCALE as int)) == k * (bb * (SCALE as int))) by (nonlinear_arith);
        vstd::arithmetic::div_mod::lemma_div_multiples_vanish_quotient(
            k,
            bb * (SCALE as int),
            aa,
        );
        assert((k * (bb * (SCALE as int))) / (k * aa) == (bb * (SCALE as int)) / aa);
    }
}

/// The sphere projection is invariant under positive scaling of the ray:
/// longitude and latitude depend only on the ray's direction. This is the
/// discrete form of lonlat(v) == lonlat(k * v) for k > 0.
pub proof fn lemma_lonlat_scale_invariant(x: int, y: int, z: int, k: int)
    requires
        k > 0,
    ensures
        sp_lon(k * x, k * y, k * z) == sp_lon(x, y, z),
        sp_lat(k * x, k * y, k * z) == sp_lat(x, y, z),
{
    let n2 = x * x + y * y + z * z;
    let kk = k * k;
    assert((k * x) * (k * x) + (k * y) * (k * y) + (k * z) * (k * z) == kk * n2 && kk > 0 && (kk
        * n2 == 0) == (n2 == 0) && (k * y < 0) == (y < 0) && (k * y) * (k * y) == kk * (y * y) && (
    k * x) * (k * x) + (k * z) * (k * z) == kk * (x * x + z * z) && 0 <= y * y && 0 <= x * x + z
        * z) by (nonlinear_arith)
        requires
            k > 0,
            n2 == x * x + y * y + z * z,
            kk == k * k,
    ;
    lemma_atan2_scale(x, z, k);
    if n2 != 0 {
        let s2 = (SCALE as int) * (SCALE as int);
        assert(kk * (y * y) * s2 == kk * (y * y * s2) && kk * (x * x + z * z) * s2 == kk * ((x * x
            + z * z) * s2) && 0 <= y * y * s2 && 0 <= (x * x + z * z) * s2) by (nonlinear_arith)
            requires
                s2 == (SCALE as int) * (SCALE as int),
        ;
        vstd::arithmetic::div_mod::lemma_div_multiples_vanish_quotient(kk, y * y * s2, n2);
        vstd::arithmetic::div_mod::lemma_div_multiples_vanish_quotient(
            kk,
            (x * x + z * z) * s2,
            n2,
        );
    }
}



} // verus!
