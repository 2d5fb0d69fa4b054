//! Fixed-point 3-vectors and 3x3 matrices, and the yaw-then-pitch rotation
//! composer.
//!
//! The rotation for a view direction is built from two angle-axis rotations
//! by the Rodrigues formula: first a yaw around the fixed vertical axis,
//! then a pitch around the horizontal axis as moved by that yaw. Pitch
//! therefore tilts the camera relative to its current look direction, which
//! is the intended, non-commutative behaviour.
//!
//! Every constructed matrix is clamped entrywise into [-2 * SCALE, 2 * SCALE];
//! a true rotation has entries within [-SCALE, SCALE], so the clamp only
//! bounds rounding noise and keeps all later arithmetic in range.

use vstd::prelude::*;
use crate::fx::{SCALE, sp_fxmul, sp_clamp, fx_mul_small, fx_mul_wide, lemma_fxmul_bound};

verus! {

/// A fixed-point 3-vector.
#[derive(Clone, Copy, Debug, PartialEq, Eq, Structural)]
pub struct Vec3 {
    pub x: i64,
    pub y: i64,
    pub z: i64,
}

/// A fixed-point 3x3 matrix, row major.
#[derive(Clone, Copy, Debug, PartialEq, Eq, Structural)]
pub struct Mat3 {
    pub m00: i64,
    pub m01: i64,
    pub m02: i64,
    pub m10: i64,
    pub m11: i64,
    pub m12: i64,
    pub m20: i64,
    pub m21: i64,
    pub m22: i64,
}

/// Ghost image of a vector, over unbounded integers.
pub ghost struct SVec3 {
    pub x: int,
    pub y: int,
    pub z: int,
}

/// Ghost image of a matrix, over unbounded integers.
pub ghost struct SMat3 {
    pub m00: int,
    pub m01: int,
    pub m02: int,
    pub m10: int,
    pub m11: int,
    pub m12: int,
    pub m20: int,
    pub m21: int,
    pub m22: int,
}

impl Vec3 {
    /// The mathematical image of this vector.
    pub open spec fn s(self) -> SVec3 {
        SVec3 { x: self.x as int, y: self.y as int, z: self.z as int }
    }
}

impl Mat3 {
    /// The mathematical image of this matrix.
    pub open spec fn s(self) -> SMat3 {
        SMat3 {
            m00: self.m00 as int,
            m01: self.m01 as int,
            m02: self.m02 as int,
            m10: self.m10 as int,
            m11: self.m11 as int,
            m12: self.m12 as int,
            m20: self.m20 as int,
            m21: self.m21 as int,
            m22: self.m22 as int,
        }
    }
}

/// All entries of the matrix lie in [-b, b].
pub open spec fn sp_mat_bounded(a: SMat3, b: int) -> bool {
    &&& -b <= a.m00 <= b
    &&& -b <= a.m01 <= b
    &&& -b <= a.m02 <= b
    &&& -b <= a.m10 <= b
    &&& -b <= a.m11 <= b
    &&& -b <= a.m12 <= b
    &&& -b <= a.m20 <= b
    &&& -b <= a.m21 <= b
    &&& -b <= a.m22 <= b
}

/// All components of the vector lie in [-b, b].
pub open spec fn sp_vec_bounded(v: SVec3, b: int) -> bool {
    &&& -b <= v.x <= b
    &&& -b <= v.y <= b
    &&& -b <= v.z <= b
}

/// Entrywise clamp of a matrix into [-b, b].
pub open spec fn sp_mat_clamp(a: SMat3, b: int) -> SMat3 {
    SMat3 {
        m00: sp_clamp(a.m00, -b, b),
        m01: sp_clamp(a.m01, -b, b),
        m02: sp_clamp(a.m02, -b, b),
        m10: sp_clamp(a.m10, -b, b),
        m11: sp_clamp(a.m11, -b, b),
        m12: sp_clamp(a.m12, -b, b),
        m20: sp_clamp(a.m20, -b, b),
        m21: sp_clamp(a.m21, -b, b),
        m22: sp_clamp(a.m22, -b, b),
    }
}

/// Fixed-point matrix product, before clamping.
pub open spec fn sp_mat_mul(a: SMat3, b: SMat3) -> SMat3 {
    SMat3 {
        m00: sp_fxmul(a.m00, b.m00) + sp_fxmul(a.m01, b.m10) + sp_fxmul(a.m02, b.m20),
        m01: sp_fxmul(a.m00, b.m01) + sp_fxmul(a.m01, b.m11) + sp_fxmul(a.m02, b.m21),
        m02: sp_fxmul(a.m00, b.m02) + sp_fxmul(a.m01, b.m12) + sp_fxmul(a.m02, b.m22),
        m10: sp_fxmul(a.m10, b.m00) + sp_fxmul(a.m11, b.m10) + sp_fxmul(a.m12, b.m20),
        m11: sp_fxmul(a.m10, b.m01) + sp_fxmul(a.m11, b.m11) + sp_fxmul(a.m12, b.m21),
        m12: sp_fxmul(a.m10, b.m02) + sp_fxmul(a.m11, b.m12) + sp_fxmul(a.m12, b.m22),
        m20: sp_fxmul(a.m20, b.m00) + sp_fxmul(a.m21, b.m10) + sp_fxmul(a.m22, b.m20),
        m21: sp_fxmul(a.m20, b.m01) + sp_fxmul(a.m21, b.m11) + sp_fxmul(a.m22, b.m21),
        m22: sp_fxmul(a.m20, b.m02) + sp_fxmul(a.m21, b.m12) + sp_fxmul(a.m22, b.m22),
    }
}

/// Fixed-point matrix product clamped into rotation range.
pub open spec fn sp_mat_compose(a: SMat3, b: SMat3) -> SMat3 {
    sp_mat_clamp(sp_mat_mul(a, b), 2 * SCALE as int)
}

/// Fixed-point matrix-vector product.
pub open spec fn sp_mat_apply(a: SMat3, v: SVec3) -> SVec3 {
    SVec3 {
        x: sp_fxmul(a.m00, v.x) + sp_fxmul(a.m01, v.y) + sp_fxmul(a.m02, v.z),
        y: sp_fxmul(a.m10, v.x) + sp_fxmul(a.m11, v.y) + sp_fxmul(a.m12, v.z),
        z: sp_fxmul(a.m20, v.x) + sp_fxmul(a.m21, v.y) + sp_fxmul(a.m22, v.z),
    }
}

/// The Rodrigues rotation R = I + sin K + (1 - cos) K^2 for a unit axis k,
/// in fixed point, clamped into [-2 * SCALE, 2 * SCALE].
pub open spec fn sp_rodrigues(k: SVec3, s: int, c: int) -> SMat3 {
    let kk = SCALE as int - c;
    let xx = sp_fxmul(k.x, k.x);
    let xy = sp_fxmul(k.x, k.y);
    let xz = sp_fxmul(k.x, k.z);
    let yy = sp_fxmul(k.y, k.y);
    let yz = sp_fxmul(k.y, k.z);
    let zz = sp_fxmul(k.z, k.z);
    let raw = SMat3 {
        m00: SCALE as int + sp_fxmul(kk, -yy - zz),
        m01: sp_fxmul(kk, xy) - sp_fxmul(s, k.z),
        m02: sp_fxmul(kk, xz) + sp_fxmul(s, k.y),
        m10: sp_fxmul(kk, xy) + sp_fxmul(s, k.z),
        m11: SCALE as int + sp_fxmul(kk, -xx - zz),
        m12: sp_fxmul(kk, yz) - sp_fxmul(s, k.x),
        m20: sp_fxmul(kk, xz) - sp_fxmul(s, k.y),
        m21: sp_fxmul(kk, yz) + sp_fxmul(s, k.x),
        m22: SCALE as int + sp_fxmul(kk, -xx - yy),
    };
    sp_mat_clamp(raw, 2 * SCALE as int)
}

/// Clamp one computed entry into rotation range.
fn clamp_entry(v: i64) -> (r: i64)
    ensures
        r == sp_clamp(v as int, -2 * SCALE as int, 2 * SCALE as int),
        -2 * SCALE <= r <= 2 * SCALE,
{
    proof {
        assert(SCALE == 1048576);
    }
    if v < -2 * SCALE {
        -2 * SCALE
    } else if v > 2 * SCALE {
        2 * SCALE
    } else {
        v
    }
}

/// Build the Rodrigues rotation matrix for a (near-)unit fixed-point axis
/// and the sine and cosine of the rotation angle.
pub fn rodrigues(k: Vec3, s: i64, c: i64) -> (r: Mat3)
    requires
        sp_vec_bounded(k.s(), 8 * SCALE as int),
        -SCALE <= s <= SCALE,
        -SCALE <= c <= SCALE,
    ensures
        r.s() == sp_rodrigues(k.s(), s as int, c as int),
        sp_mat_bounded(r.s(), 2 * SCALE as int),
{
    proof {
        assert(SCALE == 1048576);
    }
    let kk: i64 = SCALE - c;
    let xx: i64 = fx_mul_small(k.x, k.x);
    let xy: i64 = fx_mul_small(k.x, k.y);
    let xz: i64 = fx_mul_small(k.x, k.z);
    let yy: i64 = fx_mul_small(k.y, k.y);
    let yz: i64 = fx_mul_small(k.y, k.z);
    let zz: i64 = fx_mul_small(k.z, k.z);
    proof {
        lemma_fxmul_bound(k.x as int, k.x as int, 0x80_0000, 0x80_0000);
        lemma_fxmul_bound(k.x as int, k.y as int, 0x80_0000, 0x80_0000);
        lemma_fxmul_bound(k.x as int, k.z as int, 0x80_0000, 0x80_0000);
        lemma_fxmul_bound(k.y as int, k.y as int, 0x80_0000, 0x80_0000);
        lemma_fxmul_bound(k.y as int, k.z as int, 0x80_0000, 0x80_0000);
        lemma_fxmul_bound(k.z as int, k.z as int, 0x80_0000, 0x80_0000);
        assert(-0x4000_0000 <= xx <= 0x4000_0000);
        assert(-0x4000_0000 <= xy <= 0x4000_0000);
        assert(-0x4000_0000 <= xz <= 0x4000_0000);
        assert(-0x4000_0000 <= yy <= 0x4000_0000);
        assert(-0x4000_0000 <= yz <= 0x4000_0000);
        assert(-0x4000_0000 <= zz <= 0x4000_0000);
    }
    let sx: i64 = fx_mul_small(s, k.x);
    let sy: i64 = fx_mul_small(s, k.y);
    let sz: i64 = fx_mul_small(s, k.z);
    let d00: i64 = fx_mul_small(kk, 0 - yy - zz);
    let dxy: i64 = fx_mul_small(kk, xy);
    let dxz: i64 = fx_mul_small(kk, xz);
    let d11: i64 = fx_mul_small(kk, 0 - xx - zz);
    let dyz: i64 = fx_mul_small(kk, yz);
    let d22: i64 = fx_mul_small(kk, 0 - xx - yy);
    proof {
        lemma_fxmul_bound(s as int, k.x as int, 0x10_0000, 0x80_0000);
        lemma_fxmul_bound(s as int, k.y as int, 0x10_0000, 0x80_0000);
        lemma_fxmul_bound(s as int, k.z as int, 0x10_0000, 0x80_0000);
        lemma_fxmul_bound(kk as int, -(yy as int) - (zz as int), 0x20_0000, 0x8000_0000);
        lemma_fxmul_bound(kk as int, xy as int, 0x20_0000, 0x8000_0000);
        lemma_fxmul_bound(kk as int, xz as int, 0x20_0000, 0x8000_0000);
        lemma_fxmul_bound(kk as int, -(xx as int) - (zz as int), 0x20_0000, 0x8000_0000);
        lemma_fxmul_bound(kk as int, yz as int, 0x20_0000, 0x8000_0000);
        lemma_fxmul_bound(kk as int, -(xx as int) - (yy as int), 0x20_0000, 0x8000_0000);
    }
    Mat3 {
        m00: clamp_entry(SCALE + d00),
        m01: clamp_entry(dxy - sz),
        m02: clamp_entry(dxz + sy),
        m10: clamp_entry(dxy + sz),
        m11: clamp_entry(SCALE + d11),
        m12: clamp_entry(dyz - sx),
        m20: clamp_entry(dxz - sy),
        m21: clamp_entry(dyz + sx),
        m22: clamp_entry(SCALE + d22),
    }
}

/// Fixed-point matrix product of two (clamped) rotation matrices.
pub fn mat_mul(a: &Mat3, b: &Mat3) -> (r: Mat3)
    requires
        sp_mat_bounded(a.s(), 2 * SCALE as int),
        sp_mat_bounded(b.s(), 2 * SCALE as int),
    ensures
        r.s() == sp_mat_compose(a.s(), b.s()),
        sp_mat_bounded(r.s(), 2 * SCALE as int),
{
    proof {
        assert(SCALE == 1048576);
    }
    let r00: i64 = fx_mul_small(a.m00, b.m00) + fx_mul_small(a.m01, b.m10) + fx_mul_small(
        a.m02,
        b.m20,
    );
    let r01: i64 = fx_mul_small(a.m00, b.m01) + fx_mul_small(a.m01, b.m11) + fx_mul_small(
        a.m02,
        b.m21,
    );
    let r02: i64 = fx_mul_small(a.m00, b.m02) + fx_mul_small(a.m01, b.m12) + fx_mul_small(
        a.m02,
        b.m22,
    );
    let r10: i64 = fx_mul_small(a.m10, b.m00) + fx_mul_small(a.m11, b.m10) + fx_mul_small(
        a.m12,
        b.m20,
    );
    let r11: i64 = fx_mul_small(a.m10, b.m01) + fx_mul_small(a.m11, b.m11) + fx_mul_small(
        a.m12,
        b.m21,
    );
    let r12: i64 = fx_mul_small(a.m10, b.m02) + fx_mul_small(a.m11, b.m12) + fx_mul_small(
        a.m12,
        b.m22,
    );
    let r20: i64 = fx_mul_small(a.m20, b.m00) + fx_mul_small(a.m21, b.m10) + fx_mul_small(
        a.m22,
        b.m20,
    );
    let r21: i64 = fx_mul_small(a.m20, b.m01) + fx_mul_small(a.m21, b.m11) + fx_mul_small(
        a.m22,
        b.m21,
    );
    let r22: i64 = fx_mul_small(a.m20, b.m02) + fx_mul_small(a.m21, b.m12) + fx_mul_small(
        a.m22,
        b.m22,
    );
    Mat3 {
        m00: clamp_entry(r00),
        m01: clamp_entry(r01),
        m02: clamp_entry(r02),
        m10: clamp_entry(r10),
        m11: clamp_entry(r11),
        m12: clamp_entry(r12),
        m20: clamp_entry(r20),
        m21: clamp_entry(r21),
        m22: clamp_entry(r22),
    }
}

/// Apply a clamped rotation matrix to a vector of wide fixed-point
/// components (ray directions are wide; axes are narrow).
pub fn rotate_vec(m: &Mat3, v: &Vec3) -> (r: Vec3)
    requires
        sp_mat_bounded(m.s(), 2 * SCALE as int),
        sp_vec_bounded(v.s(), 0x80_0000_0000_0000),
    ensures
        r.s() == sp_mat_apply(m.s(), v.s()),
        sp_vec_bounded(r.s(), 0x4000_0000_0000_0000),
        sp_vec_bounded(v.s(), SCALE as int) ==> sp_vec_bounded(r.s(), 8 * SCALE as int),
{
    proof {
        assert(SCALE == 1048576);
    }
    let rx: i64 = fx_mul_wide(m.m00, v.x) + fx_mul_wide(m.m01, v.y) + fx_mul_wide(m.m02, v.z);
    let ry: i64 = fx_mul_wide(m.m10, v.x) + fx_mul_wide(m.m11, v.y) + fx_mul_wide(m.m12, v.z);
    let rz: i64 = fx_mul_wide(m.m20, v.x) + fx_mul_wide(m.m21, v.y) + fx_mul_wide(m.m22, v.z);
    proof {
        if sp_vec_bounded(v.s(), SCALE as int) {
            lemma_fxmul_bound(m.m00 as int, v.x as int, 0x20_0000, 0x10_0000);
            lemma_fxmul_bound(m.m01 as int, v.y as int, 0x20_0000, 0x10_0000);
            lemma_fxmul_bound(m.m02 as int, v.z as int, 0x20_0000, 0x10_0000);
            lemma_fxmul_bound(m.m10 as int, v.x as int, 0x20_0000, 0x10_0000);
            lemma_fxmul_bound(m.m11 as int, v.y as int, 0x20_0000, 0x10_0000);
            lemma_fxmul_bound(m.m12 as int, v.z as int, 0x20_0000, 0x10_0000);
            lemma_fxmul_bound(m.m20 as int, v.x as int, 0x20_0000, 0x10_0000);
            lemma_fxmul_bound(m.m21 as int, v.y as int, 0x20_0000, 0x10_0000);
            lemma_fxmul_bound(m.m22 as int, v.z as int, 0x20_0000, 0x10_0000);
        }
    }
    Vec3 { x: rx, y: ry, z: rz }
}

/// The composed view rotation for yaw `theta` and pitch `phi`, both in
/// fixed-point degrees: first yaw around the vertical axis (0, 1, 0), then
/// pitch around the yawed horizontal axis, all by the Rodrigues formula.
pub open spec fn sp_compose_rotation(theta: int, phi: int) -> SMat3 {
    let s1 = crate::trig::sp_sin_fx(theta);
    let c1 = crate::trig::sp_cos_fx(theta);
    let r1 = sp_rodrigues(SVec3 { x: 0, y: SCALE as int, z: 0 }, s1, c1);
    let a2 = sp_mat_apply(r1, SVec3 { x: SCALE as int, y: 0, z: 0 });
    let s2 = crate::trig::sp_sin_fx(phi);
    let c2 = crate::trig::sp_cos_fx(phi);
    let r2 = sp_rodrigues(a2, s2, c2);
    sp_mat_compose(r2, r1)
}

/// Compose the view rotation for yaw `theta` then pitch `phi` (fixed-point
/// degrees). Pitch turns around the yawed horizontal axis, so the order of
/// the two rotations matters.
pub fn compose_rotation(theta: i64, phi: i64) -> (r: Mat3)
    ensures
        r.s() == sp_compose_rotation(theta as int, phi as int),
        sp_mat_bounded(r.s(), 2 * SCALE as int),
{
    proof {
        assert(SCALE == 1048576);
    }
    let s1: i64 = crate::trig::sin_fx(theta);
    let c1: i64 = crate::trig::cos_fx(theta);
    let r1: Mat3 = rodrigues(Vec3 { x: 0, y: SCALE, z: 0 }, s1, c1);
    let axis2: Vec3 = rotate_vec(&r1, &Vec3 { x: SCALE, y: 0, z: 0 });
    let s2: i64 = crate::trig::sin_fx(phi);
    let c2: i64 = crate::trig::cos_fx(phi);
    let r2: Mat3 = rodrigues(axis2, s2, c2);
    mat_mul(&r2, &r1)
}

} // verus!
