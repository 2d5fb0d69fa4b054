//! The perspective-view pipeline: validation, camera intrinsics, per-pixel
//! rays, rotation, and the sample-coordinate field.
//!
//! For an output grid of `height x width` pixels and a horizontal field of
//! view, the pinhole intrinsics are f = 0.5 * W / tan(fov / 2),
//! cx = (W - 1) / 2, cy = (H - 1) / 2, and the camera-space ray of pixel
//! (i, j) is K^-1 * (j, i, 1). Because the sphere projection ignores the
//! ray's magnitude, the pipeline carries the positively rescaled integer ray
//! 2 * f * (K^-1 * (j, i, 1)) = ((2j - (W-1)) * t, (2i - (H-1)) * t, W * SCALE)
//! with t = tan(fov / 2) in fixed point — an exact integer vector. The ray
//! is rotated, reduced into range, projected to longitude/latitude and then
//! to fractional source coordinates. The resulting field, together with a
//! bicubic resampler with horizontal wrap, yields the perspective image.

use vstd::prelude::*;
use crate::fx::{SCALE, DEG180_FX, sp_clamp, div_floor};
use crate::mat3::{
    Mat3, Vec3, SMat3, SVec3, sp_mat_bounded, sp_vec_bounded, sp_mat_apply, sp_compose_rotation,
    rotate_vec, compose_rotation,
};
use crate::sphere::{sp_lon, sp_lat, sp_lon_to_x, sp_lat_to_y, xyz_to_lonlat, lonlat_to_xy};
use crate::trig::sp_abs;

verus! {

/// Failure of the perspective request.
#[derive(Clone, Copy, Debug, PartialEq, Eq, Structural)]
pub enum PerspectiveError {
    /// The field of view lies outside (0, 180) degrees, or an image
    /// dimension is zero or beyond the supported maximum.
    InvalidParameter,
}

/// Largest supported image dimension, a limit of the fixed-point ranges.
pub const MAX_DIM: u32 = 32768;

/// tan(fov / 2) in fixed point, from the fixed-point degree field of view;
/// negative rounding noise is clamped to zero and the value is capped at
/// SCALE * SCALE (the slope just below a 180-degree field of view).
pub open spec fn sp_tan_half(fov: int) -> int {
    let s = crate::trig::sp_sin_fx(fov / 2);
    let c = crate::trig::sp_cos_fx(fov / 2);
    sp_clamp((s * (SCALE as int)) / c, 0, 1099511627776)
}

/// The inputs on which a perspective request succeeds: field of view
/// strictly inside (0, 180) degrees — with a cosine of the half-angle that
/// is still positive in fixed point — and positive, supported dimensions.
pub open spec fn sp_params_ok(fov: int, out_w: int, out_h: int) -> bool {
    &&& 0 < fov < DEG180_FX as int
    &&& 1 <= out_w <= MAX_DIM as int
    &&& 1 <= out_h <= MAX_DIM as int
    &&& crate::trig::sp_cos_fx(fov / 2) > 0
}

/// The integer camera ray of output pixel (i, j): the direction
/// K^-1 * (j, i, 1), rescaled by the positive factor 2 * f.
pub open spec fn sp_ray(t: int, out_w: int, out_h: int, i: int, j: int) -> SVec3 {
    SVec3 {
        x: (2 * j - (out_w - 1)) * t,
        y: (2 * i - (out_h - 1)) * t,
        z: out_w * (SCALE as int),
    }
}

/// Largest absolute component.
pub open spec fn sp_max_abs3(v: SVec3) -> int {
    let ax = sp_abs(v.x);
    let ay = sp_abs(v.y);
    let az = sp_abs(v.z);
    if ax >= ay && ax >= az {
        ax
    } else if ay >= az {
        ay
    } else {
        az
    }
}

/// Reduce a wide vector to components below 2^31 by one common positive
/// divisor; the direction is preserved up to rounding.
pub open spec fn sp_shrink(v: SVec3) -> SVec3 {
    let m = sp_max_abs3(v);
    if m < 0x8000_0000 {
        v
    } else {
        let q = m / 0x4000_0000 + 1;
        SVec3 { x: v.x / q, y: v.y / q, z: v.z / q }
    }
}

/// The fixed-point source coordinates sampled by output pixel (i, j).
pub open spec fn sp_pixel(
    src_w: int,
    src_h: int,
    rot: SMat3,
    t: int,
    out_w: int,
    out_h: int,
    i: int,
    j: int,
) -> (int, int) {
    let d = sp_ray(t, out_w, out_h, i, j);
    let v = sp_mat_apply(rot, d);
    let w = sp_shrink(v);
    (sp_lon_to_x(sp_lon(w.x, w.y, w.z), src_w), sp_lat_to_y(sp_lat(w.x, w.y, w.z), src_h))
}

/// The same, addressed by the flat row-major index a = i * out_w + j.
pub open spec fn sp_pixel_flat(
    src_w: int,
    src_h: int,
    rot: SMat3,
    t: int,
    out_w: int,
    out_h: int,
    a: int,
) -> (int, int) {
    sp_pixel(src_w, src_h, rot, t, out_w, out_h, a / out_w, a % out_w)
}

/// tan(fov / 2) in fixed point.
fn tan_half(fov: i64) -> (t: i64)
    requires
        0 < fov < DEG180_FX,
        crate::trig::sp_cos_fx(fov as int / 2) > 0,
    ensures
        t == sp_tan_half(fov as int),
        0 <= t <= 0x100_0000_0000,
{
    let half: i64 = fov / 2;
    proof {
        vstd::arithmetic::div_mod::lemma_fundamental_div_mod(fov as int, 2);
        vstd::arithmetic::div_mod::lemma_mod_division_less_than_divisor(fov as int, 2);
    }
    let s: i64 = crate::trig::sin_fx(half);
    let c: i64 = crate::trig::cos_fx(half);
    let num: i128 = (s as i128) * 1048576;
    let traw: i128 = div_floor(num, c as i128);
    proof {
        assert(-0x200_0000_0000 <= traw <= 0x200_0000_0000) by (nonlinear_arith)
            requires
                (c as int) * (traw as int) <= num as int,
                (num as int) < (c as int) * ((traw as int) + 1),
                -0x100_0000_0000 <= (num as int) && (num as int) <= 0x100_0000_0000,
                1 <= c as int,
        ;
    }
    if traw < 0 {
        0
    } else if traw > 1099511627776 {
        1099511627776
    } else {
        traw as i64
    }
}

/// Reduce a rotated ray into the range the sphere projection accepts.
fn shrink_vec(v: Vec3) -> (r: Vec3)
    requires
        sp_vec_bounded(v.s(), 0x4000_0000_0000_0000),
    ensures
        r.s() == sp_shrink(v.s()),
        sp_vec_bounded(r.s(), 0x8000_0000),
{
    let ax: i64 = if v.x < 0 {
        -v.x
    } else {
        v.x
    };
    let ay: i64 = if v.y < 0 {
        -v.y
    } else {
        v.y
    };
    let az: i64 = if v.z < 0 {
        -v.z
    } else {
        v.z
    };
    let m: i64 = if ax >= ay && ax >= az {
        ax
    } else if ay >= az {
        ay
    } else {
        az
    };
    if m < 0x8000_0000 {
        v
    } else {
        proof {
            vstd::arithmetic::div_mod::lemma_fundamental_div_mod(m as int, 0x4000_0000);
            vstd::arithmetic::div_mod::lemma_mod_division_less_than_divisor(m as int, 0x4000_0000);
        }
        let q: i64 = m / 0x4000_0000 + 1;
        let wx: i128 = div_floor(v.x as i128, q as i128);
        let wy: i128 = div_floor(v.y as i128, q as i128);
        let wz: i128 = div_floor(v.z as i128, q as i128);
        proof {
            assert(0x4000_0000 * (q as int) >= m as int + 1);
            assert(-0x4000_0001 <= wx <= 0x4000_0000) by (nonlinear_arith)
                requires
                    (q as int) * (wx as int) <= v.x as int,
                    (v.x as int) < (q as int) * ((wx as int) + 1),
                    -(m as int) <= v.x as int <= m as int,
                    0x4000_0000 * (q as int) >= m as int + 1,
                    1 <= q as int,
            ;
            assert(-0x4000_0001 <= wy <= 0x4000_0000) by (nonlinear_arith)
                requires
                    (q as int) * (wy as int) <= v.y as int,
                    (v.y as int) < (q as int) * ((wy as int) + 1),
                    -(m as int) <= v.y as int <= m as int,
                    0x4000_0000 * (q as int) >= m as int + 1,
                    1 <= q as int,
            ;
            assert(-0x4000_0001 <= wz <= 0x4000_0000) by (nonlinear_arith)
                requires
                    (q as int) * (wz as int) <= v.z as int,
                    (v.z as int) < (q as int) * ((wz as int) + 1),
                    -(m as int) <= v.z as int <= m as int,
                    0x4000_0000 * (q as int) >= m as int + 1,
                    1 <= q as int,
            ;
        }
        Vec3 { x: wx as i64, y: wy as i64, z: wz as i64 }
    }
}

/// The source coordinates sampled by one output pixel.
fn pixel(
    src_w: u32,
    src_h: u32,
    rot: &Mat3,
    t: i64,
    out_w: u32,
    out_h: u32,
    i: u32,
    j: u32,
) -> (r: (i64, i64))
    requires
        1 <= src_w <= MAX_DIM,
        1 <= src_h <= MAX_DIM,
        sp_mat_bounded(rot.s(), 2 * SCALE as int),
        0 <= t <= 0x100_0000_0000,
        1 <= out_w <= MAX_DIM,
        1 <= out_h <= MAX_DIM,
        i < out_h,
        j < out_w,
    ensures
        r.0 == sp_pixel(
            src_w as int,
            src_h as int,
            rot.s(),
            t as int,
            out_w as int,
            out_h as int,
            i as int,
            j as int,
        ).0,
        r.1 == sp_pixel(
            src_w as int,
            src_h as int,
            rot.s(),
            t as int,
            out_w as int,
            out_h as int,
            i as int,
            j as int,
        ).1,
{
    let jx: i64 = 2 * (j as i64) - (out_w as i64 - 1);
    let iy: i64 = 2 * (i as i64) - (out_h as i64 - 1);
    proof {
        assert(-0x80_0000_0000_0000 <= (jx as int) * (t as int) <= 0x80_0000_0000_0000)
            by (nonlinear_arith)
            requires
                -0x8000 <= jx as int <= 0x8000,
                0 <= t as int <= 0x100_0000_0000,
        ;
        assert(-0x80_0000_0000_0000 <= (iy as int) * (t as int) <= 0x80_0000_0000_0000)
            by (nonlinear_arith)
            requires
                -0x8000 <= iy as int <= 0x8000,
                0 <= t as int <= 0x100_0000_0000,
        ;
        assert(SCALE == 1048576);
    }
    let d: Vec3 = Vec3 { x: jx * t, y: iy * t, z: (out_w as i64) * 1048576 };
    let v: Vec3 = rotate_vec(rot, &d);
    let w: Vec3 = shrink_vec(v);
    let (lon, lat): (i64, i64) = xyz_to_lonlat(w.x, w.y, w.z);
    lonlat_to_xy(lon, lat, src_w, src_h)
}


/// The source coordinates of pixel (i, j) of a full view request, with the
/// rotation and the intrinsics derived from the request's angles.
pub open spec fn sp_view_pixel(
    src_w: int,
    src_h: int,
    fov: int,
    theta: int,
    phi: int,
    out_w: int,
    out_h: int,
    i: int,
    j: int,
) -> (int, int) {
    sp_pixel(
        src_w,
        src_h,
        sp_compose_rotation(theta, phi),
        sp_tan_half(fov),
        out_w,
        out_h,
        i,
        j,
    )
}

/// Fill the row-major coordinate field for one request.
fn build_field(src_w: u32, src_h: u32, rot: &Mat3, t: i64, out_w: u32, out_h: u32) -> (r: (
    Vec<i64>,
    Vec<i64>,
))
    requires
        1 <= src_w <= MAX_DIM,
        1 <= src_h <= MAX_DIM,
        sp_mat_bounded(rot.s(), 2 * SCALE as int),
        0 <= t <= 0x100_0000_0000,
        1 <= out_w <= MAX_DIM,
        1 <= out_h <= MAX_DIM,
    ensures
        r.0@.len() == out_h as int * out_w as int,
        r.1@.len() == out_h as int * out_w as int,
        forall|b: int|
            0 <= b < out_h as int * out_w as int ==> {
                &&& r.0@[b] == sp_pixel_flat(
                    src_w as int,
                    src_h as int,
                    rot.s(),
                    t as int,
                    out_w as int,
                    out_h as int,
                    b,
                ).0
                &&& r.1@[b] == sp_pixel_flat(
                    src_w as int,
                    src_h as int,
                    rot.s(),
                    t as int,
                    out_w as int,
                    out_h as int,
                    b,
                ).1
            },
{
    proof {
        assert(out_h as int * out_w as int <= 0x4000_0000) by (nonlinear_arith)
            requires
                1 <= out_h as int <= 0x8000,
                1 <= out_w as int <= 0x8000,
        ;
    }
    let n: usize = (out_h as usize) * (out_w as usize);
    let mut xs: Vec<i64> = Vec::new();
    let mut ys: Vec<i64> = Vec::new();
    let mut a: usize = 0;
    while a < n
        invariant
            n == out_h as int * out_w as int,
            n <= 0x4000_0000,
            0 <= a <= n,
            xs@.len() == a,
            ys@.len() == a,
            1 <= src_w <= MAX_DIM,
            1 <= src_h <= MAX_DIM,
            1 <= out_w <= MAX_DIM,
            1 <= out_h <= MAX_DIM,
            sp_mat_bounded(rot.s(), 2 * SCALE as int),
            0 <= t <= 0x100_0000_0000,
            forall|b: int|
                0 <= b < a as int ==> {
                    &&& xs@[b] == sp_pixel_flat(
                        src_w as int,
                        src_h as int,
                        rot.s(),
                        t as int,
                        out_w as int,
                        out_h as int,
                        b,
                    ).0
                    &&& ys@[b] == sp_pixel_flat(
                        src_w as int,
                        src_h as int,
                        rot.s(),
                        t as int,
                        out_w as int,
                        out_h as int,
                        b,
                    ).1
                },
        decreases n - a,
    {
        let i: usize = a / (out_w as usize);
        let j: usize = a % (out_w as usize);
        proof {
            vstd::arithmetic::div_mod::lemma_fundamental_div_mod(a as int, out_w as int);
            vstd::arithmetic::div_mod::lemma_mod_division_less_than_divisor(a as int, out_w as int);
            assert((i as int) < (out_h as int)) by (nonlinear_arith)
                requires
                    (a as int) < (out_h as int) * (out_w as int),
                    a as int == (out_w as int) * (i as int) + (j as int),
                    0 <= j as int,
                    (j as int) < (out_w as int),
                    0 < out_w as int,
                    0 < out_h as int,
            ;
        }
        let p: (i64, i64) = pixel(src_w, src_h, rot, t, out_w, out_h, i as u32, j as u32);
        xs.push(p.0);
        ys.push(p.1);
        a = a + 1;
    }
    (xs, ys)
}

/// The per-pixel fractional source coordinates for one perspective request,
/// in row-major order, in fixed point.
#[derive(Debug)]
pub struct SampleField {
    /// Output width the field was built for.
    pub width: u32,
    /// Output height the field was built for.
    pub height: u32,
    /// Fixed-point source x-coordinate of each output pixel, row major.
    pub xs: Vec<i64>,
    /// Fixed-point source y-coordinate of each output pixel, row major.
    pub ys: Vec<i64>,
}

/// A source equirectangular panorama, known to the geometric core only by
/// its extents; pixel data stays with the resampling collaborator.
#[derive(Clone, Copy, Debug)]
pub struct Equirectangular {
    /// Source width in columns.
    pub width: u32,
    /// Source height in rows.
    pub height: u32,
}

impl Equirectangular {
    /// The source extents the pipeline can work with.
    pub open spec fn wf(self) -> bool {
        &&& 1 <= self.width <= MAX_DIM
        &&& 1 <= self.height <= MAX_DIM
    }

    /// Describe a source panorama by its extents: `width` columns and
    /// `height` rows. Zero or oversized extents are rejected.
    pub fn new(width: u32, height: u32) -> (r: Result<Equirectangular, PerspectiveError>)
        ensures
            r is Ok <==> (1 <= width <= MAX_DIM && 1 <= height <= MAX_DIM),
            r matches Ok(e) ==> e.wf() && e.width == width && e.height == height,
            r matches Err(err) ==> err == PerspectiveError::InvalidParameter,
    {
        if width == 0 || width > MAX_DIM || height == 0 || height > MAX_DIM {
            Err(PerspectiveError::InvalidParameter)
        } else {
            Ok(Equirectangular { width, height })
        }
    }

    /// Compute the sample-coordinate field of the perspective view with the
    /// given horizontal field of view `fov`, yaw `theta` and pitch `phi`
    /// (all in fixed-point degrees), for an output of `height` rows and
    /// `width` columns. Fails exactly on invalid parameters; on success
    /// every pixel's coordinate pair equals the pipeline function of the
    /// composed rotation and the intrinsics.
    #[verifier::rlimit(100)]
    pub fn get_perspective(&self, fov: i64, theta: i64, phi: i64, height: u32, width: u32) -> (r:
        Result<SampleField, PerspectiveError>)
        requires
            self.wf(),
        ensures
            r is Ok <==> sp_params_ok(fov as int, width as int, height as int),
            r matches Err(err) ==> err == PerspectiveError::InvalidParameter,
            r matches Ok(f) ==> {
                &&& f.width == width
                &&& f.height == height
                &&& f.xs@.len() == height as int * width as int
                &&& f.ys@.len() == height as int * width as int
                &&& forall|i: int, j: int|
                    0 <= i < height as int && 0 <= j < width as int ==> {
                        &&& f.xs@[i * width as int + j] == sp_view_pixel(
                            self.width as int,
                            self.height as int,
                            fov as int,
                            theta as int,
                            phi as int,
                            width as int,
                            height as int,
                            i,
                            j,
                        ).0
                        &&& f.ys@[i * width as int + j] == sp_view_pixel(
                            self.width as int,
                            self.height as int,
                            fov as int,
                            theta as int,
                            phi as int,
                            width as int,
                            height as int,
                            i,
                            j,
                        ).1
                    }
            },
    {
        if width == 0 || width > MAX_DIM || height == 0 || height > MAX_DIM || fov <= 0 || fov
            >= DEG180_FX {
            return Err(PerspectiveError::InvalidParameter);
        }
        let half: i64 = fov / 2;
        proof {
            vstd::arithmetic::div_mod::lemma_fundamental_div_mod(fov as int, 2);
            vstd::arithmetic::div_mod::lemma_mod_division_less_than_divisor(fov as int, 2);
        }
        let c: i64 = crate::trig::cos_fx(half);
        if c <= 0 {
            return Err(PerspectiveError::InvalidParameter);
        }
        let t: i64 = tan_half(fov);
        let rot: Mat3 = compose_rotation(theta, phi);
        let (xs, ys): (Vec<i64>, Vec<i64>) = build_field(
            self.width,
            self.height,
            &rot,
            t,
            width,
            height,
        );
        proof {
            assert forall|i: int, j: int|
                0 <= i < height as int && 0 <= j < width as int implies {
                &&& xs@[i * width as int + j] == sp_view_pixel(
                    self.width as int,
                    self.height as int,
                    fov as int,
                    theta as int,
                    phi as int,
                    width as int,
                    height as int,
                    i,
                    j,
                ).0
                &&& ys@[i * width as int + j] == sp_view_pixel(
                    self.width as int,
                    self.height as int,
                    fov as int,
                    theta as int,
                    phi as int,
                    width as int,
                    height as int,
                    i,
                    j,
                ).1
            } by {
                let b = i * width as int + j;
                assert(0 <= b < height as int * width as int) by (nonlinear_arith)
                    requires
                        0 <= i < height as int,
                        0 <= j < width as int,
                        b == i * width as int + j,
                ;
                vstd::arithmetic::div_mod::lemma_fundamental_div_mod_converse(
                    b,
                    width as int,
                    i,
                    j,
                );
            }
        }
        Ok(SampleField { width, height, xs, ys })
    }
}

} // verus!
