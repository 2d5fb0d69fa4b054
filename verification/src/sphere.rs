//! Projection of rotated ray directions onto the equirectangular sphere.
//!
//! A direction (x, y, z) maps to longitude atan2(x, z) — zero longitude
//! looks along +z — and latitude asin(y / |v|). The latitude is computed
//! from the scale-free ratios y^2 / |v|^2 and (x^2 + z^2) / |v|^2, so the
//! whole projection depends only on the direction of the vector, never on
//! its magnitude. A zero vector is the degenerate-ray case and is clamped
//! to longitude and latitude zero.

use vstd::prelude::*;
use crate::fx::{SCALE, PI_FX, HALF_PI_FX, HALF_SCALE, sp_isqrt, isqrt, div_floor};
use crate::trig::{sp_atan2_fx, atan2_fx};

verus! {

/// Longitude of a direction vector: atan2(x, z).
pub open spec fn sp_lon(x: int, y: int, z: int) -> int {
    if x * x + y * y + z * z == 0 {
        0
    } else {
        sp_atan2_fx(x, z)
    }
}

/// Latitude of a direction vector: asin(y / |v|), computed as
/// atan2(|v| * sin(lat), |v| * cos(lat)) from squared-ratio square roots.
pub open spec fn sp_lat(x: int, y: int, z: int) -> int {
    let n2 = x * x + y * y + z * z;
    if n2 == 0 {
        0
    } else {
        let uy = (y * y * (SCALE as int) * (SCALE as int)) / n2;
        let uxz = ((x * x + z * z) * (SCALE as int) * (SCALE as int)) / n2;
        let ay = sp_isqrt(uy);
        let axz = sp_isqrt(uxz);
        let sy = if y < 0 {
            -ay
        } else {
            ay
        };
        sp_atan2_fx(sy, axz)
    }
}

/// Longitude and latitude of a direction vector, in fixed-point radians.
/// The zero vector (a degenerate ray) is clamped to (0, 0).
pub fn xyz_to_lonlat(x: i64, y: i64, z: i64) -> (r: (i64, i64))
    requires
        -0x8000_0000 <= x <= 0x8000_0000,
        -0x8000_0000 <= y <= 0x8000_0000,
        -0x8000_0000 <= z <= 0x8000_0000,
    ensures
        r.0 == sp_lon(x as int, y as int, z as int),
        r.1 == sp_lat(x as int, y as int, z as int),
        -PI_FX <= r.0 <= PI_FX,
        -HALF_PI_FX <= r.1 <= HALF_PI_FX,
{
    proof {
        assert(0 <= (x as int) * (x as int) <= 0x4000_0000_0000_0000) by (nonlinear_arith)
            requires
                -0x8000_0000 <= x as int <= 0x8000_0000,
        ;
        assert(0 <= (y as int) * (y as int) <= 0x4000_0000_0000_0000) by (nonlinear_arith)
            requires
                -0x8000_0000 <= y as int <= 0x8000_0000,
        ;
        assert(0 <= (z as int) * (z as int) <= 0x4000_0000_0000_0000) by (nonlinear_arith)
            requires
                -0x8000_0000 <= z as int <= 0x8000_0000,
        ;
    }
    let xx: i128 = (x as i128) * (x as i128);
    let yy: i128 = (y as i128) * (y as i128);
    let zz: i128 = (z as i128) * (z as i128);
    let n2: i128 = xx + yy + zz;
    if n2 == 0 {
        (0, 0)
    } else {
        let lon: i64 = atan2_fx(x, z);
        let uy: i128 = div_floor(yy * 1099511627776, n2);
        let uxz: i128 = div_floor((xx + zz) * 1099511627776, n2);
        proof {
            assert(0 <= uy <= 1099511627776) by (nonlinear_arith)
                requires
                    (n2 as int) * (uy as int) <= (yy as int) * 1099511627776,
                    (yy as int) * 1099511627776 < (n2 as int) * ((uy as int) + 1),
                    0 <= yy as int,
                    yy as int <= n2 as int,
                    0 < n2 as int,
            ;
            assert(0 <= uxz <= 1099511627776) by (nonlinear_arith)
                requires
                    (n2 as int) * (uxz as int) <= ((xx + zz) as int) * 1099511627776,
                    ((xx + zz) as int) * 1099511627776 < (n2 as int) * ((uxz as int) + 1),
                    0 <= (xx + zz) as int,
                    (xx + zz) as int <= n2 as int,
                    0 < n2 as int,
            ;
        }
        let ay: i128 = isqrt(uy);
        let axz: i128 = isqrt(uxz);
        proof {
            assert(ay <= 1048576) by (nonlinear_arith)
                requires
                    0 <= ay as int,
                    (ay as int) * (ay as int) <= 1099511627776,
            ;
            assert(axz <= 1048576) by (nonlinear_arith)
                requires
                    0 <= axz as int,
                    (axz as int) * (axz as int) <= 1099511627776,
            ;
        }
        let sy: i64 = if y < 0 {
            -(ay as i64)
        } else {
            ay as i64
        };
        let lat: i64 = atan2_fx(sy, axz as i64);
        (lon, lat)
    }
}

/// Fractional source-image x-coordinate for a longitude:
/// (lon / (2 pi) + 1/2) * (src_w - 1), in fixed point.
pub open spec fn sp_lon_to_x(lon: int, src_w: int) -> int {
    (lon * (src_w - 1) * SCALE) / (2 * PI_FX as int) + (src_w - 1) * (HALF_SCALE as int)
}

/// Fractional source-image y-coordinate for a latitude:
/// (lat / pi + 1/2) * (src_h - 1), in fixed point.
pub open spec fn sp_lat_to_y(lat: int, src_h: int) -> int {
    (lat * (src_h - 1) * SCALE) / (PI_FX as int) + (src_h - 1) * (HALF_SCALE as int)
}

/// Map longitude/latitude to fractional source-image coordinates, in fixed
/// point. The coordinates never leave the source extents: sx spans
/// [0, src_w - 1] with both endpoints hit exactly at longitude -pi and +pi,
/// and sy stays within [0, src_h - 1], with the fixed-point poles
/// +-HALF_PI_FX landing a fraction of a pixel inside the borders. Nothing
/// is wrapped here; the wrap is the resampler's border policy.
pub fn lonlat_to_xy(lon: i64, lat: i64, src_w: u32, src_h: u32) -> (r: (i64, i64))
    requires
        -PI_FX <= lon <= PI_FX,
        -HALF_PI_FX <= lat <= HALF_PI_FX,
        1 <= src_w <= 32768,
        1 <= src_h <= 32768,
    ensures
        r.0 == sp_lon_to_x(lon as int, src_w as int),
        r.1 == sp_lat_to_y(lat as int, src_h as int),
        0 <= r.0 <= (src_w as int - 1) * SCALE,
        0 <= r.1 <= (src_h as int - 1) * SCALE,
        lon == -PI_FX ==> r.0 == 0,
        lon == PI_FX ==> r.0 == (src_w as int - 1) * SCALE,
{
    proof {
        assert(SCALE == 1048576);
        assert(PI_FX == 3294199);
        assert(HALF_PI_FX == 1647099);
        assert(HALF_SCALE == 524288);
    }
    let wm1: i64 = (src_w - 1) as i64;
    let hm1: i64 = (src_h - 1) as i64;
    proof {
        assert(-3294199 * (wm1 as int) <= (lon as int) * (wm1 as int) <= 3294199 * (wm1 as int))
            by (nonlinear_arith)
            requires
                -3294199 <= lon as int <= 3294199,
                0 <= wm1 as int <= 0x8000,
        ;
        assert(-1647099 * (hm1 as int) <= (lat as int) * (hm1 as int) <= 1647099 * (hm1 as int))
            by (nonlinear_arith)
            requires
                -1647099 <= lat as int <= 1647099,
                0 <= hm1 as int <= 0x8000,
        ;
        if lon == -PI_FX {
            assert((lon as int) * (wm1 as int) == -3294199 * (wm1 as int)) by (nonlinear_arith)
                requires
                    lon as int == -3294199,
            ;
        }
        if lon == PI_FX {
            assert((lon as int) * (wm1 as int) == 3294199 * (wm1 as int)) by (nonlinear_arith)
                requires
                    lon as int == 3294199,
            ;
        }
    }
    let xq: i128 = div_floor(((lon as i128) * (wm1 as i128)) * 1048576, 6588398);
    let yq: i128 = div_floor(((lat as i128) * (hm1 as i128)) * 1048576, 3294199);
    proof {
        // The longitude quotient spans exactly [-wm1 * HALF_SCALE, wm1 * HALF_SCALE]:
        // 3294199 * 1048576 == 6588398 * 524288.
        assert(-6588398 * (524288 * (wm1 as int)) <= 6588398 * (xq as int));
        assert(6588398 * (xq as int) <= 6588398 * (524288 * (wm1 as int)));
        assert(-524288 * (wm1 as int) <= xq <= 524288 * (wm1 as int));
        // The latitude quotient stays strictly inside, since
        // 1647099 * 1048576 < 3294199 * 524288.
        assert(-3294199 * (524288 * (hm1 as int)) <= 3294199 * ((yq as int) + 1));
        assert(3294199 * (yq as int) <= 3294199 * (524288 * (hm1 as int)));
        assert(-524288 * (hm1 as int) <= yq <= 524288 * (hm1 as int));
        if lon == -PI_FX {
            assert(xq == -524288 * (wm1 as int));
        }
        if lon == PI_FX {
            assert(xq == 524288 * (wm1 as int));
        }
    }
    let sx: i64 = (xq as i64) + wm1 * HALF_SCALE;
    let sy: i64 = (yq as i64) + hm1 * HALF_SCALE;
    proof {
        assert((wm1 as int) * 1048576 == (src_w as int - 1) * (SCALE as int));
        assert((hm1 as int) * 1048576 == (src_h as int - 1) * (SCALE as int));
    }
    (sx, sy)
}

} // verus!
