use equirect::fx::SCALE;
use equirect::perspective::{Equirectangular, PerspectiveError};

fn deg(d: i64) -> i64 {
    d * SCALE
}

fn px(v: i64) -> f64 {
    v as f64 / SCALE as f64
}

#[test]
fn new_rejects_empty_and_oversized_sources() {
    assert_eq!(Equirectangular::new(0, 2000).unwrap_err(), PerspectiveError::InvalidParameter);
    assert_eq!(Equirectangular::new(4000, 0).unwrap_err(), PerspectiveError::InvalidParameter);
    assert_eq!(Equirectangular::new(40_000, 2000).unwrap_err(), PerspectiveError::InvalidParameter);
    assert!(Equirectangular::new(4000, 2000).is_ok());
}

#[test]
fn get_perspective_rejects_bad_parameters() {
    let eq = Equirectangular::new(4000, 2000).unwrap();
    // Field of view at or beyond the ends of (0, 180) degrees.
    assert_eq!(
        eq.get_perspective(0, 0, 0, 720, 1080).unwrap_err(),
        PerspectiveError::InvalidParameter
    );
    assert_eq!(
        eq.get_perspective(deg(-60), 0, 0, 720, 1080).unwrap_err(),
        PerspectiveError::InvalidParameter
    );
    assert_eq!(
        eq.get_perspective(deg(180), 0, 0, 720, 1080).unwrap_err(),
        PerspectiveError::InvalidParameter
    );
    // Degenerate output dimensions.
    assert_eq!(
        eq.get_perspective(deg(60), 0, 0, 0, 1080).unwrap_err(),
        PerspectiveError::InvalidParameter
    );
    assert_eq!(
        eq.get_perspective(deg(60), 0, 0, 720, 0).unwrap_err(),
        PerspectiveError::InvalidParameter
    );
    // A reasonable request succeeds.
    assert!(eq.get_perspective(deg(60), deg(80), deg(33), 720, 1080).is_ok());
}

#[test]
fn end_to_end_field_has_requested_shape() {
    let eq = Equirectangular::new(4000, 2000).unwrap();
    let f = eq.get_perspective(deg(60), 0, 0, 720, 1080).unwrap();
    assert_eq!(f.width, 1080);
    assert_eq!(f.height, 720);
    assert_eq!(f.xs.len(), 720 * 1080);
    assert_eq!(f.ys.len(), 720 * 1080);
}

#[test]
fn straight_ahead_center_pixel_samples_source_center() {
    // fov 60, no rotation, 720 x 1080 output over a 4000 x 2000 source:
    // the center output pixel samples the source center (1999.5, 999.5)
    // within half a pixel.
    let eq = Equirectangular::new(4000, 2000).unwrap();
    let f = eq.get_perspective(deg(60), 0, 0, 720, 1080).unwrap();
    let a = 360 * 1080 + 540;
    let sx = px(f.xs[a]);
    let sy = px(f.ys[a]);
    assert!((sx - 1999.5).abs() <= 0.5, "sx = {sx}");
    assert!((sy - 999.5).abs() <= 0.5, "sy = {sy}");
}

#[test]
fn opposite_yaw_shows_the_opposite_hemisphere() {
    // Turning by 180 degrees moves the straight-ahead sample half the
    // panorama away: the x-coordinates differ by (srcW - 1) / 2, the
    // half-turn distance under the (srcW - 1)-pixel full circle.
    let eq = Equirectangular::new(4000, 2000).unwrap();
    let front = eq.get_perspective(deg(60), 0, 0, 720, 1080).unwrap();
    let back = eq.get_perspective(deg(60), deg(180), 0, 720, 1080).unwrap();
    let a = 360 * 1080 + 540;
    let delta = px(front.xs[a]) - px(back.xs[a]);
    assert!((delta - 1999.5).abs() < 0.01, "delta = {delta}");
    let dy = px(front.ys[a]) - px(back.ys[a]);
    assert!(dy.abs() < 0.01, "dy = {dy}");
}

#[test]
fn sample_columns_are_continuous_across_the_seam() {
    // Looking straight at the longitude wrap: along a row, neighbouring
    // sample x-coordinates move by small steps except for the single jump
    // of one full circle (srcW - 1 pixels) at the seam itself.
    let eq = Equirectangular::new(4000, 2000).unwrap();
    let f = eq.get_perspective(deg(60), deg(180), 0, 64, 64).unwrap();
    let row = 32usize;
    let mut seam_jumps = 0;
    for j in 1..64usize {
        let d = (px(f.xs[row * 64 + j]) - px(f.xs[row * 64 + j - 1])).abs();
        if d > 200.0 {
            // The seam: the two columns are one wrap apart.
            assert!((d - 3999.0).abs() < 200.0, "jump of {d} px");
            seam_jumps += 1;
        } else {
            assert!(d < 200.0);
        }
    }
    assert_eq!(seam_jumps, 1);
}

#[test]
fn field_matches_floating_point_reference() {
    // A small grid with nontrivial angles, checked against an f64
    // implementation of the same pipeline (yaw around (0,1,0), pitch
    // around the yawed x-axis, both by the Rodrigues formula).
    let (src_w, src_h) = (1000u32, 500u32);
    let (out_w, out_h) = (4u32, 4u32);
    let (fov, theta, phi) = (90.0f64, 30.0f64, 20.0f64);

    let eq = Equirectangular::new(src_w, src_h).unwrap();
    let f = eq
        .get_perspective(deg(90), deg(30), deg(20), out_h, out_w)
        .unwrap();

    let rot = {
        let t = theta.to_radians();
        let r1 = axis_angle([0.0, 1.0, 0.0], t);
        let axis2 = [r1[0][0], r1[1][0], r1[2][0]];
        let r2 = axis_angle(axis2, phi.to_radians());
        mat_mul(r2, r1)
    };
    let t = (0.5 * fov.to_radians()).tan();
    for i in 0..out_h as usize {
        for j in 0..out_w as usize {
            let d = [
                (2.0 * j as f64 - (out_w as f64 - 1.0)) * t,
                (2.0 * i as f64 - (out_h as f64 - 1.0)) * t,
                out_w as f64,
            ];
            let v = [
                rot[0][0] * d[0] + rot[0][1] * d[1] + rot[0][2] * d[2],
                rot[1][0] * d[0] + rot[1][1] * d[1] + rot[1][2] * d[2],
                rot[2][0] * d[0] + rot[2][1] * d[1] + rot[2][2] * d[2],
            ];
            let n = (v[0] * v[0] + v[1] * v[1] + v[2] * v[2]).sqrt();
            let lon = v[0].atan2(v[2]);
            let lat = (v[1] / n).asin();
            let sx = (lon / (2.0 * std::f64::consts::PI) + 0.5) * (src_w as f64 - 1.0);
            let sy = (lat / std::f64::consts::PI + 0.5) * (src_h as f64 - 1.0);
            let a = i * out_w as usize + j;
            assert!(
                (px(f.xs[a]) - sx).abs() < 0.1,
                "pixel ({i},{j}): x {} vs {sx}",
                px(f.xs[a])
            );
            assert!(
                (px(f.ys[a]) - sy).abs() < 0.1,
                "pixel ({i},{j}): y {} vs {sy}",
                px(f.ys[a])
            );
        }
    }
}

fn axis_angle(k: [f64; 3], angle: f64) -> [[f64; 3]; 3] {
    let (s, c) = angle.sin_cos();
    let v = 1.0 - c;
    [
        [
            c + k[0] * k[0] * v,
            k[0] * k[1] * v - k[2] * s,
            k[0] * k[2] * v + k[1] * s,
        ],
        [
            k[1] * k[0] * v + k[2] * s,
            c + k[1] * k[1] * v,
            k[1] * k[2] * v - k[0] * s,
        ],
        [
            k[2] * k[0] * v - k[1] * s,
            k[2] * k[1] * v + k[0] * s,
            c + k[2] * k[2] * v,
        ],
    ]
}

fn mat_mul(a: [[f64; 3]; 3], b: [[f64; 3]; 3]) -> [[f64; 3]; 3] {
    let mut r = [[0.0f64; 3]; 3];
    for i in 0..3 {
        for j in 0..3 {
            for k in 0..3 {
                r[i][j] += a[i][k] * b[k][j];
            }
        }
    }
    r
}
