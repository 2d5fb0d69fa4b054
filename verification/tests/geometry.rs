use equirect::fx::{HALF_PI_FX, PI_FX, QUARTER_PI_FX, SCALE};
use equirect::mat3::{compose_rotation, rotate_vec, Vec3};
use equirect::sphere::{lonlat_to_xy, xyz_to_lonlat};
use equirect::trig::{atan2_fx, cos_fx, sin_fx};

fn deg(d: i64) -> i64 {
    d * SCALE
}

#[test]
fn sine_exact_at_quadrant_boundaries() {
    assert_eq!(sin_fx(deg(0)), 0);
    assert_eq!(sin_fx(deg(90)), SCALE);
    assert_eq!(sin_fx(deg(180)), 0);
    assert_eq!(sin_fx(deg(270)), -SCALE);
    assert_eq!(sin_fx(deg(360)), 0);
}

#[test]
fn cosine_exact_at_quadrant_boundaries() {
    assert_eq!(cos_fx(deg(0)), SCALE);
    assert_eq!(cos_fx(deg(90)), 0);
    assert_eq!(cos_fx(deg(180)), -SCALE);
    assert_eq!(cos_fx(deg(270)), 0);
}

#[test]
fn sine_is_periodic_and_odd() {
    assert_eq!(sin_fx(deg(450)), sin_fx(deg(90)));
    assert_eq!(sin_fx(deg(-90)), -SCALE);
    // Oddness holds up to the floor rounding of the two quadrants.
    assert!((sin_fx(deg(30)) + sin_fx(deg(-30))).abs() <= 2);
}

#[test]
fn sine_matches_reference_values() {
    // sin(30 deg) = 1/2.
    assert!((sin_fx(deg(30)) - SCALE / 2).abs() <= 8);
    // cos(60 deg) = 1/2.
    assert!((cos_fx(deg(60)) - SCALE / 2).abs() <= 8);
    let expected = (45.0f64).to_radians().sin();
    let got = sin_fx(deg(45)) as f64 / SCALE as f64;
    assert!((got - expected).abs() < 1e-4);
}

#[test]
fn atan2_axes_are_exact() {
    assert_eq!(atan2_fx(0, SCALE), 0);
    assert_eq!(atan2_fx(SCALE, 0), HALF_PI_FX);
    assert_eq!(atan2_fx(0, -SCALE), PI_FX);
    assert_eq!(atan2_fx(-SCALE, 0), -HALF_PI_FX);
    assert_eq!(atan2_fx(SCALE, SCALE), QUARTER_PI_FX);
}

#[test]
fn atan2_matches_reference_values() {
    let cases: [(i64, i64); 4] = [(3, 4), (-3, 4), (5, -12), (-8, -15)];
    for (a, b) in cases {
        let expected = (a as f64).atan2(b as f64);
        let got = atan2_fx(a * 100_000, b * 100_000) as f64 / SCALE as f64;
        assert!(
            (got - expected).abs() < 1e-4,
            "atan2({a}, {b}): got {got}, expected {expected}"
        );
    }
}

#[test]
fn pure_yaw_keeps_the_forward_ray_horizontal() {
    // Yaw by 90 degrees, no pitch: the forward ray lands on the +x axis
    // with exactly no vertical component.
    let r = compose_rotation(deg(90), 0);
    let v = rotate_vec(&r, &Vec3 { x: 0, y: 0, z: SCALE });
    assert_eq!(v, Vec3 { x: SCALE, y: 0, z: 0 });
}

#[test]
fn pure_pitch_moves_the_forward_ray_vertically() {
    // No yaw, pitch by 90 degrees: the forward ray becomes purely vertical
    // with exactly no horizontal component.
    let r = compose_rotation(0, deg(90));
    let v = rotate_vec(&r, &Vec3 { x: 0, y: 0, z: SCALE });
    assert_eq!(v, Vec3 { x: 0, y: -SCALE, z: 0 });
}

#[test]
fn yaw_then_pitch_differs_from_pitch_then_yaw() {
    // The composition is not commutative: swapping the two angles moves
    // the forward ray to genuinely different directions.
    let a = compose_rotation(deg(90), deg(45));
    let b = compose_rotation(deg(45), deg(90));
    let f = Vec3 { x: 0, y: 0, z: SCALE };
    let va = rotate_vec(&a, &f);
    let vb = rotate_vec(&b, &f);
    assert_ne!(va, vb);
}

#[test]
fn rotation_is_orthonormal_within_tolerance() {
    // R^T * R = I and det(R) = 1, checked in floating point on the
    // fixed-point matrix for a grid of angles.
    let s = SCALE as f64;
    for &theta in &[-360i64, -210, -90, 0, 33, 90, 180, 275, 360] {
        for &phi in &[-360i64, -120, -45, 0, 60, 90, 240, 360] {
            let r = compose_rotation(deg(theta), deg(phi));
            let m = [
                [r.m00 as f64 / s, r.m01 as f64 / s, r.m02 as f64 / s],
                [r.m10 as f64 / s, r.m11 as f64 / s, r.m12 as f64 / s],
                [r.m20 as f64 / s, r.m21 as f64 / s, r.m22 as f64 / s],
            ];
            for i in 0..3 {
                for j in 0..3 {
                    let dot: f64 = (0..3).map(|k| m[k][i] * m[k][j]).sum();
                    let expected = if i == j { 1.0 } else { 0.0 };
                    assert!(
                        (dot - expected).abs() < 1e-4,
                        "theta {theta} phi {phi}: col {i} . col {j} = {dot}"
                    );
                }
            }
            let det = m[0][0] * (m[1][1] * m[2][2] - m[1][2] * m[2][1])
                - m[0][1] * (m[1][0] * m[2][2] - m[1][2] * m[2][0])
                + m[0][2] * (m[1][0] * m[2][1] - m[1][1] * m[2][0]);
            assert!((det - 1.0).abs() < 1e-4, "theta {theta} phi {phi}: det {det}");
        }
    }
}

#[test]
fn lonlat_ignores_positive_scaling() {
    // lonlat(v) == lonlat(k * v) exactly, for positive integer k.
    let cases: [(i64, i64, i64); 4] =
        [(123_456, -654_321, 777_777), (1, 2, 3), (-50_000, 0, 120_000), (7, -9, -11)];
    for (x, y, z) in cases {
        let base = xyz_to_lonlat(x, y, z);
        for k in [2i64, 7, 100] {
            assert_eq!(xyz_to_lonlat(k * x, k * y, k * z), base, "scaling ({x},{y},{z}) by {k}");
        }
    }
}

#[test]
fn lonlat_of_axes() {
    // Forward ray: longitude 0 (the +z convention), latitude 0.
    assert_eq!(xyz_to_lonlat(0, 0, SCALE), (0, 0));
    // +x: a quarter turn of longitude.
    assert_eq!(xyz_to_lonlat(SCALE, 0, 0), (HALF_PI_FX, 0));
    // Straight up (+y): latitude pi/2.
    let (_, lat) = xyz_to_lonlat(0, SCALE, 0);
    assert_eq!(lat, HALF_PI_FX);
    // The zero vector is the degenerate ray, clamped to (0, 0).
    assert_eq!(xyz_to_lonlat(0, 0, 0), (0, 0));
}

#[test]
fn lonlat_matches_reference_values() {
    let cases: [(i64, i64, i64); 3] = [(300_000, 400_000, 500_000), (-1_000, 2_000, 5_000), (10, -20, -30)];
    for (x, y, z) in cases {
        let (lon, lat) = xyz_to_lonlat(x, y, z);
        let n = ((x * x + y * y + z * z) as f64).sqrt();
        let expected_lon = (x as f64).atan2(z as f64);
        let expected_lat = (y as f64 / n).asin();
        assert!((lon as f64 / SCALE as f64 - expected_lon).abs() < 1e-4);
        assert!((lat as f64 / SCALE as f64 - expected_lat).abs() < 1e-4);
    }
}

#[test]
fn lonlat_to_xy_hits_the_borders_exactly() {
    // Longitude -pi maps to x = 0, +pi to x = srcW - 1; longitude 0 to the
    // horizontal middle.
    let (x0, _) = lonlat_to_xy(-PI_FX, 0, 4000, 2000);
    assert_eq!(x0, 0);
    let (x1, _) = lonlat_to_xy(PI_FX, 0, 4000, 2000);
    assert_eq!(x1, 3999 * SCALE);
    let (xm, ym) = lonlat_to_xy(0, 0, 4000, 2000);
    assert_eq!(xm, 3999 * SCALE / 2);
    assert_eq!(ym, 1999 * SCALE / 2);
}

#[test]
fn polar_latitudes_stay_inside_the_source() {
    // The fixed-point poles +-HALF_PI_FX map strictly inside the vertical
    // extent [0, srcH - 1] for every supported height.
    for h in [1u32, 2, 2000, 32768] {
        let (_, y_top) = lonlat_to_xy(0, HALF_PI_FX, 4000, h);
        let (_, y_bot) = lonlat_to_xy(0, -HALF_PI_FX, 4000, h);
        assert!(y_bot >= 0, "h = {h}: bottom pole at {y_bot}");
        assert!(y_top <= (h as i64 - 1) * SCALE, "h = {h}: top pole at {y_top}");
        assert!(y_bot <= y_top);
    }
}
