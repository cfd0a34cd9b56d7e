use sonarloc::fix::{Fix, ONE, CMAX};
use sonarloc::geom::{
    Circle, Pose, Vec2, circ_intersect, compose, coord_in_range, in_range, iso_in_range,
    point_in_range, pos_delta, rotation_to, to_positive_rad, vec_len, vector_in_range,
};
use sonarloc::sample::Sample;
use sonarloc::trig::{atan2_fix, cos_fix, norm_angle, sin_fix, PI, TWO_PI};

fn fx(x: f64) -> Fix {
    Fix::from_raw((x * 16777216.0).round() as i64)
}

fn fl(a: Fix) -> f64 {
    a.v as f64 / 16777216.0
}

fn assert_close(actual: f64, expected: f64, tol: f64) {
    assert!(
        (actual - expected).abs() < tol,
        "expected {expected}, got {actual} (tolerance {tol})"
    );
}

#[test]
fn fix_arithmetic_exact() {
    assert_eq!(fx(2.0).plus(fx(3.0)).v, 5 * ONE);
    assert_eq!(fx(2.0).minus(fx(3.0)).v, -ONE);
    assert_eq!(fx(2.0).times(fx(3.0)).v, 6 * ONE);
    assert_eq!(fx(6.0).div_by(fx(3.0)).v, 2 * ONE);
    assert_eq!(fx(-2.5).abs().v, fx(2.5).v);
    assert_eq!(fx(-2.5).neg().v, fx(2.5).v);
    assert_eq!(Fix::whole(7).v, 7 * ONE);
}

#[test]
fn fix_saturates_at_band() {
    let big = Fix { v: CMAX };
    assert_eq!(big.plus(big).v, CMAX);
    assert_eq!(big.neg().minus(big).v, -CMAX);
    assert_eq!(big.times(big).v, CMAX);
}

#[test]
fn fix_sqrt_values() {
    assert_eq!(fx(9.0).sqrt().unwrap().v, 3 * ONE);
    assert_close(fl(fx(2.0).sqrt().unwrap()), 1.41421356, 1e-6);
    assert!(fx(-1.0).sqrt().is_none());
}

#[test]
fn trig_values() {
    assert_close(fl(sin_fix(fx(std::f64::consts::PI / 6.0))), 0.5, 1e-4);
    assert_close(fl(cos_fix(fx(std::f64::consts::PI / 3.0))), 0.5, 1e-4);
    assert_close(fl(sin_fix(fx(1.2))), 1.2f64.sin(), 1e-4);
    assert_close(fl(cos_fix(fx(-0.7))), 0.7f64.cos(), 1e-4);
    assert_close(
        fl(atan2_fix(fx(1.0), fx(1.0))),
        std::f64::consts::PI / 4.0,
        1e-4,
    );
    assert_close(
        fl(atan2_fix(fx(1.0), fx(-1.0))),
        3.0 * std::f64::consts::PI / 4.0,
        1e-4,
    );
    assert_close(
        fl(atan2_fix(fx(-1.0), fx(-1.0))),
        -3.0 * std::f64::consts::PI / 4.0,
        1e-4,
    );
    assert_eq!(atan2_fix(fx(0.0), fx(0.0)).v, PI / 2);
}

#[test]
fn angle_normalization() {
    let a = norm_angle(fx(7.0));
    assert_close(fl(a), 7.0 - 2.0 * std::f64::consts::PI, 1e-5);
    assert!(a.v >= -PI && a.v < PI);
    assert_eq!(to_positive_rad(fx(-1.0)).v, TWO_PI + fx(-1.0).v);
    assert_eq!(to_positive_rad(fx(1.0)).v, fx(1.0).v);
    // wrap-around: the rotation from just below a half turn to just above it
    let r = rotation_to(fx(3.0), fx(-3.0));
    assert_close(fl(r), 2.0 * std::f64::consts::PI - 6.0, 1e-5);
}

#[test]
fn tolerance_comparisons() {
    assert!(in_range(fx(1.0), fx(1.05), fx(0.1)));
    assert!(!in_range(fx(1.0), fx(1.2), fx(0.1)));
    assert!(coord_in_range(fx(1.0), fx(1.02)));
    assert!(!coord_in_range(fx(1.0), fx(1.04)));
    let v1 = Vec2::new(fx(1.0), fx(2.0));
    let v2 = Vec2::new(fx(1.01), fx(2.01));
    assert!(vector_in_range(v1, v2));
    assert!(point_in_range(v1, v2));
    let p1 = Pose { pos: v1, angle: fx(0.1) };
    let p2 = Pose { pos: v2, angle: fx(0.11) };
    assert!(iso_in_range(p1, p2));
    let p3 = Pose { pos: v2, angle: fx(0.2) };
    assert!(!iso_in_range(p1, p3));
}

#[test]
fn pose_composition() {
    let p = Pose { pos: Vec2::new(fx(1.0), fx(2.0)), angle: fx(std::f64::consts::PI / 2.0) };
    let d = Pose { pos: Vec2::new(fx(1.0), fx(0.0)), angle: fx(0.0) };
    let r = compose(p, d);
    assert_close(fl(r.pos.x), 1.0, 1e-4);
    assert_close(fl(r.pos.y), 3.0, 1e-4);
    assert_close(fl(r.angle), std::f64::consts::PI / 2.0, 1e-4);
}

#[test]
fn vector_length() {
    assert_close(fl(vec_len(Vec2::new(fx(3.0), fx(4.0)))), 5.0, 1e-5);
}

#[test]
fn circle_intersection_known_points() {
    // centers 4 apart, radii 3 and 3: intersection at (2, +/- sqrt 5)
    let c1 = Circle::new(fx(0.0), fx(0.0), fx(3.0));
    let c2 = Circle::new(fx(4.0), fx(0.0), fx(3.0));
    let (p1, p2) = circ_intersect(c1, c2).expect("circles intersect");
    let rt5 = 5.0f64.sqrt();
    assert_close(fl(p1.x), 2.0, 1e-4);
    assert_close(fl(p1.y), rt5, 1e-4);
    assert_close(fl(p2.x), 2.0, 1e-4);
    assert_close(fl(p2.y), -rt5, 1e-4);
}

#[test]
fn circle_intersection_disjoint() {
    // center distance 7, radii 1 and 1: no intersection
    let c1 = Circle::new(fx(0.0), fx(0.0), fx(1.0));
    let c2 = Circle::new(fx(7.0), fx(0.0), fx(1.0));
    assert!(circ_intersect(c1, c2).is_none());
}

#[test]
fn circle_intersection_tangent_coincident_points() {
    // center distance 2, radii 1 and 1: tangent at (1, 0), both points there
    let c1 = Circle::new(fx(0.0), fx(0.0), fx(1.0));
    let c2 = Circle::new(fx(2.0), fx(0.0), fx(1.0));
    let (p1, p2) = circ_intersect(c1, c2).expect("tangent circles touch");
    assert_close(fl(p1.x), 1.0, 1e-3);
    assert_close(fl(p1.y), 0.0, 1e-3);
    assert_close(fl(p2.x), 1.0, 1e-3);
    assert_close(fl(p2.y), 0.0, 1e-3);
}

#[test]
fn motion_model_straight_branch_is_unscaled() {
    // equal speeds: a pure forward translation by the raw speed, not speed*dt
    let r = pos_delta(fx(0.3), fx(0.5), fx(1.0), fx(1.0));
    assert_eq!(r.pos.x.v, fx(1.0).v);
    assert_eq!(r.pos.y.v, 0);
    assert_eq!(r.angle.v, 0);
}

#[test]
fn motion_model_arc_converges_to_speed_times_dt() {
    // as the speed difference shrinks, the arc branch tends to speed * dt
    let dt = 1.0;
    let r1 = pos_delta(fx(0.3), fx(dt), fx(1.0), fx(0.99));
    let r2 = pos_delta(fx(0.3), fx(dt), fx(1.0), fx(0.999));
    assert_close(fl(r1.pos.x), 0.995, 0.01);
    assert_close(fl(r2.pos.x), 1.0, 0.02);
    assert_close(fl(r2.pos.y), 0.0, 0.02);
    assert_close(fl(r2.angle), 0.001 * dt / 0.6, 1e-3);
    // with dt = 0.5 the arc branch scales by dt while the straight branch
    // does not: the kept quirk of the model
    let r3 = pos_delta(fx(0.3), fx(0.5), fx(1.0), fx(0.999));
    assert_close(fl(r3.pos.x), 0.5, 0.02);
    let straight = pos_delta(fx(0.3), fx(0.5), fx(1.0), fx(1.0));
    assert_eq!(straight.pos.x.v, fx(1.0).v);
}

#[test]
fn sample_operations() {
    let s = Sample::new(fx(1.0), fx(1.0));
    let d = s.scaled(fx(0.5));
    assert_eq!(d.weight.v, ONE / 2);
    assert_eq!(d.value.v, ONE / 2);
    let c = s.combined(Sample::new(fx(3.0), fx(1.0)));
    assert_eq!(c.weight.v, 4 * ONE);
    assert_eq!(c.value.v, 2 * ONE);
    assert_eq!(c.average_confidence().unwrap().v, ONE / 2);
    assert!(Sample::empty().average_confidence().is_none());
}

#[test]
fn sample_contests() {
    let strong = Sample::new(fx(1.0), fx(0.9));
    let weak = Sample::new(fx(1.0), fx(0.3));
    let none = Sample::empty();
    assert!(strong.beats(&weak));
    assert!(!weak.beats(&strong));
    // a sample with no evidence loses every contest, even against another
    assert!(strong.beats(&none));
    assert!(!none.beats(&strong));
    assert!(none.beats(&Sample::empty()));
}
