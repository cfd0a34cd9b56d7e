use sonarloc::fix::{Fix, ONE};
use sonarloc::geom::{Pose, Vec2};
use sonarloc::pool::{Hypothesis, Pool};
use sonarloc::position::{Position, PositionHint};
use sonarloc::sample::Sample;
use sonarloc::surface::SurfaceHint;

fn fx(x: f64) -> Fix {
    Fix::from_raw((x * 16777216.0).round() as i64)
}

fn fl(a: Fix) -> f64 {
    a.v as f64 / 16777216.0
}

fn assert_close(actual: f64, expected: f64, tol: f64) {
    assert!(
        (actual - expected).abs() < tol,
        "expected {expected}, got {actual} (tolerance {tol})"
    );
}

fn pose_at(x: f64, y: f64, angle: f64) -> Pose {
    Pose { pos: Vec2::new(fx(x), fx(y)), angle: fx(angle) }
}

fn absolute_at(x: f64, y: f64, weight: f64, value: f64) -> PositionHint {
    PositionHint::new(
        Position::Absolute(pose_at(x, y, 0.0)),
        Sample::new(fx(weight), fx(value)),
    )
}

const SONAR_DEVIANCE: f64 = (15.0 / 360.0) * 2.0 * std::f64::consts::PI / 2.0;

#[test]
fn pool_never_exceeds_capacity() {
    let mut pool: Pool<PositionHint> = Pool::new(3);
    for i in 0..10 {
        // hypotheses far apart, so none of them merge
        pool.add(absolute_at(i as f64 * 5.0, 0.0, 1.0, 0.5));
        assert!(pool.len() <= 3);
    }
    assert_eq!(pool.len(), 3);
}

#[test]
fn pool_merges_same_hypothesis_without_growing() {
    let mut pool: Pool<PositionHint> = Pool::new(5);
    pool.add(absolute_at(2.0, 2.0, 1.0, 1.0));
    let mut last_weight = fl(pool.get(0).sample.weight);
    for _ in 0..4 {
        // the same pose within tolerance: absorbed, never a second entry
        pool.add(absolute_at(2.001, 2.0, 1.0, 1.0));
        assert_eq!(pool.len(), 1);
        let w = fl(pool.get(0).sample.weight);
        assert!(w >= last_weight);
        last_weight = w;
    }
    assert_close(last_weight, 5.0, 1e-5);
}

#[test]
fn pool_eviction_respects_rank() {
    let mut pool: Pool<PositionHint> = Pool::new(1);
    pool.add(absolute_at(0.0, 0.0, 1.0, 0.9));
    // a weaker candidate is dropped
    pool.add(absolute_at(5.0, 0.0, 1.0, 0.3));
    assert_eq!(pool.len(), 1);
    assert_close(fl(pool.get(0).pos.pose().pos.x), 0.0, 1e-6);
    // a stronger candidate replaces the weakest entry
    pool.add(absolute_at(7.0, 0.0, 1.0, 0.95));
    assert_eq!(pool.len(), 1);
    assert_close(fl(pool.get(0).pos.pose().pos.x), 7.0, 1e-6);
}

#[test]
fn arcs_never_merge() {
    let surf = SurfaceHint::new(pose_at(2.5, 2.0, 0.0), fx(5.0), fx(SONAR_DEVIANCE), Sample::full());
    let rel = pose_at(0.5, 0.0, 0.0);
    let arc = surf.hint_position(fx(3.0), &rel);
    let mut pool: Pool<PositionHint> = Pool::new(5);
    pool.add(arc);
    pool.add(arc);
    assert_eq!(pool.len(), 2);
}

#[test]
fn surface_merge_requires_all_fields_in_range() {
    let mut a = SurfaceHint::new(pose_at(1.0, 1.0, 0.0), fx(5.0), fx(0.1), Sample::full());
    let near = SurfaceHint::new(pose_at(1.01, 1.0, 0.0), fx(5.01), fx(0.1), Sample::full());
    let far_range = SurfaceHint::new(pose_at(1.0, 1.0, 0.0), fx(5.5), fx(0.1), Sample::full());
    assert!(a.try_merge(&near));
    assert_close(fl(a.sample.weight), 2.0, 1e-5);
    assert!(!a.try_merge(&far_range));
    assert_close(fl(a.sample.weight), 2.0, 1e-5);
}

#[test]
fn surface_hint4() {
    let sensor_rel_pos = pose_at(0.5, 0.5, std::f64::consts::PI / 2.0);
    let surf_hint = SurfaceHint::new(
        pose_at(2.5, 2.5, 0.0),
        fx(5.0),
        fx(SONAR_DEVIANCE),
        Sample::empty(),
    );
    let pos_hint = surf_hint.hint_position(fx(3.0), &sensor_rel_pos);
    match pos_hint.pos {
        Position::CircleSegment(cs) => {
            assert_close(fl(cs.radius), 1.5811388, 1e-4);
            assert!(!cs.inwards);
            assert_close(fl(cs.iso.pos.x), 2.5, 1e-6);
            assert_close(fl(cs.iso.pos.y), 2.5, 1e-6);
            assert_close(fl(cs.half_width), SONAR_DEVIANCE, 1e-6);
        }
        Position::Absolute(_) => panic!("expected an arc"),
    }
}

#[test]
fn hint_equal_range_returns_captured_pose() {
    // boundary case: a reading equal to the captured range resolves to the
    // captured pose itself, not an arc
    let surf = SurfaceHint::new(pose_at(2.5, 2.0, 0.3), fx(5.0), fx(SONAR_DEVIANCE), Sample::full());
    let rel = pose_at(0.5, 0.0, 0.0);
    let hint = surf.hint_position(fx(5.0), &rel);
    match hint.pos {
        Position::Absolute(p) => {
            assert_eq!(p, surf.iso);
        }
        Position::CircleSegment(_) => panic!("expected a resolved pose"),
    }
    // the evidence is the surface's, decayed by the per-reading factor
    assert_close(fl(hint.sample.weight), 0.9, 1e-5);
}

#[test]
fn arc_round_trip_places_second_pose_on_arc() {
    // a surface captured from the origin by a forward sensor at (0.3, 0):
    // the sensor pose is the surface hypothesis's pose, range 5
    let captured_sensor_pose = pose_at(0.3, 0.0, 0.0);
    let surf = SurfaceHint::new(captured_sensor_pose, fx(5.0), fx(SONAR_DEVIANCE), Sample::full());
    // the robot moves 1 forward; the same sensor now reads 4
    let rel = pose_at(0.3, 0.0, 0.0);
    let hint = surf.hint_position(fx(4.0), &rel);
    // a pose on the derived arc (radius 0.7 around the old sensor pose), at
    // 0.05 radians along it, with the heading the arc implies there
    let phi = 0.05f64;
    let on_arc = pose_at(0.3 + 0.7 * phi.cos(), 0.7 * phi.sin(), phi);
    match hint.pos {
        Position::CircleSegment(cs) => {
            assert!(cs.agrees_with_position(&on_arc));
            // a pose well off the arc does not agree
            assert!(!cs.agrees_with_position(&pose_at(2.5, 0.0, 0.0)));
            // a pose on the arc with the wrong heading does not agree
            assert!(!cs.agrees_with_position(&pose_at(
                0.3 + 0.7 * phi.cos(),
                0.7 * phi.sin(),
                phi + 0.5
            )));
            // a pose on the circle but outside the angular width does not agree
            assert!(!cs.agrees_with_position(&pose_at(
                0.3 + 0.7 * 0.5f64.cos(),
                0.7 * 0.5f64.sin(),
                0.5
            )));
        }
        Position::Absolute(_) => panic!("expected an arc"),
    }
}

#[test]
fn arc_inwards_round_trip() {
    // the new reading is longer than the captured one: the robot moved away
    let captured_sensor_pose = pose_at(0.3, 0.0, 0.0);
    let surf = SurfaceHint::new(captured_sensor_pose, fx(5.0), fx(SONAR_DEVIANCE), Sample::full());
    let rel = pose_at(0.3, 0.0, 0.0);
    let hint = surf.hint_position(fx(6.0), &rel);
    // a pose on the inward arc (radius 1.3 around the old sensor pose), at
    // 0.05 radians off the segment's middle, headed as the arc implies
    let phi = std::f64::consts::PI - 0.05;
    let on_arc = pose_at(0.3 + 1.3 * phi.cos(), 1.3 * phi.sin(), -0.05);
    match hint.pos {
        Position::CircleSegment(cs) => {
            assert!(cs.inwards);
            assert!(cs.agrees_with_position(&on_arc));
        }
        Position::Absolute(_) => panic!("expected an arc"),
    }
}

#[test]
fn position_hint_defaults() {
    let d = PositionHint::default();
    match d.pos {
        Position::Absolute(p) => {
            assert_eq!(p.pos.x.v, 0);
            assert_eq!(p.pos.y.v, 0);
            assert_eq!(p.angle.v, 0);
        }
        Position::CircleSegment(_) => panic!("expected a resolved pose"),
    }
    assert_eq!(d.sample.weight.v, 0);
    let c = PositionHint::certain(pose_at(0.0, 0.0, 0.0));
    assert_eq!(c.sample.weight.v, ONE);
    assert_eq!(c.sample.value.v, ONE);
    let sd = SurfaceHint::default();
    assert_eq!(sd.distance.v, 0);
    assert_eq!(sd.sample.weight.v, 0);
}

#[test]
fn zero_weight_entry_is_evicted_first() {
    // a hypothesis without evidence always loses the eviction contest
    let mut pool: Pool<PositionHint> = Pool::new(2);
    pool.add(absolute_at(0.0, 0.0, 1.0, 0.2));
    pool.add(absolute_at(5.0, 0.0, 0.0, 0.0));
    assert_eq!(pool.len(), 2);
    pool.add(absolute_at(9.0, 0.0, 1.0, 0.1));
    assert_eq!(pool.len(), 2);
    let mut xs: Vec<f64> = Vec::new();
    for i in 0..pool.len() {
        xs.push(fl(pool.get(i).pos.pose().pos.x));
    }
    assert!(xs.contains(&0.0));
    assert!(xs.iter().any(|x| (x - 9.0).abs() < 1e-6));
}

#[test]
fn weakest_of_several_is_replaced() {
    let mut pool: Pool<PositionHint> = Pool::new(3);
    pool.add(absolute_at(0.0, 0.0, 1.0, 0.9));
    pool.add(absolute_at(5.0, 0.0, 1.0, 0.2));
    pool.add(absolute_at(9.0, 0.0, 1.0, 0.6));
    // the pool is full; a candidate above the weakest replaces exactly it
    pool.add(absolute_at(13.0, 0.0, 1.0, 0.5));
    assert_eq!(pool.len(), 3);
    let mut xs: Vec<f64> = Vec::new();
    for i in 0..pool.len() {
        xs.push(fl(pool.get(i).pos.pose().pos.x));
    }
    assert!(xs.iter().any(|x| (x - 0.0).abs() < 1e-6));
    assert!(xs.iter().any(|x| (x - 9.0).abs() < 1e-6));
    assert!(xs.iter().any(|x| (x - 13.0).abs() < 1e-6));
    assert!(!xs.iter().any(|x| (x - 5.0).abs() < 1e-6));
}
