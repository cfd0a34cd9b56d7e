use sonarloc::engine::{EnvModule, HardwareInfo, Scan, POSITION_CAP, SURFACE_CAP};
use sonarloc::fix::Fix;
use sonarloc::geom::{Pose, Vec2};
use sonarloc::position::Position;
use sonarloc::sample::Sample;

fn fx(x: f64) -> Fix {
    Fix::from_raw((x * 16777216.0).round() as i64)
}

fn fl(a: Fix) -> f64 {
    a.v as f64 / 16777216.0
}

fn pose_at(x: f64, y: f64, angle: f64) -> Pose {
    Pose { pos: Vec2::new(fx(x), fx(y)), angle: fx(angle) }
}

const SONAR_DEVIANCE: f64 = (15.0 / 360.0) * 2.0 * std::f64::consts::PI / 2.0;

fn hardware() -> HardwareInfo {
    HardwareInfo { half_width: fx(0.3), sonar_deviance: fx(SONAR_DEVIANCE) }
}

fn scan(distance: f64, mount_x: f64, mount_y: f64, mount_angle: f64) -> Scan {
    Scan { distance: fx(distance), iso: pose_at(mount_x, mount_y, mount_angle) }
}

#[test]
fn new_engine_is_certain_at_origin() {
    let engine = EnvModule::new(fx(0.016));
    assert_eq!(engine.pos.len(), 1);
    assert_eq!(engine.pos.cap, POSITION_CAP);
    assert_eq!(engine.surfaces.len(), 0);
    assert_eq!(engine.surfaces.cap, SURFACE_CAP);
    match engine.pos.get(0).pos {
        Position::Absolute(p) => {
            assert_eq!(p.pos.x.v, 0);
            assert_eq!(p.pos.y.v, 0);
            assert_eq!(p.angle.v, 0);
        }
        Position::CircleSegment(_) => panic!("expected the certain origin pose"),
    }
    assert_eq!(fl(engine.pos.get(0).sample.weight), 1.0);
}

#[test]
fn first_tick_records_surfaces_at_the_sensors() {
    // a wall crosses the x axis at x = 5; the robot sits at the origin,
    // heading 0, not moving; two forward sensors at (0.3, 0) and (0.3, 0.1)
    // both read a range of 4.7
    let mut engine = EnvModule::new(fx(1.0));
    engine.speeds = (fx(0.0), fx(0.0));
    let scans = vec![scan(4.7, 0.3, 0.0, 0.0), scan(4.7, 0.3, 0.1, 0.0)];
    let result = engine.update(&hardware(), &scans);
    assert_eq!(fl(result.left_speed), 0.0);
    assert_eq!(fl(result.right_speed), 0.0);
    // one surface hypothesis per reading: captured at the sensor's world
    // pose (robot pose composed with the mount pose), at the read range
    assert_eq!(engine.surfaces.len(), 2);
    let s0 = engine.surfaces.get(0);
    assert!((fl(s0.iso.pos.x) - 0.3).abs() < 1e-4);
    assert!((fl(s0.iso.pos.y) - 0.0).abs() < 1e-4);
    assert!(fl(s0.iso.angle).abs() < 1e-4);
    assert!((fl(s0.distance) - 4.7).abs() < 1e-4);
    let s1 = engine.surfaces.get(1);
    assert!((fl(s1.iso.pos.y) - 0.1).abs() < 1e-4);
    // the evidence decayed twice from full certainty: once by the per-tick
    // motion decay (the snapshot is taken after prediction), once by the
    // per-reading decay
    assert!((fl(s0.sample.weight) - 0.81).abs() < 1e-3);
    // the position pool still holds only the origin hypothesis
    assert_eq!(engine.pos.len(), 1);
}

#[test]
fn second_tick_triangulates_the_moved_pose() {
    // the same wall at x = 5 and the same two sensors; between the ticks the
    // robot is moved by hand to (1, 0), heading 0, so both sensors read 3.7
    let mut engine = EnvModule::new(fx(1.0));
    engine.speeds = (fx(0.0), fx(0.0));
    let scans1 = vec![scan(4.7, 0.3, 0.0, 0.0), scan(4.7, 0.3, 0.1, 0.0)];
    engine.update(&hardware(), &scans1);
    let scans2 = vec![scan(3.7, 0.3, 0.0, 0.0), scan(3.7, 0.3, 0.1, 0.0)];
    let result = engine.update(&hardware(), &scans2);
    // back-projection added one arc per surface and reading
    assert_eq!(engine.pos.len(), 5);
    // exactly one resolved candidate at the true pose (1, 0) heading 0: the
    // two matched arcs cross there and agree on the heading, every other
    // pairing is rejected
    let mut hits: usize = 0;
    for entry in result.ranked.iter() {
        let (p, _) = entry;
        if (fl(p.pos.x) - 1.0).abs() < 0.05 && fl(p.pos.y).abs() < 0.05 {
            hits += 1;
            assert!(fl(p.angle).abs() < 0.02);
        }
    }
    assert_eq!(hits, 1);
    // the ranking never increases along the list: an entry with evidence
    // never follows one without
    let mut seen_empty = false;
    for entry in result.ranked.iter() {
        if entry.1.weight.v == 0 {
            seen_empty = true;
        } else {
            assert!(!seen_empty, "an entry with evidence followed an empty one");
        }
    }
}

#[test]
fn equal_reading_resolves_to_captured_pose() {
    // a reading equal to the captured range back-projects to the captured
    // sensor pose itself (a resolved candidate), which then merges or stands
    // in the position pool
    let mut engine = EnvModule::new(fx(1.0));
    engine.speeds = (fx(0.0), fx(0.0));
    let scans1 = vec![scan(4.7, 0.3, 0.0, 0.0)];
    engine.update(&hardware(), &scans1);
    let scans2 = vec![scan(4.7, 0.3, 0.0, 0.0)];
    engine.update(&hardware(), &scans2);
    // the back-projected candidate is Absolute at (0.3, 0), far enough from
    // the origin hypothesis not to merge with it
    assert_eq!(engine.pos.len(), 2);
    let mut found = false;
    for i in 0..engine.pos.len() {
        if let Position::Absolute(p) = engine.pos.get(i).pos {
            if (fl(p.pos.x) - 0.3).abs() < 1e-4 && fl(p.pos.y).abs() < 1e-4 {
                found = true;
            }
        }
    }
    assert!(found, "expected the captured pose among the hypotheses");
}

#[test]
fn surface_pool_respects_capacity_over_many_ticks() {
    // feed many distinct readings; the surface pool grows but never past its
    // capacity, and the position pool never past its own
    let mut engine = EnvModule::new(fx(1.0));
    engine.speeds = (fx(0.0), fx(0.0));
    for t in 0..40 {
        let d = 2.0 + (t as f64) * 0.31;
        let scans = vec![
            scan(d, 0.3, 0.0, 0.0),
            scan(d + 0.17, 0.0, 0.3, std::f64::consts::PI / 2.0),
            scan(d + 0.29, 0.0, -0.3, -std::f64::consts::PI / 2.0),
        ];
        engine.update(&hardware(), &scans);
        assert!(engine.surfaces.len() <= SURFACE_CAP);
        assert!(engine.pos.len() <= POSITION_CAP);
    }
    assert!(engine.surfaces.len() > 0);
}

#[test]
fn ranked_output_is_sorted_by_average_confidence() {
    let mut engine = EnvModule::new(fx(1.0));
    engine.speeds = (fx(0.0), fx(0.0));
    let scans1 = vec![scan(4.7, 0.3, 0.0, 0.0), scan(4.7, 0.3, 0.1, 0.0)];
    engine.update(&hardware(), &scans1);
    let scans2 = vec![scan(3.7, 0.3, 0.0, 0.0), scan(3.7, 0.3, 0.1, 0.0)];
    let result = engine.update(&hardware(), &scans2);
    assert!(result.ranked.len() >= 1);
    let avg = |s: &Sample| -> Option<f64> {
        if s.weight.v == 0 {
            None
        } else {
            Some(fl(s.value) / fl(s.weight))
        }
    };
    for w in result.ranked.windows(2) {
        match (avg(&w[0].1), avg(&w[1].1)) {
            (Some(a), Some(b)) => assert!(a >= b - 1e-9),
            (None, Some(_)) => panic!("an empty sample ranked above one with evidence"),
            _ => {}
        }
    }
}

#[test]
fn tick_with_no_readings_only_predicts() {
    // with no readings, a tick only runs the prediction phase: the pools do
    // not grow, the evidence decays
    let mut engine = EnvModule::new(fx(1.0));
    engine.speeds = (fx(0.0), fx(0.0));
    let result = engine.update(&hardware(), &vec![]);
    assert_eq!(engine.pos.len(), 1);
    assert_eq!(engine.surfaces.len(), 0);
    assert!((fl(engine.pos.get(0).sample.weight) - 0.9).abs() < 1e-4);
    assert_eq!(result.ranked.len(), 1);
}
