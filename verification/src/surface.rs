//! The surface hypothesis model: a believed location and orientation of a
//! reflecting surface point, captured together with the range a sensor
//! reported, and able to re-derive a position hypothesis from a new reading.
use vstd::prelude::*;
use crate::fix::{Fix, fadd, fsub, clip};
use crate::trig::{norm_s, atan2_s, atan2_fix, norm_angle, PI};
use crate::geom::{
    Vec2, Pose, rot_x_s, rot_y_s, rot_vec, vec_len_s, vec_len, coord_in_range_s, coord_in_range,
    angle_in_range_s, angle_in_range, iso_in_range_s, iso_in_range,
};
use crate::sample::{Sample, SCAN_ERR, combined_s, scaled_s, sample_beats_s};
use crate::position::{CircleSegment, Position, PositionHint};
use crate::pool::Hypothesis;

verus! {

/// A believed reflecting surface point: its pose in world coordinates (the
/// point's location, oriented as the sensor that saw it), the range at which
/// it was captured, the angular deviance of the capturing sensor, and the
/// accumulated evidence.
#[derive(Clone, Copy, Debug, PartialEq, Eq, Structural)]
pub struct SurfaceHint {
    pub iso: Pose,
    pub distance: Fix,
    pub deviance: Fix,
    pub sample: Sample,
}

/// Two surface hypotheses stand for the same surface point: pose, captured
/// range and deviance all agree within their tolerances.
pub open spec fn surface_can_merge_s(a: SurfaceHint, b: SurfaceHint) -> bool {
    iso_in_range_s(a.iso, b.iso) && coord_in_range_s(a.distance.v as int, b.distance.v as int)
        && angle_in_range_s(a.deviance.v as int, b.deviance.v as int)
}

/// The sensor-to-robot offset in the sensor's local frame: the mount pose's
/// translation, negated, rotated back by the mount rotation.
pub open spec fn sensor_to_robot_rel_s(relative_iso: Pose) -> (int, int) {
    let ax = -(relative_iso.pos.x.v as int);
    let ay = -(relative_iso.pos.y.v as int);
    let inv = norm_s(-(relative_iso.angle.v as int));
    (rot_x_s(inv, ax, ay), rot_y_s(inv, ax, ay))
}

/// The position hypothesis a new reading derives against a believed surface
/// point: an arc around the surface point, or, when the reading equals the
/// captured range, the captured pose itself.
pub open spec fn hint_position_s(sh: SurfaceHint, distance: int, relative_iso: Pose) -> PositionHint {
    let (sx, sy) = sensor_to_robot_rel_s(relative_iso);
    let decayed = scaled_s(sh.sample, SCAN_ERR as int);
    if distance == sh.distance.v as int {
        PositionHint { pos: Position::Absolute(sh.iso), sample: decayed }
    } else {
        let inwards = distance > sh.distance.v as int;
        let direction = if inwards {
            norm_s(PI as int + sh.iso.angle.v as int)
        } else {
            sh.iso.angle.v as int
        };
        let abs_r = if inwards {
            fsub(distance, sh.distance.v as int)
        } else {
            fsub(sh.distance.v as int, distance)
        };
        let rel_x = if inwards {
            -sx
        } else {
            sx
        };
        let rel_y = if inwards {
            -sy
        } else {
            sy
        };
        let bx = fadd(abs_r, rel_x);
        let by = fadd(0, rel_y);
        let rel_r = vec_len_s(Vec2 { x: Fix { v: bx as i64 }, y: Fix { v: by as i64 } });
        let e = norm_s(clip(atan2_s(by, bx)));
        let seg_iso = Pose {
            pos: sh.iso.pos,
            angle: Fix { v: norm_s(fadd(direction, e)) as i64 },
        };
        PositionHint {
            pos: Position::CircleSegment(
                CircleSegment {
                    iso: seg_iso,
                    radius: Fix { v: rel_r as i64 },
                    half_width: sh.deviance,
                    sensor_offset: Fix { v: e as i64 },
                    robot_offset: relative_iso.angle,
                    inwards,
                },
            ),
            sample: decayed,
        }
    }
}

impl SurfaceHint {
    pub open spec fn wf(self) -> bool {
        self.iso.wf() && self.distance.wf() && self.deviance.wf() && self.sample.wf()
    }

    pub fn new(iso: Pose, distance: Fix, deviance: Fix, sample: Sample) -> (r: SurfaceHint)
        ensures
            r == (SurfaceHint { iso, distance, deviance, sample }),
    {
        SurfaceHint { iso, distance, deviance, sample }
    }

    /// Derive where the robot must be for a new reading `distance`, taken by
    /// a sensor mounted at `relative_iso` in the robot frame, to be
    /// consistent with this surface point: an arc of poses around the
    /// surface point, or the captured pose itself when the reading equals
    /// the captured range. The evidence is this hypothesis's, decayed by the
    /// per-reading factor.
    pub fn hint_position(&self, distance: Fix, relative_iso: &Pose) -> (r: PositionHint)
        requires
            self.wf(),
            distance.wf(),
            relative_iso.wf(),
        ensures
            r == hint_position_s(*self, distance.v as int, *relative_iso),
            r.wf_h(),
            distance.v == self.distance.v ==> r.pos == Position::Absolute(self.iso),
            r.pos matches Position::CircleSegment(cs) ==> cs.half_width == self.deviance
                && cs.radius.v >= 0 && cs.robot_offset == relative_iso.angle,
    {
        let sensor_to_robot_abs = Vec2 { x: relative_iso.pos.x.neg(), y: relative_iso.pos.y.neg() };
        let inv_rot = norm_angle(relative_iso.angle.neg());
        let sensor_to_robot_rel = rot_vec(inv_rot, sensor_to_robot_abs);
        let decayed = self.sample.scaled(Fix { v: SCAN_ERR });
        if distance.v == self.distance.v {
            return PositionHint { pos: Position::Absolute(self.iso), sample: decayed };
        }
        let inwards = distance.v > self.distance.v;
        let direction = if inwards {
            norm_angle(Fix { v: PI }.plus(self.iso.angle))
        } else {
            self.iso.angle
        };
        let abs_r = if inwards {
            distance.minus(self.distance)
        } else {
            self.distance.minus(distance)
        };
        let rel_vec = if inwards {
            Vec2 { x: sensor_to_robot_rel.x.neg(), y: sensor_to_robot_rel.y.neg() }
        } else {
            sensor_to_robot_rel
        };
        let base_point_trans = Vec2 {
            x: abs_r.plus(rel_vec.x),
            y: Fix { v: 0 }.plus(rel_vec.y),
        };
        let rel_r = vec_len(base_point_trans);
        let e = norm_angle(atan2_fix(base_point_trans.y, base_point_trans.x));
        let seg_iso = Pose { pos: self.iso.pos, angle: norm_angle(direction.plus(e)) };
        proof {
            assert(fadd(PI as int, self.iso.angle.v as int) == PI as int + self.iso.angle.v as int);
            assert(fadd(-(relative_iso.angle.v as int), 0) == -(relative_iso.angle.v as int));
        }
        PositionHint {
            pos: Position::CircleSegment(
                CircleSegment {
                    iso: seg_iso,
                    radius: rel_r,
                    half_width: self.deviance,
                    sensor_offset: e,
                    robot_offset: relative_iso.angle,
                    inwards,
                },
            ),
            sample: decayed,
        }
    }
}

impl Default for SurfaceHint {
    /// An empty surface hypothesis: the identity pose, zero range and
    /// deviance, no evidence.
    fn default() -> (r: SurfaceHint)
        ensures
            r == (SurfaceHint {
                iso: crate::geom::identity_s(),
                distance: Fix { v: 0 },
                deviance: Fix { v: 0 },
                sample: Sample { weight: Fix { v: 0 }, value: Fix { v: 0 } },
            }),
            r.wf(),
    {
        SurfaceHint {
            iso: Pose::identity(),
            distance: Fix { v: 0 },
            deviance: Fix { v: 0 },
            sample: Sample::empty(),
        }
    }
}

impl Hypothesis for SurfaceHint {
    open spec fn wf_h(self) -> bool {
        self.wf()
    }

    open spec fn weight_of(self) -> int {
        self.sample.weight.v as int
    }

    open spec fn can_merge(self, other: Self) -> bool {
        surface_can_merge_s(self, other)
    }

    open spec fn merged(self, other: Self) -> Self {
        SurfaceHint { sample: combined_s(self.sample, other.sample), ..self }
    }

    open spec fn beats_s(self, other: Self) -> bool {
        sample_beats_s(self.sample, other.sample)
    }

    proof fn lemma_weight_nonneg(self) {
    }

    proof fn lemma_merged(self, other: Self, t: Self) {
    }

    proof fn lemma_merge_sym(self, other: Self) {
    }

    fn try_merge(&mut self, other: &Self) -> (b: bool) {
        let mergeable = iso_in_range(self.iso, other.iso) && coord_in_range(
            self.distance,
            other.distance,
        ) && angle_in_range(self.deviance, other.deviance);
        if mergeable {
            self.sample = self.sample.combined(other.sample);
        }
        mergeable
    }

    fn beats(&self, other: &Self) -> (b: bool) {
        self.sample.beats(&other.sample)
    }
}

} // verus!
