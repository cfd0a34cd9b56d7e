//! The position hypothesis model: either a fully resolved pose, or a locus
//! of poses constrained to a circle segment (an arc) around a believed
//! surface point.
use vstd::prelude::*;
use crate::fix::{Fix, ONE, fsub, fmul, fsqrt, abs_i, clip};
use crate::trig::{norm_s, is_norm, atan2_s, atan2_fix, norm_angle, PI};
use crate::geom::{
    Vec2, Pose, Circle, coord_in_range_s, coord_in_range, angle_in_range_s, angle_in_range,
    iso_in_range_s, iso_in_range, rotation_to_s, rotation_to,
};
use crate::sample::{Sample, combined_s, sample_beats_s};
use crate::pool::Hypothesis;

verus! {

/// An arc of possible robot poses: the locus consistent with one range
/// reading against one believed surface point.
///
/// `iso` is the circle's center pose (position of the center, heading toward
/// the middle of the segment); `radius` the circle's radius; `half_width`
/// the angular half width of the segment; `sensor_offset` the angle from a
/// point on the segment to the orientation of the sensor; `robot_offset` the
/// angle from the robot's heading to the sensor's; `inwards` whether the
/// sensor looks toward the center rather than away from it.
#[derive(Clone, Copy, Debug, PartialEq, Eq, Structural)]
pub struct CircleSegment {
    pub iso: Pose,
    pub radius: Fix,
    pub half_width: Fix,
    pub sensor_offset: Fix,
    pub robot_offset: Fix,
    pub inwards: bool,
}

/// The angle of `p` as seen from the segment's center.
pub open spec fn rotation_of_s(cs: CircleSegment, p: Vec2) -> int {
    norm_s(
        clip(
            atan2_s(
                fsub(p.y.v as int, cs.iso.pos.y.v as int),
                fsub(p.x.v as int, cs.iso.pos.x.v as int),
            ),
        ),
    )
}

/// `p` lies on the segment's circle, within the coordinate tolerance: the
/// magnitude of its center offset along y matches the chord height over its
/// center offset along x.
pub open spec fn point_on_circle_s(cs: CircleSegment, p: Vec2) -> bool {
    let dx = fsub(p.x.v as int, cs.iso.pos.x.v as int);
    let dy = fsub(p.y.v as int, cs.iso.pos.y.v as int);
    let arg = fsub(fmul(cs.radius.v as int, cs.radius.v as int), fmul(dx, dx));
    arg >= 0 && {
        let y_abs = fsqrt(arg);
        coord_in_range_s(dy, y_abs) || coord_in_range_s(dy, -y_abs)
    }
}

/// The angle from the segment's middle to `point_rotation` is strictly
/// within the segment's half width.
pub open spec fn point_within_angle_s(cs: CircleSegment, point_rotation: int) -> bool {
    abs_i(rotation_to_s(point_rotation, cs.iso.angle.v as int)) < cs.half_width.v as int
}

/// The robot heading implied by standing at angle `point_rotation` on the
/// segment: the sensor's rotation there, flipped by a half turn when the
/// sensor looks inwards, taken relative to the robot-to-sensor offset.
pub open spec fn robot_rotation_at_s(cs: CircleSegment, point_rotation: int) -> int {
    let sensor_rotation = rotation_to_s(cs.sensor_offset.v as int, point_rotation);
    let oriented = if cs.inwards {
        norm_s(sensor_rotation + PI as int)
    } else {
        sensor_rotation
    };
    rotation_to_s(cs.robot_offset.v as int, oriented)
}

/// The pose is consistent with the arc: on its circle, within its angular
/// width, and with the heading the arc implies there.
pub open spec fn agrees_with_position_s(cs: CircleSegment, pos_iso: Pose) -> bool {
    point_on_circle_s(cs, pos_iso.pos) && {
        let point_rotation = rotation_of_s(cs, pos_iso.pos);
        point_within_angle_s(cs, point_rotation) && angle_in_range_s(
            robot_rotation_at_s(cs, point_rotation),
            pos_iso.angle.v as int,
        )
    }
}

impl CircleSegment {
    pub open spec fn wf(self) -> bool {
        &&& self.iso.wf()
        &&& self.radius.wf()
        &&& self.radius.v >= 0
        &&& self.half_width.wf()
        &&& self.sensor_offset.wf()
        &&& is_norm(self.sensor_offset.v as int)
        &&& self.robot_offset.wf()
        &&& is_norm(self.robot_offset.v as int)
    }

    /// The circle the segment lies on.
    pub fn get_circle(&self) -> (c: Circle)
        ensures
            c == (Circle { a: self.iso.pos.x, b: self.iso.pos.y, r: self.radius }),
    {
        Circle { a: self.iso.pos.x, b: self.iso.pos.y, r: self.radius }
    }

    /// Rotation of a point relative to the center of the circle.
    pub fn rotation_of(&self, p: Vec2) -> (r: Fix)
        requires
            self.wf(),
            p.wf(),
        ensures
            r.v as int == rotation_of_s(*self, p),
            is_norm(r.v as int),
            r.wf(),
    {
        let a = atan2_fix(p.y.minus(self.iso.pos.y), p.x.minus(self.iso.pos.x));
        norm_angle(a)
    }

    /// The point lies on the segment's circle, within tolerance.
    pub fn point_on_circle(&self, p: Vec2) -> (r: bool)
        requires
            self.wf(),
            p.wf(),
        ensures
            r == point_on_circle_s(*self, p),
    {
        let dx = p.x.minus(self.iso.pos.x);
        let dy = p.y.minus(self.iso.pos.y);
        let arg = self.radius.times(self.radius).minus(dx.times(dx));
        match arg.sqrt() {
            None => false,
            Some(y_abs) => {
                coord_in_range(dy, y_abs) || coord_in_range(dy, y_abs.neg())
            },
        }
    }

    /// The point's rotation is strictly within the segment's half width.
    pub fn point_within_angle(&self, point_rotation: Fix) -> (r: bool)
        requires
            self.wf(),
            point_rotation.wf(),
        ensures
            r == point_within_angle_s(*self, point_rotation.v as int),
    {
        rotation_to(point_rotation, self.iso.angle).abs().v < self.half_width.v
    }

    /// The robot heading implied at the given rotation on the segment.
    pub fn robot_rotation_at(&self, point_rotation: Fix) -> (r: Fix)
        requires
            self.wf(),
            point_rotation.wf(),
        ensures
            r.v as int == robot_rotation_at_s(*self, point_rotation.v as int),
            is_norm(r.v as int),
            r.wf(),
    {
        let sensor_rotation = rotation_to(self.sensor_offset, point_rotation);
        let oriented = if self.inwards {
            norm_angle(sensor_rotation.plus(Fix { v: PI }))
        } else {
            sensor_rotation
        };
        rotation_to(self.robot_offset, oriented)
    }

    /// The pose is consistent with the arc.
    pub fn agrees_with_position(&self, pos_iso: &Pose) -> (r: bool)
        requires
            self.wf(),
            pos_iso.wf(),
        ensures
            r == agrees_with_position_s(*self, *pos_iso),
    {
        self.point_on_circle(pos_iso.pos) && {
            let point_rotation = self.rotation_of(pos_iso.pos);
            self.point_within_angle(point_rotation) && angle_in_range(
                self.robot_rotation_at(point_rotation),
                pos_iso.angle,
            )
        }
    }
}

/// A position hypothesis's shape: a fully resolved pose, or an arc.
#[derive(Clone, Copy, Debug, PartialEq, Eq, Structural)]
pub enum Position {
    Absolute(Pose),
    CircleSegment(CircleSegment),
}

impl Position {
    pub open spec fn wf(self) -> bool {
        match self {
            Position::Absolute(p) => p.wf(),
            Position::CircleSegment(cs) => cs.wf(),
        }
    }

    /// The pose every shape carries: the resolved pose, or the arc's center
    /// pose.
    pub open spec fn pose_s(self) -> Pose {
        match self {
            Position::Absolute(p) => p,
            Position::CircleSegment(cs) => cs.iso,
        }
    }

    /// Read the shared pose field.
    pub fn pose(&self) -> (r: Pose)
        ensures
            r == self.pose_s(),
    {
        match *self {
            Position::Absolute(p) => p,
            Position::CircleSegment(cs) => cs.iso,
        }
    }

    /// The same shape with its shared pose field replaced.
    pub open spec fn with_pose_s(self, p: Pose) -> Position {
        match self {
            Position::Absolute(_) => Position::Absolute(p),
            Position::CircleSegment(cs) => Position::CircleSegment(
                CircleSegment { iso: p, ..cs },
            ),
        }
    }

    /// Replace the shared pose field.
    pub fn with_pose(&self, p: Pose) -> (r: Position)
        ensures
            r == self.with_pose_s(p),
    {
        match *self {
            Position::Absolute(_) => Position::Absolute(p),
            Position::CircleSegment(cs) => Position::CircleSegment(
                CircleSegment { iso: p, ..cs },
            ),
        }
    }
}

/// A weighted position hypothesis: a shape and its evidence.
#[derive(Clone, Copy, Debug, PartialEq, Eq, Structural)]
pub struct PositionHint {
    pub pos: Position,
    pub sample: Sample,
}

/// Two position hypotheses stand for the same pose: both are resolved and
/// their poses agree within tolerance. Arcs never merge.
pub open spec fn position_can_merge_s(a: PositionHint, b: PositionHint) -> bool {
    match a.pos {
        Position::Absolute(p) => match b.pos {
            Position::Absolute(q) => iso_in_range_s(p, q),
            Position::CircleSegment(_) => false,
        },
        Position::CircleSegment(_) => false,
    }
}

impl PositionHint {
    pub fn new(pos: Position, sample: Sample) -> (r: PositionHint)
        ensures
            r == (PositionHint { pos, sample }),
    {
        PositionHint { pos, sample }
    }

    /// The hypothesis of full certainty at a pose.
    pub fn certain(iso: Pose) -> (r: PositionHint)
        ensures
            r.pos == Position::Absolute(iso),
            r.sample == (Sample { weight: Fix { v: ONE }, value: Fix { v: ONE } }),
            iso.wf() ==> r.wf_h(),
    {
        PositionHint { pos: Position::Absolute(iso), sample: Sample::full() }
    }
}

impl Default for PositionHint {
    /// An empty hypothesis: the identity pose with no evidence.
    fn default() -> (r: PositionHint)
        ensures
            r.pos == Position::Absolute(crate::geom::identity_s()),
            r.sample == (Sample { weight: Fix { v: 0 }, value: Fix { v: 0 } }),
            r.wf_h(),
    {
        PositionHint { pos: Position::Absolute(Pose::identity()), sample: Sample::empty() }
    }
}

impl Hypothesis for PositionHint {
    open spec fn wf_h(self) -> bool {
        self.pos.wf() && self.sample.wf()
    }

    open spec fn weight_of(self) -> int {
        self.sample.weight.v as int
    }

    open spec fn can_merge(self, other: Self) -> bool {
        position_can_merge_s(self, other)
    }

    open spec fn merged(self, other: Self) -> Self {
        PositionHint { pos: self.pos, sample: combined_s(self.sample, other.sample) }
    }

    open spec fn beats_s(self, other: Self) -> bool {
        sample_beats_s(self.sample, other.sample)
    }

    proof fn lemma_weight_nonneg(self) {
    }

    proof fn lemma_merged(self, other: Self, t: Self) {
    }

    proof fn lemma_merge_sym(self, other: Self) {
    }

    fn try_merge(&mut self, other: &Self) -> (b: bool) {
        let mergeable = match self.pos {
            Position::Absolute(p) => match other.pos {
                Position::Absolute(q) => iso_in_range(p, q),
                Position::CircleSegment(_) => false,
            },
            Position::CircleSegment(_) => false,
        };
        if mergeable {
            self.sample = self.sample.combined(other.sample);
        }
        mergeable
    }

    fn beats(&self, other: &Self) -> (b: bool) {
        self.sample.beats(&other.sample)
    }
}

} // verus!
