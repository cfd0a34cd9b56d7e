//! The localization engine: one `update` per tick runs the five phases —
//! predict, back-project, re-observe, triangulate and score, rank — over the
//! two hypothesis pools.
use vstd::prelude::*;
use crate::fix::{Fix, ONE};
use crate::geom::{
    Pose, Vec2, Circle, compose_s, compose, identity_s, pos_delta_s, pos_delta, circ_touch,
    circ_den, circ_den2, circ_points, circ_intersect, vector_in_range_s, point_in_range,
    angle_in_range_s, angle_in_range,
};
use crate::sample::{Sample, POS_ERR, SCAN_ERR, combined_s, scaled_s};
use crate::pool::{Pool, Hypothesis, add_seq};
use crate::position::{
    CircleSegment, Position, PositionHint, rotation_of_s, point_within_angle_s,
    robot_rotation_at_s, agrees_with_position_s,
};
use crate::surface::{SurfaceHint, hint_position_s};

verus! {

/// Capacity of the surface hypothesis pool.
pub const SURFACE_CAP: usize = 90;

/// Capacity of the position hypothesis pool.
pub const POSITION_CAP: usize = 30;

/// The fixed traits of the robot's hardware that the engine needs: half the
/// axle width (for the motion model) and the angular half width of a sonar
/// beam (the deviance attached to new surface hypotheses).
#[derive(Clone, Copy, Debug, PartialEq, Eq, Structural)]
pub struct HardwareInfo {
    pub half_width: Fix,
    pub sonar_deviance: Fix,
}

impl HardwareInfo {
    pub open spec fn wf(self) -> bool {
        self.half_width.wf() && self.half_width.v > 0 && self.sonar_deviance.wf()
    }
}

/// One finite range reading: the reported distance and the fixed mount pose
/// of the sensor that took it, relative to the robot frame. Readings with an
/// unbounded range never reach the engine; whoever reads the hardware drops
/// them before building `Scan` values.
#[derive(Clone, Copy, Debug, PartialEq, Eq, Structural)]
pub struct Scan {
    pub distance: Fix,
    pub iso: Pose,
}

impl Scan {
    pub open spec fn wf(self) -> bool {
        self.distance.wf() && self.iso.wf()
    }
}

pub open spec fn scans_wf(ss: Seq<Scan>) -> bool {
    forall|i: int| 0 <= i < ss.len() ==> (#[trigger] ss[i]).wf()
}

/// A pose hypothesis after one motion prediction: the shared pose field is
/// composed with the motion delta, the evidence decays by the per-tick
/// factor. An arc's geometric parameters are untouched.
pub open spec fn predict_h(h: PositionHint, delta: Pose) -> PositionHint {
    PositionHint {
        pos: h.pos.with_pose_s(compose_s(h.pos.pose_s(), delta)),
        sample: scaled_s(h.sample, POS_ERR as int),
    }
}

/// Law: prediction moves only the recorded pose — an arc's geometric
/// parameters (radius, angular half width, frame offsets, orientation flag)
/// are invariant under the motion transform, and the evidence decays by the
/// per-tick factor.
pub proof fn lemma_predict_keeps_arc(h: PositionHint, delta: Pose, cs: CircleSegment)
    requires
        h.pos == Position::CircleSegment(cs),
    ensures
        predict_h(h, delta).pos matches Position::CircleSegment(cs2) && cs2.radius == cs.radius
            && cs2.half_width == cs.half_width && cs2.sensor_offset == cs.sensor_offset
            && cs2.robot_offset == cs.robot_offset && cs2.inwards == cs.inwards && cs2.iso
            == compose_s(cs.iso, delta),
        predict_h(h, delta).sample == scaled_s(h.sample, POS_ERR as int),
{
}

/// The position candidates one surface hypothesis derives from the scans.
pub open spec fn scan_cands(sh: SurfaceHint, scans: Seq<Scan>) -> Seq<PositionHint> {
    scans.map_values(|sc: Scan| hint_position_s(sh, sc.distance.v as int, sc.iso))
}

/// The position candidates of the back-projection phase: every surface
/// hypothesis crossed with every scan, surfaces outermost.
pub open spec fn back_cands(surfs: Seq<SurfaceHint>, scans: Seq<Scan>) -> Seq<PositionHint>
    decreases surfs.len(),
{
    if surfs.len() == 0 {
        Seq::empty()
    } else {
        scan_cands(surfs[0], scans) + back_cands(surfs.drop_first(), scans)
    }
}

pub proof fn lemma_back_cands_snoc(surfs: Seq<SurfaceHint>, scans: Seq<Scan>, x: SurfaceHint)
    ensures
        back_cands(surfs.push(x), scans) == back_cands(surfs, scans) + scan_cands(x, scans),
    decreases surfs.len(),
{
    if surfs.len() == 0 {
        assert(surfs.push(x).drop_first() =~= surfs);
        assert(back_cands(surfs, scans) + scan_cands(x, scans) =~= scan_cands(x, scans));
    } else {
        lemma_back_cands_snoc(surfs.drop_first(), scans, x);
        assert(surfs.push(x).drop_first() =~= surfs.drop_first().push(x));
        assert(back_cands(surfs.push(x), scans) =~= back_cands(surfs, scans) + scan_cands(
            x,
            scans,
        ));
    }
}

/// The surface hypothesis one scan derives from one resolved pose: the
/// reflecting point sits where the sensor's mount pose lands from the robot
/// pose, at the scanned distance, with the sensor's deviance and the pose's
/// evidence decayed by the per-reading factor.
pub open spec fn reobs_hint(sc: Scan, robot_iso: Pose, sample: Sample, dev: Fix) -> SurfaceHint {
    SurfaceHint {
        iso: compose_s(robot_iso, sc.iso),
        distance: sc.distance,
        deviance: dev,
        sample: scaled_s(sample, SCAN_ERR as int),
    }
}

/// The surface candidates one scan derives from the resolved poses of a
/// snapshot; arcs contribute nothing.
pub open spec fn reobs_for_scan(sc: Scan, snap: Seq<PositionHint>, dev: Fix) -> Seq<SurfaceHint>
    decreases snap.len(),
{
    if snap.len() == 0 {
        Seq::empty()
    } else {
        let rest = reobs_for_scan(sc, snap.drop_first(), dev);
        match snap[0].pos {
            Position::Absolute(robot_iso) => seq![reobs_hint(sc, robot_iso, snap[0].sample, dev)]
                + rest,
            Position::CircleSegment(_) => rest,
        }
    }
}

pub proof fn lemma_reobs_for_scan_snoc(sc: Scan, snap: Seq<PositionHint>, dev: Fix, x: PositionHint)
    ensures
        reobs_for_scan(sc, snap.push(x), dev) == reobs_for_scan(sc, snap, dev) + (match x.pos {
            Position::Absolute(robot_iso) => seq![reobs_hint(sc, robot_iso, x.sample, dev)],
            Position::CircleSegment(_) => Seq::<SurfaceHint>::empty(),
        }),
    decreases snap.len(),
{
    let tail = match x.pos {
        Position::Absolute(robot_iso) => seq![reobs_hint(sc, robot_iso, x.sample, dev)],
        Position::CircleSegment(_) => Seq::<SurfaceHint>::empty(),
    };
    if snap.len() == 0 {
        assert(snap.push(x).drop_first() =~= snap);
        assert(reobs_for_scan(sc, snap.push(x), dev) =~= reobs_for_scan(sc, snap, dev) + tail);
    } else {
        lemma_reobs_for_scan_snoc(sc, snap.drop_first(), dev, x);
        assert(snap.push(x).drop_first() =~= snap.drop_first().push(x));
        assert(reobs_for_scan(sc, snap.push(x), dev) =~= reobs_for_scan(sc, snap, dev) + tail);
    }
}

/// The surface candidates of the re-observation phase: every scan crossed
/// with every resolved pose of the snapshot, scans outermost.
pub open spec fn reobs_cands(scans: Seq<Scan>, snap: Seq<PositionHint>, dev: Fix) -> Seq<
    SurfaceHint,
>
    decreases scans.len(),
{
    if scans.len() == 0 {
        Seq::empty()
    } else {
        reobs_for_scan(scans[0], snap, dev) + reobs_cands(scans.drop_first(), snap, dev)
    }
}

pub proof fn lemma_reobs_cands_snoc(scans: Seq<Scan>, snap: Seq<PositionHint>, dev: Fix, sc: Scan)
    ensures
        reobs_cands(scans.push(sc), snap, dev) == reobs_cands(scans, snap, dev) + reobs_for_scan(
            sc,
            snap,
            dev,
        ),
    decreases scans.len(),
{
    if scans.len() == 0 {
        assert(scans.push(sc).drop_first() =~= scans);
        assert(reobs_cands(scans.push(sc), snap, dev) =~= reobs_cands(scans, snap, dev)
            + reobs_for_scan(sc, snap, dev));
    } else {
        lemma_reobs_cands_snoc(scans.drop_first(), snap, dev, sc);
        assert(scans.push(sc).drop_first() =~= scans.drop_first().push(sc));
        assert(reobs_cands(scans.push(sc), snap, dev) =~= reobs_cands(scans, snap, dev)
            + reobs_for_scan(sc, snap, dev));
    }
}

/// The resolved poses of a hypothesis sequence, with their evidence.
pub open spec fn completes_of(s: Seq<PositionHint>) -> Seq<(Pose, Sample)>
    decreases s.len(),
{
    if s.len() == 0 {
        Seq::empty()
    } else {
        let rest = completes_of(s.drop_first());
        match s[0].pos {
            Position::Absolute(p) => seq![(p, s[0].sample)] + rest,
            Position::CircleSegment(_) => rest,
        }
    }
}

/// The arcs of a hypothesis sequence, with their evidence.
pub open spec fn incompletes_of(s: Seq<PositionHint>) -> Seq<(CircleSegment, Sample)>
    decreases s.len(),
{
    if s.len() == 0 {
        Seq::empty()
    } else {
        let rest = incompletes_of(s.drop_first());
        match s[0].pos {
            Position::Absolute(_) => rest,
            Position::CircleSegment(cs) => seq![(cs, s[0].sample)] + rest,
        }
    }
}

pub proof fn lemma_splits_snoc(s: Seq<PositionHint>, x: PositionHint)
    ensures
        completes_of(s.push(x)) == completes_of(s) + (match x.pos {
            Position::Absolute(p) => seq![(p, x.sample)],
            Position::CircleSegment(_) => Seq::<(Pose, Sample)>::empty(),
        }),
        incompletes_of(s.push(x)) == incompletes_of(s) + (match x.pos {
            Position::Absolute(_) => Seq::<(CircleSegment, Sample)>::empty(),
            Position::CircleSegment(cs) => seq![(cs, x.sample)],
        }),
    decreases s.len(),
{
    let ctail = match x.pos {
        Position::Absolute(p) => seq![(p, x.sample)],
        Position::CircleSegment(_) => Seq::<(Pose, Sample)>::empty(),
    };
    let itail = match x.pos {
        Position::Absolute(_) => Seq::<(CircleSegment, Sample)>::empty(),
        Position::CircleSegment(cs) => seq![(cs, x.sample)],
    };
    if s.len() == 0 {
        assert(s.push(x).drop_first() =~= s);
        assert(completes_of(s.push(x)) =~= completes_of(s) + ctail);
        assert(incompletes_of(s.push(x)) =~= incompletes_of(s) + itail);
    } else {
        lemma_splits_snoc(s.drop_first(), x);
        assert(s.push(x).drop_first() =~= s.drop_first().push(x));
        assert(completes_of(s.push(x)) =~= completes_of(s) + ctail);
        assert(incompletes_of(s.push(x)) =~= incompletes_of(s) + itail);
    }
}

/// The circle an arc lies on.
pub open spec fn seg_circle(cs: CircleSegment) -> Circle {
    Circle { a: cs.iso.pos.x, b: cs.iso.pos.y, r: cs.radius }
}

/// Both arcs accept the point: it lies within both angular widths, and the
/// robot headings the two arcs imply there agree within the angle tolerance.
pub open spec fn tri_agree(cs0: CircleSegment, cs1: CircleSegment, p: Vec2) -> bool {
    let g0 = rotation_of_s(cs0, p);
    let g1 = rotation_of_s(cs1, p);
    point_within_angle_s(cs0, g0) && point_within_angle_s(cs1, g1) && angle_in_range_s(
        robot_rotation_at_s(cs0, g0),
        robot_rotation_at_s(cs1, g1),
    )
}

/// The resolved pose synthesized at an accepted intersection point: the
/// point itself, with the heading the first arc implies there.
pub open spec fn tri_pose(cs0: CircleSegment, p: Vec2) -> Pose {
    Pose { pos: p, angle: Fix { v: robot_rotation_at_s(cs0, rotation_of_s(cs0, p)) as i64 } }
}

/// The resolved poses two arcs synthesize: the intersection points of their
/// circles that both arcs accept, the second dropped when it coincides with
/// the first within the coordinate tolerance.
pub open spec fn tri_pair(cs0: CircleSegment, cs1: CircleSegment) -> Seq<Pose> {
    let c0 = seg_circle(cs0);
    let c1 = seg_circle(cs1);
    if circ_touch(c0, c1) && circ_den(c0, c1) != 0 && circ_den2(c0, c1) != 0 {
        let (p1, p2) = circ_points(c0, c1);
        let first = if tri_agree(cs0, cs1, p1) {
            seq![tri_pose(cs0, p1)]
        } else {
            Seq::<Pose>::empty()
        };
        let second = if !vector_in_range_s(p1, p2) && tri_agree(cs0, cs1, p2) {
            seq![tri_pose(cs0, p2)]
        } else {
            Seq::<Pose>::empty()
        };
        first + second
    } else {
        Seq::empty()
    }
}

/// Law: when two arcs' circles intersect in two distinct points and the
/// arcs' consistency holds at exactly one of them, triangulation synthesizes
/// exactly one resolved pose, at the accepted point.
pub proof fn lemma_triangulation_unique(cs0: CircleSegment, cs1: CircleSegment)
    requires
        circ_touch(seg_circle(cs0), seg_circle(cs1)),
        circ_den(seg_circle(cs0), seg_circle(cs1)) != 0,
        circ_den2(seg_circle(cs0), seg_circle(cs1)) != 0,
        !vector_in_range_s(
            circ_points(seg_circle(cs0), seg_circle(cs1)).0,
            circ_points(seg_circle(cs0), seg_circle(cs1)).1,
        ),
        tri_agree(cs0, cs1, circ_points(seg_circle(cs0), seg_circle(cs1)).0) != tri_agree(
            cs0,
            cs1,
            circ_points(seg_circle(cs0), seg_circle(cs1)).1,
        ),
    ensures
        tri_pair(cs0, cs1).len() == 1,
        tri_agree(cs0, cs1, circ_points(seg_circle(cs0), seg_circle(cs1)).0) ==> tri_pair(cs0, cs1)
            =~= seq![tri_pose(cs0, circ_points(seg_circle(cs0), seg_circle(cs1)).0)],
        tri_agree(cs0, cs1, circ_points(seg_circle(cs0), seg_circle(cs1)).1) ==> tri_pair(cs0, cs1)
            =~= seq![tri_pose(cs0, circ_points(seg_circle(cs0), seg_circle(cs1)).1)],
{
}

/// Law: when the two intersection points coincide within the coordinate
/// tolerance (a tangent contact), triangulation synthesizes at most one
/// resolved pose, never two.
pub proof fn lemma_triangulation_dedup(cs0: CircleSegment, cs1: CircleSegment)
    requires
        vector_in_range_s(
            circ_points(seg_circle(cs0), seg_circle(cs1)).0,
            circ_points(seg_circle(cs0), seg_circle(cs1)).1,
        ),
    ensures
        tri_pair(cs0, cs1).len() <= 1,
{
}

/// Law: every pose triangulation synthesizes is consistent with both arcs —
/// its position is accepted by both (within their angular widths, with
/// agreeing implied headings), and its heading is the one the first arc
/// implies there.
pub proof fn lemma_tri_pair_consistent(cs0: CircleSegment, cs1: CircleSegment, k: int)
    requires
        0 <= k < tri_pair(cs0, cs1).len(),
    ensures
        tri_agree(cs0, cs1, tri_pair(cs0, cs1)[k].pos),
        tri_pair(cs0, cs1)[k].angle.v as int == robot_rotation_at_s(
            cs0,
            rotation_of_s(cs0, tri_pair(cs0, cs1)[k].pos),
        ),
{
}

/// Rows of unordered arc pairs handled so far: all pairs of the first `a`
/// arcs with any later arc, plus the pairs of arc `a` with arcs below `j`.
pub open spec fn tri_row_upto(incs: Seq<CircleSegment>, a: int, j: int) -> Seq<Pose>
    decreases j - a,
{
    if j <= a + 1 {
        Seq::empty()
    } else {
        tri_row_upto(incs, a, j - 1) + tri_pair(incs[a], incs[j - 1])
    }
}

pub open spec fn tri_rows_upto(incs: Seq<CircleSegment>, i: int) -> Seq<Pose>
    decreases i,
{
    if i <= 0 {
        Seq::empty()
    } else {
        tri_rows_upto(incs, i - 1) + tri_row_upto(incs, i - 1, incs.len() as int)
    }
}

/// All resolved poses triangulation synthesizes from a set of arcs: every
/// unordered pair, in scan order.
pub open spec fn tri_all(incs: Seq<CircleSegment>) -> Seq<Pose> {
    tri_rows_upto(incs, incs.len() as int)
}

/// The evidence a resolved pose accumulates from the first `j` arcs: every
/// arc that agrees with the pose adds its evidence.
pub open spec fn accum_sample(
    pose: Pose,
    s0: Sample,
    incs: Seq<(CircleSegment, Sample)>,
    j: int,
) -> Sample
    decreases j,
{
    if j <= 0 {
        s0
    } else {
        let prev = accum_sample(pose, s0, incs, j - 1);
        if agrees_with_position_s(incs[j - 1].0, pose) {
            combined_s(prev, incs[j - 1].1)
        } else {
            prev
        }
    }
}

/// Every resolved pose with its accumulated evidence.
pub open spec fn accum_all(
    comps: Seq<(Pose, Sample)>,
    incs: Seq<(CircleSegment, Sample)>,
) -> Seq<(Pose, Sample)> {
    comps.map_values(
        |c: (Pose, Sample)| (c.0, accum_sample(c.0, c.1, incs, incs.len() as int)),
    )
}

/// The ranking order: `a` ranks at least as high as `b` when `b` carries no
/// evidence, or both carry evidence and `a`'s average confidence is at least
/// `b`'s (compared as cross products).
pub open spec fn ge_conf(a: Sample, b: Sample) -> bool {
    b.weight.v == 0 || (a.weight.v > 0 && b.weight.v > 0 && a.value.v * b.weight.v >= b.value.v
        * a.weight.v)
}

/// Ranked: every entry ranks at least as high as all later ones.
pub open spec fn ranked_desc(s: Seq<(Pose, Sample)>) -> bool {
    forall|i: int, j: int| 0 <= i < j < s.len() ==> ge_conf(#[trigger] s[i].1, #[trigger] s[j].1)
}

/// Law: the eviction contest and the ranking agree — a sample that beats
/// another also ranks at least as high.
pub proof fn lemma_beats_implies_ge_conf(a: Sample, b: Sample)
    requires
        crate::sample::sample_beats_s(a, b),
    ensures
        ge_conf(a, b),
{
}

proof fn lemma_ge_conf_total(a: Sample, b: Sample)
    requires
        a.wf(),
        b.wf(),
    ensures
        ge_conf(a, b) || ge_conf(b, a),
{
}

proof fn lemma_ge_conf_trans(a: Sample, b: Sample, c: Sample)
    requires
        a.wf(),
        b.wf(),
        c.wf(),
        ge_conf(a, b),
        ge_conf(b, c),
    ensures
        ge_conf(a, c),
{
    if c.weight.v != 0 {
        assert(b.weight.v > 0 && c.weight.v > 0 && b.value.v * c.weight.v >= c.value.v
            * b.weight.v);
        assert(a.weight.v > 0 && b.weight.v > 0 && a.value.v * b.weight.v >= b.value.v
            * a.weight.v);
        assert(a.value.v * c.weight.v >= c.value.v * a.weight.v) by (nonlinear_arith)
            requires
                a.weight.v > 0,
                b.weight.v > 0,
                c.weight.v > 0,
                a.value.v * b.weight.v >= b.value.v * a.weight.v,
                b.value.v * c.weight.v >= c.value.v * b.weight.v,
        ;
    }
}

fn ge_conf_exec(a: &Sample, b: &Sample) -> (r: bool)
    requires
        a.wf(),
        b.wf(),
    ensures
        r == ge_conf(*a, *b),
{
    proof {
        crate::sample::lemma_cross_bound(a.value.v as int, b.weight.v as int);
        crate::sample::lemma_cross_bound(b.value.v as int, a.weight.v as int);
    }
    b.weight.v == 0 || (a.weight.v > 0 && b.weight.v > 0 && (a.value.v as i128) * (b.weight.v
        as i128) >= (b.value.v as i128) * (a.weight.v as i128))
}

pub open spec fn pairs_wf(s: Seq<(Pose, Sample)>) -> bool {
    forall|i: int| 0 <= i < s.len() ==> (#[trigger] s[i]).0.wf() && s[i].1.wf()
}

/// Sort resolved poses by descending average confidence (selection of the
/// highest-ranked remaining entry); the result holds the same entries.
pub fn rank_completes(v: Vec<(Pose, Sample)>) -> (r: Vec<(Pose, Sample)>)
    requires
        pairs_wf(v@),
    ensures
        r@.to_multiset() == v@.to_multiset(),
        ranked_desc(r@),
        pairs_wf(r@),
{
    broadcast use vstd::seq_lib::group_to_multiset_ensures;
    broadcast use vstd::multiset::group_multiset_axioms;

    let mut remaining = v;
    let mut out: Vec<(Pose, Sample)> = Vec::new();
    proof {
        assert forall|x: (Pose, Sample)| out@.to_multiset().count(x) == 0 by {
            vstd::seq_lib::to_multiset_contains(out@, x);
            assert(!out@.contains(x));
        }
        assert(out@.to_multiset().add(remaining@.to_multiset()) =~= v@.to_multiset());
    }
    while remaining.len() > 0
        invariant
            pairs_wf(remaining@),
            pairs_wf(out@),
            out@.to_multiset().add(remaining@.to_multiset()) == v@.to_multiset(),
            ranked_desc(out@),
            forall|a: int, b: int|
                0 <= a < out@.len() && 0 <= b < remaining@.len() ==> ge_conf(
                    #[trigger] out@[a].1,
                    #[trigger] remaining@[b].1,
                ),
        decreases remaining.len(),
    {
        let n = remaining.len();
        let mut w: usize = 0;
        let mut k: usize = 1;
        while k < n
            invariant
                n == remaining@.len(),
                pairs_wf(remaining@),
                1 <= k <= n,
                0 <= w < k,
                forall|q: int| 0 <= q < k ==> ge_conf(remaining@[w as int].1, (#[trigger] remaining@[q]).1),
            decreases n - k,
        {
            let rw = remaining[w];
            let rk = remaining[k];
            if !ge_conf_exec(&rw.1, &rk.1) {
                proof {
                    lemma_ge_conf_total(remaining@[w as int].1, remaining@[k as int].1);
                    assert forall|q: int| 0 <= q < k implies ge_conf(
                        remaining@[k as int].1,
                        (#[trigger] remaining@[q]).1,
                    ) by {
                        lemma_ge_conf_trans(
                            remaining@[k as int].1,
                            remaining@[w as int].1,
                            remaining@[q].1,
                        );
                    }
                }
                w = k;
            }
            k = k + 1;
        }
        let ghost rem0 = remaining@;
        let ghost out0 = out@;
        // selection step: remove the highest-ranked entry and append it
        let x = remaining.remove(w);
        out.push(x);
        proof {
            assert(rem0.contains(x)) by {
                assert(rem0[w as int] == x);
            }
            vstd::seq_lib::to_multiset_contains(rem0, x);
            vstd::seq_lib::to_multiset_build(out0, x);
            vstd::seq_lib::to_multiset_remove(rem0, w as int);
            assert(rem0.to_multiset().count(x) > 0);
            assert(out@ == out0.push(x));
            assert(remaining@ == rem0.remove(w as int));
            assert(out@.to_multiset().add(remaining@.to_multiset()) =~= v@.to_multiset());
            assert forall|b: int| 0 <= b < remaining@.len() implies ge_conf(
                x.1,
                (#[trigger] remaining@[b]).1,
            ) by {
                if b < w as int {
                    assert(remaining@[b] == rem0[b]);
                } else {
                    assert(remaining@[b] == rem0[b + 1]);
                }
            }
        }
    }
    out
}

/// The localization engine: the elapsed time per tick, the last wheel speed
/// command, and the two hypothesis pools.
pub struct EnvModule {
    pub step_rate: Fix,
    pub speeds: (Fix, Fix),
    pub surfaces: Pool<SurfaceHint>,
    pub pos: Pool<PositionHint>,
}

/// What one tick reports: the wheel speed command and the resolved pose
/// candidates, ranked by descending average confidence (diagnostic output).
pub struct TickResult {
    pub left_speed: Fix,
    pub right_speed: Fix,
    pub ranked: Vec<(Pose, Sample)>,
}

impl EnvModule {
    pub open spec fn wf(self) -> bool {
        &&& self.step_rate.wf()
        &&& self.speeds.0.wf()
        &&& self.speeds.1.wf()
        &&& self.surfaces.wf()
        &&& self.pos.wf()
    }

    /// A fresh engine: empty surface pool, and a position pool seeded with
    /// full certainty at the origin, heading zero.
    pub fn new(step_rate: Fix) -> (r: EnvModule)
        requires
            step_rate.wf(),
        ensures
            r.wf(),
            r.step_rate == step_rate,
            r.speeds == (Fix { v: ONE }, Fix { v: ONE }),
            r.surfaces.items@.len() == 0,
            r.surfaces.cap == SURFACE_CAP,
            r.pos.cap == POSITION_CAP,
            r.pos.items@ =~= seq![
                PositionHint {
                    pos: Position::Absolute(identity_s()),
                    sample: Sample { weight: Fix { v: ONE }, value: Fix { v: ONE } },
                },
            ],
    {
        EnvModule {
            step_rate,
            speeds: (Fix { v: ONE }, Fix { v: ONE }),
            surfaces: Pool::new(SURFACE_CAP),
            pos: Pool::new_one(POSITION_CAP, PositionHint::certain(Pose::identity())),
        }
    }

    /// Phase 1: advance every position hypothesis by the motion delta and
    /// decay its evidence by the per-tick factor.
    fn predict_all(&mut self, delta: Pose)
        requires
            old(self).wf(),
            delta.wf(),
        ensures
            final(self).wf(),
            final(self).step_rate == old(self).step_rate,
            final(self).speeds == old(self).speeds,
            final(self).surfaces == old(self).surfaces,
            final(self).pos.cap == old(self).pos.cap,
            final(self).pos.items@ == old(self).pos.items@.map_values(
                |h: PositionHint| predict_h(h, delta),
            ),
    {
        let n = self.pos.items.len();
        let mut i: usize = 0;
        while i < n
            invariant
                n == self.pos.items@.len(),
                n == old(self).pos.items@.len(),
                self.step_rate == old(self).step_rate,
                self.speeds == old(self).speeds,
                self.surfaces == old(self).surfaces,
                self.pos.cap == old(self).pos.cap,
                old(self).wf(),
                self.pos.wf(),
                delta.wf(),
                0 <= i <= n,
                forall|k: int|
                    0 <= k < i ==> self.pos.items@[k] == predict_h(
                        #[trigger] old(self).pos.items@[k],
                        delta,
                    ),
                forall|k: int| i <= k < n ==> self.pos.items@[k] == old(self).pos.items@[k],
            decreases n - i,
        {
            let h = self.pos.items[i];
            let newpose = compose(h.pos.pose(), delta);
            let newh = PositionHint {
                pos: h.pos.with_pose(newpose),
                sample: h.sample.scaled(Fix { v: POS_ERR }),
            };
            self.pos.items[i] = newh;
            i = i + 1;
        }
        proof {
            assert(self.pos.items@ =~= old(self).pos.items@.map_values(
                |h: PositionHint| predict_h(h, delta),
            ));
        }
    }

    /// One tick: predict from the last command, back-project every surface
    /// hypothesis through every reading, re-observe surfaces from the
    /// resolved poses of the predicted snapshot, triangulate arc pairs,
    /// accumulate confidence, and rank the resolved candidates.
    pub fn update(&mut self, hw: &HardwareInfo, scans: &Vec<Scan>) -> (r: TickResult)
        requires
            old(self).wf(),
            hw.wf(),
            scans_wf(scans@),
        ensures
            final(self).wf(),
            final(self).step_rate == old(self).step_rate,
            final(self).speeds == old(self).speeds,
            final(self).pos.cap == old(self).pos.cap,
            final(self).surfaces.cap == old(self).surfaces.cap,
            r.left_speed == old(self).speeds.0,
            r.right_speed == old(self).speeds.1,
            ({
                let delta = pos_delta_s(
                    hw.half_width.v as int,
                    old(self).step_rate.v as int,
                    old(self).speeds.0.v as int,
                    old(self).speeds.1.v as int,
                );
                let predicted = old(self).pos.items@.map_values(
                    |h: PositionHint| predict_h(h, delta),
                );
                &&& final(self).pos.items@ == add_seq(
                    predicted,
                    old(self).pos.cap as int,
                    back_cands(old(self).surfaces.items@, scans@),
                )
                &&& final(self).surfaces.items@ == add_seq(
                    old(self).surfaces.items@,
                    old(self).surfaces.cap as int,
                    reobs_cands(scans@, predicted, hw.sonar_deviance),
                )
            }),
            ({
                let comps = completes_of(final(self).pos.items@);
                let incs = incompletes_of(final(self).pos.items@);
                let tri = tri_all(incs.map_values(|t: (CircleSegment, Sample)| t.0));
                let seeded = comps + tri.map_values(
                    |p: Pose| (p, Sample { weight: Fix { v: 0 }, value: Fix { v: 0 } }),
                );
                r.ranked@.to_multiset() == accum_all(seeded, incs).to_multiset()
            }),
            ranked_desc(r.ranked@),
    {
        let delta = pos_delta(hw.half_width, self.step_rate, self.speeds.0, self.speeds.1);
        self.predict_all(delta);
        let snapshot = self.pos.entries();
        let surf_entries = self.surfaces.entries();
        let back = build_back_cands(&surf_entries, scans);
        self.pos.add_all(&back);
        let reobs = build_reobs_cands(scans, &snapshot, hw.sonar_deviance);
        self.surfaces.add_all(&reobs);
        let entries = self.pos.entries();
        let (mut completes, incompletes) = split_hints(&entries);
        let tri = triangulate_all(&incompletes);
        let ghost comps0 = completes@;
        let tn = tri.len();
        let mut k: usize = 0;
        while k < tn
            invariant
                tn == tri@.len(),
                0 <= k <= tn,
                pairs_wf(completes@),
                forall|i: int| 0 <= i < tn ==> (#[trigger] tri@[i]).wf(),
                completes@ == comps0 + tri@.take(k as int).map_values(
                    |p: Pose| (p, Sample { weight: Fix { v: 0 }, value: Fix { v: 0 } }),
                ),
            decreases tn - k,
        {
            completes.push((tri[k], Sample::empty()));
            proof {
                assert(completes@ =~= comps0 + tri@.take(k as int + 1).map_values(
                    |p: Pose| (p, Sample { weight: Fix { v: 0 }, value: Fix { v: 0 } }),
                ));
            }
            k = k + 1;
        }
        proof {
            assert(tri@.take(tn as int) =~= tri@);
        }
        accumulate(&mut completes, &incompletes);
        let ranked = rank_completes(completes);
        TickResult { left_speed: self.speeds.0, right_speed: self.speeds.1, ranked }
    }
}

/// Phase 2 candidates: every surface hypothesis crossed with every scan.
fn build_back_cands(surfs: &Vec<SurfaceHint>, scans: &Vec<Scan>) -> (r: Vec<PositionHint>)
    requires
        forall|i: int| 0 <= i < surfs@.len() ==> (#[trigger] surfs@[i]).wf(),
        scans_wf(scans@),
    ensures
        r@ == back_cands(surfs@, scans@),
        forall|i: int| 0 <= i < r@.len() ==> (#[trigger] r@[i]).wf_h(),
{
    let mut out: Vec<PositionHint> = Vec::new();
    let sn = surfs.len();
    let mut si: usize = 0;
    proof {
        assert(back_cands(surfs@.take(0), scans@) =~= Seq::<PositionHint>::empty());
    }
    while si < sn
        invariant
            sn == surfs@.len(),
            0 <= si <= sn,
            forall|i: int| 0 <= i < sn ==> (#[trigger] surfs@[i]).wf(),
            scans_wf(scans@),
            out@ == back_cands(surfs@.take(si as int), scans@),
            forall|i: int| 0 <= i < out@.len() ==> (#[trigger] out@[i]).wf_h(),
        decreases sn - si,
    {
        let sh = surfs[si];
        let ghost out0 = out@;
        let kn = scans.len();
        let mut kj: usize = 0;
        while kj < kn
            invariant
                kn == scans@.len(),
                0 <= kj <= kn,
                sh.wf(),
                sh == surfs@[si as int],
                scans_wf(scans@),
                out@ == out0 + scan_cands(sh, scans@.take(kj as int)),
                forall|i: int| 0 <= i < out@.len() ==> (#[trigger] out@[i]).wf_h(),
            decreases kn - kj,
        {
            let sc = scans[kj];
            out.push(sh.hint_position(sc.distance, &sc.iso));
            proof {
                assert(scans@.take(kj as int).push(sc) =~= scans@.take(kj as int + 1));
                assert(scan_cands(sh, scans@.take(kj as int)).push(
                    hint_position_s(sh, sc.distance.v as int, sc.iso),
                ) =~= scan_cands(sh, scans@.take(kj as int + 1)));
                assert(out@ =~= out0 + scan_cands(sh, scans@.take(kj as int + 1)));
            }
            kj = kj + 1;
        }
        proof {
            assert(scans@.take(kn as int) =~= scans@);
            lemma_back_cands_snoc(surfs@.take(si as int), scans@, sh);
            assert(surfs@.take(si as int).push(sh) =~= surfs@.take(si as int + 1));
        }
        si = si + 1;
    }
    proof {
        assert(surfs@.take(sn as int) =~= surfs@);
    }
    out
}

/// Phase 3 candidates: every scan crossed with every resolved pose of the
/// snapshot.
fn build_reobs_cands(scans: &Vec<Scan>, snap: &Vec<PositionHint>, dev: Fix) -> (r: Vec<SurfaceHint>)
    requires
        scans_wf(scans@),
        forall|i: int| 0 <= i < snap@.len() ==> (#[trigger] snap@[i]).wf_h(),
        dev.wf(),
    ensures
        r@ == reobs_cands(scans@, snap@, dev),
        forall|i: int| 0 <= i < r@.len() ==> (#[trigger] r@[i]).wf_h(),
{
    let mut out: Vec<SurfaceHint> = Vec::new();
    let sn = scans.len();
    let mut si: usize = 0;
    proof {
        assert(reobs_cands(scans@.take(0), snap@, dev) =~= Seq::<SurfaceHint>::empty());
    }
    while si < sn
        invariant
            sn == scans@.len(),
            0 <= si <= sn,
            scans_wf(scans@),
            forall|i: int| 0 <= i < snap@.len() ==> (#[trigger] snap@[i]).wf_h(),
            dev.wf(),
            out@ == reobs_cands(scans@.take(si as int), snap@, dev),
            forall|i: int| 0 <= i < out@.len() ==> (#[trigger] out@[i]).wf_h(),
        decreases sn - si,
    {
        let sc = scans[si];
        let ghost out0 = out@;
        let pn = snap.len();
        let mut pj: usize = 0;
        proof {
            assert(reobs_for_scan(sc, snap@.take(0), dev) =~= Seq::<SurfaceHint>::empty());
        }
        while pj < pn
            invariant
                pn == snap@.len(),
                0 <= pj <= pn,
                sc.wf(),
                sc == scans@[si as int],
                dev.wf(),
                forall|i: int| 0 <= i < snap@.len() ==> (#[trigger] snap@[i]).wf_h(),
                out@ == out0 + reobs_for_scan(sc, snap@.take(pj as int), dev),
                forall|i: int| 0 <= i < out@.len() ==> (#[trigger] out@[i]).wf_h(),
            decreases pn - pj,
        {
            let ph = snap[pj];
            match ph.pos {
                Position::Absolute(robot_iso) => {
                    let h = SurfaceHint {
                        iso: compose(robot_iso, sc.iso),
                        distance: sc.distance,
                        deviance: dev,
                        sample: ph.sample.scaled(Fix { v: SCAN_ERR }),
                    };
                    out.push(h);
                },
                Position::CircleSegment(_) => {},
            }
            proof {
                lemma_reobs_for_scan_snoc(sc, snap@.take(pj as int), dev, ph);
                assert(snap@.take(pj as int).push(ph) =~= snap@.take(pj as int + 1));
                assert(out@ =~= out0 + reobs_for_scan(sc, snap@.take(pj as int + 1), dev));
            }
            pj = pj + 1;
        }
        proof {
            assert(snap@.take(pn as int) =~= snap@);
            lemma_reobs_cands_snoc(scans@.take(si as int), snap@, dev, sc);
            assert(scans@.take(si as int).push(sc) =~= scans@.take(si as int + 1));
        }
        si = si + 1;
    }
    proof {
        assert(scans@.take(sn as int) =~= scans@);
    }
    out
}

pub open spec fn incs_wf(s: Seq<(CircleSegment, Sample)>) -> bool {
    forall|i: int| 0 <= i < s.len() ==> (#[trigger] s[i]).0.wf() && s[i].1.wf()
}

/// Split the pool's entries into the resolved poses and the arcs.
fn split_hints(entries: &Vec<PositionHint>) -> (r: (Vec<(Pose, Sample)>, Vec<(CircleSegment, Sample)>))
    requires
        forall|i: int| 0 <= i < entries@.len() ==> (#[trigger] entries@[i]).wf_h(),
    ensures
        r.0@ == completes_of(entries@),
        r.1@ == incompletes_of(entries@),
        pairs_wf(r.0@),
        incs_wf(r.1@),
{
    let mut comps: Vec<(Pose, Sample)> = Vec::new();
    let mut incs: Vec<(CircleSegment, Sample)> = Vec::new();
    let n = entries.len();
    let mut i: usize = 0;
    proof {
        assert(completes_of(entries@.take(0)) =~= Seq::<(Pose, Sample)>::empty());
        assert(incompletes_of(entries@.take(0)) =~= Seq::<(CircleSegment, Sample)>::empty());
    }
    while i < n
        invariant
            n == entries@.len(),
            0 <= i <= n,
            forall|k: int| 0 <= k < n ==> (#[trigger] entries@[k]).wf_h(),
            comps@ == completes_of(entries@.take(i as int)),
            incs@ == incompletes_of(entries@.take(i as int)),
            pairs_wf(comps@),
            incs_wf(incs@),
        decreases n - i,
    {
        let h = entries[i];
        match h.pos {
            Position::Absolute(p) => {
                comps.push((p, h.sample));
            },
            Position::CircleSegment(cs) => {
                incs.push((cs, h.sample));
            },
        }
        proof {
            lemma_splits_snoc(entries@.take(i as int), h);
            assert(entries@.take(i as int).push(h) =~= entries@.take(i as int + 1));
            assert(comps@ =~= completes_of(entries@.take(i as int + 1)));
            assert(incs@ =~= incompletes_of(entries@.take(i as int + 1)));
        }
        i = i + 1;
    }
    proof {
        assert(entries@.take(n as int) =~= entries@);
    }
    (comps, incs)
}

/// The resolved poses two arcs synthesize: intersect their circles and keep
/// the points both arcs accept, dropping the second when it coincides with
/// the first.
fn triangulate_pair(cs0: &CircleSegment, cs1: &CircleSegment) -> (r: Vec<Pose>)
    requires
        cs0.wf(),
        cs1.wf(),
    ensures
        r@ == tri_pair(*cs0, *cs1),
        forall|i: int| 0 <= i < r@.len() ==> (#[trigger] r@[i]).wf(),
{
    let c0 = cs0.get_circle();
    let c1 = cs1.get_circle();
    proof {
        assert(c0 == seg_circle(*cs0));
        assert(c1 == seg_circle(*cs1));
    }
    let mut out: Vec<Pose> = Vec::new();
    match circ_intersect(c0, c1) {
        None => {
            proof {
                assert(out@ =~= tri_pair(*cs0, *cs1));
            }
        },
        Some((p1, p2)) => {
            let g0 = cs0.rotation_of(p1);
            let g1 = cs1.rotation_of(p1);
            if cs0.point_within_angle(g0) && cs1.point_within_angle(g1) {
                let r0 = cs0.robot_rotation_at(g0);
                let r1 = cs1.robot_rotation_at(g1);
                if angle_in_range(r0, r1) {
                    out.push(Pose { pos: p1, angle: r0 });
                }
            }
            let ghost first = out@;
            if !point_in_range(p1, p2) {
                let h0 = cs0.rotation_of(p2);
                let h1 = cs1.rotation_of(p2);
                if cs0.point_within_angle(h0) && cs1.point_within_angle(h1) {
                    let q0 = cs0.robot_rotation_at(h0);
                    let q1 = cs1.robot_rotation_at(h1);
                    if angle_in_range(q0, q1) {
                        out.push(Pose { pos: p2, angle: q0 });
                    }
                }
            }
            proof {
                assert(out@ =~= tri_pair(*cs0, *cs1));
            }
        },
    }
    out
}

/// All resolved poses the arcs synthesize: every unordered pair, in order.
#[verifier::rlimit(60)]
fn triangulate_all(incs: &Vec<(CircleSegment, Sample)>) -> (r: Vec<Pose>)
    requires
        incs_wf(incs@),
    ensures
        r@ == tri_all(incs@.map_values(|t: (CircleSegment, Sample)| t.0)),
        forall|i: int| 0 <= i < r@.len() ==> (#[trigger] r@[i]).wf(),
{
    let ghost cseq = incs@.map_values(|t: (CircleSegment, Sample)| t.0);
    let mut out: Vec<Pose> = Vec::new();
    let n = incs.len();
    let mut i: usize = 0;
    while i < n
        invariant
            n == incs@.len(),
            n == cseq.len(),
            cseq == incs@.map_values(|t: (CircleSegment, Sample)| t.0),
            0 <= i <= n,
            incs_wf(incs@),
            out@ == tri_rows_upto(cseq, i as int),
            forall|k: int| 0 <= k < out@.len() ==> (#[trigger] out@[k]).wf(),
        decreases n - i,
    {
        let ghost row0 = out@;
        let mut j: usize = i + 1;
        while j < n
            invariant
                n == incs@.len(),
                n == cseq.len(),
                cseq == incs@.map_values(|t: (CircleSegment, Sample)| t.0),
                0 <= i < n,
                i + 1 <= j <= n,
                incs_wf(incs@),
                out@ == row0 + tri_row_upto(cseq, i as int, j as int),
                row0 == tri_rows_upto(cseq, i as int),
                forall|k: int| 0 <= k < out@.len() ==> (#[trigger] out@[k]).wf(),
            decreases n - j,
        {
            let a = incs[i].0;
            let b = incs[j].0;
            let mut pairs = triangulate_pair(&a, &b);
            out.append(&mut pairs);
            proof {
                assert(out@ =~= row0 + tri_row_upto(cseq, i as int, j as int + 1));
            }
            j = j + 1;
        }
        i = i + 1;
    }
    proof {
        assert(out@ == tri_rows_upto(cseq, n as int));
    }
    out
}

/// Phase 4 scoring: every resolved pose absorbs the evidence of every arc
/// that agrees with it.
fn accumulate(completes: &mut Vec<(Pose, Sample)>, incs: &Vec<(CircleSegment, Sample)>)
    requires
        pairs_wf(old(completes)@),
        incs_wf(incs@),
    ensures
        final(completes)@ == accum_all(old(completes)@, incs@),
        pairs_wf(final(completes)@),
{
    let n = completes.len();
    let m = incs.len();
    let mut i: usize = 0;
    while i < n
        invariant
            n == completes@.len(),
            n == old(completes)@.len(),
            m == incs@.len(),
            0 <= i <= n,
            pairs_wf(old(completes)@),
            pairs_wf(completes@),
            incs_wf(incs@),
            forall|k: int|
                0 <= k < i ==> completes@[k] == ((#[trigger] old(completes)@[k]).0, accum_sample(
                    old(completes)@[k].0,
                    old(completes)@[k].1,
                    incs@,
                    m as int,
                )),
            forall|k: int| i <= k < n ==> completes@[k] == old(completes)@[k],
        decreases n - i,
    {
        let mut cur = completes[i];
        let mut j: usize = 0;
        while j < m
            invariant
                m == incs@.len(),
                0 <= j <= m,
                incs_wf(incs@),
                cur.0 == old(completes)@[i as int].0,
                cur.0.wf(),
                cur.1.wf(),
                0 <= i < n,
                n == old(completes)@.len(),
                pairs_wf(old(completes)@),
                cur.1 == accum_sample(cur.0, old(completes)@[i as int].1, incs@, j as int),
            decreases m - j,
        {
            let arc = incs[j].0;
            if arc.agrees_with_position(&cur.0) {
                cur.1 = cur.1.combined(incs[j].1);
            }
            j = j + 1;
        }
        completes[i] = cur;
        i = i + 1;
    }
    proof {
        assert(completes@ =~= accum_all(old(completes)@, incs@));
    }
}


} // verus!
