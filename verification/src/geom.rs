//! The geometry kernel: 2D vectors, poses (position + heading), tolerance
//! based comparison, circle-circle intersection and the differential-drive
//! motion model.
//!
//! Every executable function has an exact contract: its result is stated over
//! the saturating fixed-point operations of `fix` and the named trigonometric
//! values of `trig`.
use vstd::prelude::*;
use crate::fix::{Fix, ONE, fadd, fsub, fmul, fdiv, fsqrt, abs_i, lemma_fmul_nonneg, lemma_fmul_self_nonneg};
use crate::trig::{sin1, cos1, norm_s, is_norm, sin_fix, cos_fix, norm_angle, TWO_PI};

verus! {

/// Raw tolerance for coordinate comparison (the scalar 1/32).
pub const CRD_PRECISION: i64 = 524288;

/// Raw tolerance for angle comparison (the scalar 1/64).
pub const ANGL_PRECISION: i64 = 262144;

/// Raw tolerance used to validate a computed intersection point against the
/// first circle's equation (about 1e-5).
pub const TEST_TOL: i64 = 168;

/// A 2D vector of scalars.
#[derive(Clone, Copy, Debug, PartialEq, Eq, Structural)]
pub struct Vec2 {
    pub x: Fix,
    pub y: Fix,
}

impl Vec2 {
    pub open spec fn wf(self) -> bool {
        self.x.wf() && self.y.wf()
    }

    pub fn new(x: Fix, y: Fix) -> (r: Vec2)
        ensures
            r == (Vec2 { x, y }),
    {
        Vec2 { x, y }
    }
}

/// A pose: a 2D position and a heading angle in normal form.
#[derive(Clone, Copy, Debug, PartialEq, Eq, Structural)]
pub struct Pose {
    pub pos: Vec2,
    pub angle: Fix,
}

/// The identity pose: at the origin, heading zero.
pub open spec fn identity_s() -> Pose {
    Pose { pos: Vec2 { x: Fix { v: 0 }, y: Fix { v: 0 } }, angle: Fix { v: 0 } }
}

impl Pose {
    pub open spec fn wf(self) -> bool {
        self.pos.wf() && self.angle.wf() && is_norm(self.angle.v as int)
    }

    /// Build a pose, reducing the angle to its normal form.
    pub fn new(pos: Vec2, angle: Fix) -> (r: Pose)
        requires
            angle.wf(),
        ensures
            r.pos == pos,
            r.angle.v as int == norm_s(angle.v as int),
            pos.wf() ==> r.wf(),
    {
        Pose { pos, angle: norm_angle(angle) }
    }

    /// The identity pose: at the origin, heading zero.
    pub fn identity() -> (r: Pose)
        ensures
            r == identity_s(),
            r.wf(),
    {
        Pose { pos: Vec2 { x: Fix { v: 0 }, y: Fix { v: 0 } }, angle: Fix { v: 0 } }
    }
}

/// `b` lies strictly within `range` of `a`.
pub open spec fn in_range_s(a: int, b: int, range: int) -> bool {
    a - range < b && a + range > b
}

/// `b` lies strictly within `range` of `a`.
pub fn in_range(a: Fix, b: Fix, range: Fix) -> (r: bool)
    ensures
        r == in_range_s(a.v as int, b.v as int, range.v as int),
{
    let lo: i128 = a.v as i128 - range.v as i128;
    let hi: i128 = a.v as i128 + range.v as i128;
    lo < b.v as i128 && hi > b.v as i128
}

/// Coordinates agree within the coordinate tolerance.
pub open spec fn coord_in_range_s(a: int, b: int) -> bool {
    in_range_s(a, b, CRD_PRECISION as int)
}

/// Coordinates agree within the coordinate tolerance.
pub fn coord_in_range(crd: Fix, crd2: Fix) -> (r: bool)
    ensures
        r == coord_in_range_s(crd.v as int, crd2.v as int),
{
    in_range(crd, crd2, Fix { v: CRD_PRECISION })
}

/// Angles agree within the angle tolerance. The comparison is on the raw
/// values, not circular: angles just below and above a half turn differ.
pub open spec fn angle_in_range_s(a: int, b: int) -> bool {
    in_range_s(a, b, ANGL_PRECISION as int)
}

/// Angles agree within the angle tolerance.
pub fn angle_in_range(angl: Fix, angl2: Fix) -> (r: bool)
    ensures
        r == angle_in_range_s(angl.v as int, angl2.v as int),
{
    in_range(angl, angl2, Fix { v: ANGL_PRECISION })
}

/// Both coordinates agree within the coordinate tolerance.
pub open spec fn vector_in_range_s(v: Vec2, w: Vec2) -> bool {
    coord_in_range_s(v.x.v as int, w.x.v as int) && coord_in_range_s(v.y.v as int, w.y.v as int)
}

/// Both coordinates agree within the coordinate tolerance.
pub fn vector_in_range(vector: Vec2, vector2: Vec2) -> (r: bool)
    ensures
        r == vector_in_range_s(vector, vector2),
{
    coord_in_range(vector.x, vector2.x) && coord_in_range(vector.y, vector2.y)
}

/// Both coordinates agree within the coordinate tolerance.
pub fn point_in_range(point: Vec2, point2: Vec2) -> (r: bool)
    ensures
        r == vector_in_range_s(point, point2),
{
    vector_in_range(point, point2)
}

/// Positions and angles agree within their tolerances.
pub open spec fn iso_in_range_s(p: Pose, p2: Pose) -> bool {
    vector_in_range_s(p.pos, p2.pos) && angle_in_range_s(p.angle.v as int, p2.angle.v as int)
}

/// Positions and angles agree within their tolerances.
pub fn iso_in_range(iso: Pose, iso2: Pose) -> (r: bool)
    ensures
        r == iso_in_range_s(iso, iso2),
{
    vector_in_range(iso.pos, iso2.pos) && angle_in_range(iso.angle, iso2.angle)
}

/// X coordinate of a vector rotated by an angle.
pub open spec fn rot_x_s(a: int, x: int, y: int) -> int {
    fsub(fmul(x, cos1(a)), fmul(y, sin1(a)))
}

/// Y coordinate of a vector rotated by an angle.
pub open spec fn rot_y_s(a: int, x: int, y: int) -> int {
    fadd(fmul(x, sin1(a)), fmul(y, cos1(a)))
}

/// Rotate a vector by an angle.
pub fn rot_vec(a: Fix, v: Vec2) -> (r: Vec2)
    requires
        -4 * (ONE as int) <= a.v as int <= 4 * (ONE as int),
        v.wf(),
    ensures
        r.x.v as int == rot_x_s(a.v as int, v.x.v as int, v.y.v as int),
        r.y.v as int == rot_y_s(a.v as int, v.x.v as int, v.y.v as int),
        r.wf(),
{
    let c = cos_fix(a);
    let s = sin_fix(a);
    Vec2 { x: v.x.times(c).minus(v.y.times(s)), y: v.x.times(s).plus(v.y.times(c)) }
}

/// The composition of a pose with a local-frame delta: the delta's position
/// is rotated into the pose's frame and added, the angles add (normalized).
pub open spec fn compose_s(p: Pose, d: Pose) -> Pose {
    Pose {
        pos: Vec2 {
            x: Fix { v: fadd(p.pos.x.v as int, rot_x_s(p.angle.v as int, d.pos.x.v as int, d.pos.y.v as int)) as i64 },
            y: Fix { v: fadd(p.pos.y.v as int, rot_y_s(p.angle.v as int, d.pos.x.v as int, d.pos.y.v as int)) as i64 },
        },
        angle: Fix { v: norm_s(fadd(p.angle.v as int, d.angle.v as int)) as i64 },
    }
}

/// Compose a pose with a local-frame delta (rigid transform composition).
pub fn compose(p: Pose, d: Pose) -> (r: Pose)
    requires
        p.wf(),
        d.wf(),
    ensures
        r == compose_s(p, d),
        r.wf(),
{
    let rp = rot_vec(p.angle, d.pos);
    let ang = norm_angle(p.angle.plus(d.angle));
    Pose { pos: Vec2 { x: p.pos.x.plus(rp.x), y: p.pos.y.plus(rp.y) }, angle: ang }
}

/// The rotation that takes heading `a` to heading `b`, in normal form.
pub open spec fn rotation_to_s(a: int, b: int) -> int {
    norm_s(fsub(b, a))
}

/// The rotation that takes heading `a` to heading `b`.
pub fn rotation_to(a: Fix, b: Fix) -> (r: Fix)
    requires
        a.wf(),
        b.wf(),
    ensures
        r.v as int == rotation_to_s(a.v as int, b.v as int),
        is_norm(r.v as int),
        r.wf(),
{
    norm_angle(b.minus(a))
}

/// The euclidean length of a vector.
pub open spec fn vec_len_s(v: Vec2) -> int {
    fsqrt(fadd(fmul(v.x.v as int, v.x.v as int), fmul(v.y.v as int, v.y.v as int)))
}

/// The euclidean length of a vector.
pub fn vec_len(v: Vec2) -> (r: Fix)
    requires
        v.wf(),
    ensures
        r.v as int == vec_len_s(v),
        r.v >= 0,
        r.wf(),
{
    proof {
        lemma_fmul_self_nonneg(v.x.v as int);
        lemma_fmul_self_nonneg(v.y.v as int);
    }
    let sq = v.x.times(v.x).plus(v.y.times(v.y));
    let rt = sq.sqrt();
    rt.unwrap()
}

/// A circle in the plane: center `(a, b)`, radius `r`.
#[derive(Clone, Copy, Debug, PartialEq, Eq, Structural)]
pub struct Circle {
    pub a: Fix,
    pub b: Fix,
    pub r: Fix,
}

impl Circle {
    pub open spec fn wf(self) -> bool {
        self.a.wf() && self.b.wf() && self.r.wf()
    }

    pub fn new(a: Fix, b: Fix, r: Fix) -> (c: Circle)
        ensures
            c == (Circle { a, b, r }),
    {
        Circle { a, b, r }
    }
}

/// Distance between the circles' centers.
pub open spec fn circ_d(c1: Circle, c2: Circle) -> int {
    fsqrt(
        fadd(
            fmul(fsub(c1.a.v as int, c2.a.v as int), fsub(c1.a.v as int, c2.a.v as int)),
            fmul(fsub(c1.b.v as int, c2.b.v as int), fsub(c1.b.v as int, c2.b.v as int)),
        ),
    )
}

/// The circles touch: their center distance is at most the sum of the radii
/// and at least the magnitude of their difference.
pub open spec fn circ_touch(c1: Circle, c2: Circle) -> bool {
    let d = circ_d(c1, c2);
    fadd(c1.r.v as int, c2.r.v as int) >= d && d >= abs_i(fsub(c1.r.v as int, c2.r.v as int))
}

/// Denominator `2 * d * d` of the intersection construction.
pub open spec fn circ_den(c1: Circle, c2: Circle) -> int {
    fmul(fmul(2 * ONE as int, circ_d(c1, c2)), circ_d(c1, c2))
}

/// Denominator `d * d` of the offset terms.
pub open spec fn circ_den2(c1: Circle, c2: Circle) -> int {
    fmul(circ_d(c1, c2), circ_d(c1, c2))
}

/// The two intersection points, before the validation step: the standard
/// construction from the center distance, Heron's formula for the triangle
/// area, and the projected offsets.
pub open spec fn circ_raw_points(c1: Circle, c2: Circle) -> (((int, int), (int, int))) {
    let a = c1.a.v as int;
    let b = c1.b.v as int;
    let r0 = c1.r.v as int;
    let c = c2.a.v as int;
    let dd = c2.b.v as int;
    let r1 = c2.r.v as int;
    let d = circ_d(c1, c2);
    let a1 = fadd(fadd(d, r0), r1);
    let a2 = fsub(fadd(d, r0), r1);
    let a3 = fadd(fsub(d, r0), r1);
    let a4 = fadd(fadd(-d, r0), r1);
    let area = fdiv(fsqrt(fmul(fmul(fmul(a1, a2), a3), a4)), 4 * ONE as int);
    let vx1 = fadd(
        fdiv(fadd(a, c), 2 * ONE as int),
        fdiv(fmul(fsub(c, a), fsub(fmul(r0, r0), fmul(r1, r1))), circ_den(c1, c2)),
    );
    let vx2 = fdiv(fmul(fmul(2 * ONE as int, fsub(b, dd)), area), circ_den2(c1, c2));
    let x1 = fadd(vx1, vx2);
    let x2 = fsub(vx1, vx2);
    let vy1 = fadd(
        fdiv(fadd(b, dd), 2 * ONE as int),
        fdiv(fmul(fsub(dd, b), fsub(fmul(r0, r0), fmul(r1, r1))), circ_den(c1, c2)),
    );
    let vy2 = fdiv(fmul(fmul(2 * ONE as int, fsub(a, c)), area), circ_den2(c1, c2));
    let y1 = fsub(vy1, vy2);
    let y2 = fadd(vy1, vy2);
    (((x1, y1), (x2, y2)))
}

/// How far the point misses the first circle's equation.
pub open spec fn circ_test(c1: Circle, x: int, y: int) -> int {
    abs_i(
        fsub(
            fadd(
                fmul(fsub(x, c1.a.v as int), fsub(x, c1.a.v as int)),
                fmul(fsub(y, c1.b.v as int), fsub(y, c1.b.v as int)),
            ),
            fmul(c1.r.v as int, c1.r.v as int),
        ),
    )
}

/// The two intersection points, after the validation step: if the first
/// candidate misses the first circle's equation by more than the validation
/// tolerance, the two y values are swapped.
pub open spec fn circ_points(c1: Circle, c2: Circle) -> (Vec2, Vec2) {
    let ((x1, y1), (x2, y2)) = circ_raw_points(c1, c2);
    if circ_test(c1, x1, y1) > TEST_TOL as int {
        (
            (Vec2 { x: Fix { v: x1 as i64 }, y: Fix { v: y2 as i64 } }),
            (Vec2 { x: Fix { v: x2 as i64 }, y: Fix { v: y1 as i64 } }),
        )
    } else {
        (
            (Vec2 { x: Fix { v: x1 as i64 }, y: Fix { v: y1 as i64 } }),
            (Vec2 { x: Fix { v: x2 as i64 }, y: Fix { v: y2 as i64 } }),
        )
    }
}

/// The two intersection points of two circles, or `None` when they do not
/// touch. The construction degenerates when the centers (almost) coincide:
/// the denominators round to zero and no points are produced, which also
/// covers circles that are coincident.
pub fn circ_intersect(c1: Circle, c2: Circle) -> (r: Option<(Vec2, Vec2)>)
    requires
        c1.wf(),
        c2.wf(),
    ensures
        r.is_some() <==> (circ_touch(c1, c2) && circ_den(c1, c2) != 0 && circ_den2(c1, c2) != 0),
        r.is_some() ==> r.unwrap() == circ_points(c1, c2) && r.unwrap().0.wf() && r.unwrap().1.wf(),
{
    let dx = c1.a.minus(c2.a);
    let dy = c1.b.minus(c2.b);
    proof {
        lemma_fmul_self_nonneg(dx.v as int);
        lemma_fmul_self_nonneg(dy.v as int);
    }
    let dsq = dx.times(dx).plus(dy.times(dy));
    let dop = dsq.sqrt();
    let d = dop.unwrap();
    let touching = c1.r.plus(c2.r).v >= d.v && d.v >= c1.r.minus(c2.r).abs().v;
    if !touching {
        return None;
    }
    let two = Fix { v: 2 * ONE };
    let four = Fix { v: 4 * ONE };
    let den = two.times(d).times(d);
    let den2 = d.times(d);
    if den.v == 0 || den2.v == 0 {
        return None;
    }
    let a1 = d.plus(c1.r).plus(c2.r);
    let a2 = d.plus(c1.r).minus(c2.r);
    let a3 = d.minus(c1.r).plus(c2.r);
    let a4 = d.neg().plus(c1.r).plus(c2.r);
    let p = a1.times(a2).times(a3).times(a4);
    proof {
        lemma_heron_nonneg(a1.v as int, a2.v as int, a3.v as int, a4.v as int);
    }
    let area = p.sqrt().unwrap().div_by(four);
    let rsq_diff = c1.r.times(c1.r).minus(c2.r.times(c2.r));
    let vx1 = c1.a.plus(c2.a).div_by(two).plus(c2.a.minus(c1.a).times(rsq_diff).div_by(den));
    let vx2 = two.times(c1.b.minus(c2.b)).times(area).div_by(den2);
    let mut x1 = vx1.plus(vx2);
    let mut x2 = vx1.minus(vx2);
    let vy1 = c1.b.plus(c2.b).div_by(two).plus(c2.b.minus(c1.b).times(rsq_diff).div_by(den));
    let vy2 = two.times(c1.a.minus(c2.a)).times(area).div_by(den2);
    let mut y1 = vy1.minus(vy2);
    let mut y2 = vy1.plus(vy2);
    let test = x1.minus(c1.a).times(x1.minus(c1.a)).plus(
        y1.minus(c1.b).times(y1.minus(c1.b)),
    ).minus(c1.r.times(c1.r)).abs();
    if test.v > TEST_TOL {
        let tmp = y1;
        y1 = y2;
        y2 = tmp;
    }
    Some((Vec2 { x: x1, y: y1 }, Vec2 { x: x2, y: y2 }))
}

/// Each factor of the Heron product is nonnegative when the circles touch,
/// so the product under the square root is nonnegative.
proof fn lemma_heron_nonneg(a1: int, a2: int, a3: int, a4: int)
    requires
        a1 >= 0,
        a2 >= 0,
        a3 >= 0,
        a4 >= 0,
    ensures
        fmul(fmul(fmul(a1, a2), a3), a4) >= 0,
{
    lemma_fmul_nonneg(a1, a2);
    lemma_fmul_nonneg(fmul(a1, a2), a3);
    lemma_fmul_nonneg(fmul(fmul(a1, a2), a3), a4);
}

/// The incremental pose of a differential drive over one step: wheel speeds
/// `lw` and `rw`, half axle width `h`, elapsed time `dt`. Equal speeds give a
/// pure forward translation by the raw wheel speed (not scaled by `dt`, a
/// kept quirk of the model); different speeds follow a circular arc.
pub open spec fn pos_delta_s(h: int, dt: int, lw: int, rw: int) -> Pose {
    let delta = fsub(lw, rw);
    if delta == 0 {
        Pose { pos: Vec2 { x: Fix { v: lw as i64 }, y: Fix { v: 0 } }, angle: Fix { v: 0 } }
    } else {
        let total = fadd(lw, rw);
        let eff1 = fdiv(fmul(h, total), delta);
        let eff2 = norm_s(fdiv(fmul(delta, dt), fmul(h, 2 * ONE as int)));
        Pose {
            pos: Vec2 {
                x: Fix { v: fmul(eff1, sin1(eff2)) as i64 },
                y: Fix { v: fmul(-eff1, fsub(cos1(eff2), ONE as int)) as i64 },
            },
            angle: Fix { v: eff2 as i64 },
        }
    }
}

/// The incremental pose of a differential drive over one step.
pub fn pos_delta(half_distance: Fix, dt: Fix, lw_speed: Fix, rw_speed: Fix) -> (r: Pose)
    requires
        half_distance.wf(),
        half_distance.v != 0,
        dt.wf(),
        lw_speed.wf(),
        rw_speed.wf(),
    ensures
        r == pos_delta_s(half_distance.v as int, dt.v as int, lw_speed.v as int, rw_speed.v as int),
        r.wf(),
{
    let delta = lw_speed.minus(rw_speed);
    if delta.v == 0 {
        Pose { pos: Vec2 { x: lw_speed, y: Fix { v: 0 } }, angle: Fix { v: 0 } }
    } else {
        let two = Fix { v: 2 * ONE };
        let total = lw_speed.plus(rw_speed);
        let eff1 = half_distance.times(total).div_by(delta);
        let hd2 = half_distance.times(two);
        proof {
            lemma_double_nonzero(half_distance.v as int);
        }
        let eff2 = norm_angle(delta.times(dt).div_by(hd2));
        let s = sin_fix(eff2);
        let c = cos_fix(eff2);
        let dx = eff1.times(s);
        let dy = eff1.neg().times(c.minus(Fix { v: ONE }));
        Pose { pos: Vec2 { x: dx, y: dy }, angle: eff2 }
    }
}

/// Doubling a nonzero scalar in the band keeps it nonzero.
proof fn lemma_double_nonzero(h: int)
    requires
        h != 0,
        -(crate::fix::CMAX as int) <= h <= crate::fix::CMAX as int,
    ensures
        fmul(h, 2 * ONE as int) != 0,
{
    assert(abs_i(h * (2 * ONE as int)) / abs_i(ONE as int) >= 2) by (nonlinear_arith)
        requires
            h != 0,
    ;
}

/// An angle folded into `[0, two turns)`: a negative angle has a full turn
/// added, any other is kept.
pub fn to_positive_rad(angl: Fix) -> (r: Fix)
    requires
        angl.wf(),
    ensures
        angl.v < 0 ==> r.v as int == TWO_PI as int + angl.v as int,
        angl.v >= 0 ==> r == angl,
        r.wf(),
{
    if angl.v < 0 {
        Fix { v: TWO_PI + angl.v }
    } else {
        angl
    }
}

} // verus!
