//! Angles and the trigonometric calls.
//!
//! Angles are `Fix` scalars in radians. The sine, cosine and arc tangent are
//! computed by the `cordic` crate on 24-fractional-bit fixed-point numbers;
//! their results are named by uninterpreted spec functions (`sin_of`,
//! `cos_of`, `atan_of`), since the exact rounded values have no short
//! statement. Verified code clips the sine and cosine into `[-1, 1]` before
//! using them, so contracts speak of the clipped values `sin1` and `cos1`.
use vstd::prelude::*;
use crate::fix::{Fix, ONE, CMAX, clip};

verus! {

/// Radians of a half turn, rounded to 24 fractional bits.
pub const PI: i64 = 52707178;

/// Radians of a full turn, rounded to 24 fractional bits.
pub const TWO_PI: i64 = 105414356;

/// The raw value `cordic::sin` returns for a raw angle `x`.
pub uninterp spec fn sin_of(x: int) -> int;

/// The raw value `cordic::cos` returns for a raw angle `x`.
pub uninterp spec fn cos_of(x: int) -> int;

/// The raw value `cordic::atan` returns for a raw quotient `x`.
pub uninterp spec fn atan_of(x: int) -> int;

/// Clip a raw value into the raw band of the scalars -1 to 1.
pub open spec fn clip_one(x: int) -> int {
    if x > ONE as int {
        ONE as int
    } else if x < -(ONE as int) {
        -(ONE as int)
    } else {
        x
    }
}

/// The clipped sine a pose rotation uses.
pub open spec fn sin1(x: int) -> int {
    clip_one(sin_of(x))
}

/// The clipped cosine a pose rotation uses.
pub open spec fn cos1(x: int) -> int {
    clip_one(cos_of(x))
}

/// Relies on cordic::sin on a `fixed` number with 24 fractional bits: the
/// result depends on the angle alone; for angles within a few turns the
/// argument reduction loop terminates without overflow.
#[verifier::external_body]
fn sin_raw(x: i64) -> (r: i64)
    requires
        -4 * (ONE as int) <= x as int <= 4 * (ONE as int),
    ensures
        r as int == sin_of(x as int),
{
    cordic::sin(fixed::types::I40F24::from_bits(x)).to_bits()
}

/// Relies on cordic::cos on a `fixed` number with 24 fractional bits: the
/// result depends on the angle alone; for angles within a few turns the
/// argument reduction loop terminates without overflow.
#[verifier::external_body]
fn cos_raw(x: i64) -> (r: i64)
    requires
        -4 * (ONE as int) <= x as int <= 4 * (ONE as int),
    ensures
        r as int == cos_of(x as int),
{
    cordic::cos(fixed::types::I40F24::from_bits(x)).to_bits()
}

/// Relies on cordic::atan on a `fixed` number with 24 fractional bits: the
/// result depends on the quotient alone, and is a sum of 24 table values
/// each below 1, so its magnitude stays below 24.
#[verifier::external_body]
fn atan_raw(x: i64) -> (r: i64)
    requires
        -(CMAX as int) <= x as int <= CMAX as int,
    ensures
        r as int == atan_of(x as int),
        -(24 * ONE as int) <= r as int <= 24 * ONE as int,
{
    cordic::atan(fixed::types::I40F24::from_bits(x)).to_bits()
}

/// Sine of an angle, clipped into `[-1, 1]`.
pub fn sin_fix(a: Fix) -> (r: Fix)
    requires
        -4 * (ONE as int) <= a.v as int <= 4 * (ONE as int),
    ensures
        r.v as int == sin1(a.v as int),
        r.wf(),
        -(ONE as int) <= r.v as int <= ONE as int,
{
    let s = sin_raw(a.v);
    if s > ONE {
        Fix { v: ONE }
    } else if s < -ONE {
        Fix { v: -ONE }
    } else {
        Fix { v: s }
    }
}

/// Cosine of an angle, clipped into `[-1, 1]`.
pub fn cos_fix(a: Fix) -> (r: Fix)
    requires
        -4 * (ONE as int) <= a.v as int <= 4 * (ONE as int),
    ensures
        r.v as int == cos1(a.v as int),
        r.wf(),
        -(ONE as int) <= r.v as int <= ONE as int,
{
    let s = cos_raw(a.v);
    if s > ONE {
        Fix { v: ONE }
    } else if s < -ONE {
        Fix { v: -ONE }
    } else {
        Fix { v: s }
    }
}

/// The normal form of an angle: congruent modulo a full turn, in `[-PI, PI)`.
pub open spec fn norm_s(a: int) -> int {
    (a + PI as int) % (TWO_PI as int) - PI as int
}

/// An angle is in its normal form.
pub open spec fn is_norm(a: int) -> bool {
    -(PI as int) <= a < PI as int
}

/// Reduce an angle to its normal form in `[-PI, PI)`.
pub fn norm_angle(a: Fix) -> (r: Fix)
    requires
        a.wf(),
    ensures
        r.v as int == norm_s(a.v as int),
        is_norm(r.v as int),
        r.wf(),
{
    let shifted: i64 = a.v + PI;
    let m: i64 = shifted % TWO_PI;
    let e: i64 = if m < 0 {
        m + TWO_PI
    } else {
        m
    };
    proof {
        assert(e as int == (shifted as int) % (TWO_PI as int)) by {
            assert(TWO_PI > 0);
        }
    }
    Fix { v: e - PI }
}

/// The arc tangent of `y / x` with quadrant correction, as the localization
/// geometry uses it: the saturating fixed-point quotient is handed to the
/// arc tangent, and the quadrant cases mirror the common convention.
pub open spec fn atan2_s(y: int, x: int) -> int {
    if x == 0 {
        if y < 0 {
            -((PI as int) / 2)
        } else {
            (PI as int) / 2
        }
    } else if y == 0 {
        if x >= 0 {
            0
        } else {
            PI as int
        }
    } else if x > 0 {
        atan_of(crate::fix::fdiv(y, x))
    } else if y > 0 {
        PI as int - atan_of(crate::fix::fdiv(y, -x))
    } else {
        atan_of(crate::fix::fdiv(y, x)) - PI as int
    }
}

/// Arc tangent of `y / x` with quadrant correction.
pub fn atan2_fix(y: Fix, x: Fix) -> (r: Fix)
    requires
        y.wf(),
        x.wf(),
    ensures
        r.v as int == clip(atan2_s(y.v as int, x.v as int)),
        r.wf(),
{
    if x.v == 0 {
        if y.v < 0 {
            Fix { v: -(PI / 2) }
        } else {
            Fix { v: PI / 2 }
        }
    } else if y.v == 0 {
        if x.v >= 0 {
            Fix { v: 0 }
        } else {
            Fix { v: PI }
        }
    } else if x.v > 0 {
        let q = y.div_by(x);
        Fix { v: atan_raw(q.v) }
    } else if y.v > 0 {
        let q = y.div_by(x.neg());
        let t = atan_raw(q.v);
        Fix { v: PI - t }
    } else {
        let q = y.div_by(x);
        let t = atan_raw(q.v);
        Fix { v: t - PI }
    }
}

} // verus!
