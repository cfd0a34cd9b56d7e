//! The evidence sample: a decaying, combinable confidence accumulator
//! attached to every hypothesis.
//!
//! A sample holds a nonnegative `weight` (its strength: how much evidence
//! stands behind the hypothesis) and a nonnegative `value` (accumulated
//! confidence mass). The average confidence of a sample is `value / weight`;
//! a sample with weight zero carries no evidence and loses every contest.
//! Combining two samples that stand for the same hypothesis adds both fields,
//! so the average becomes the weight-weighted average of the two averages.
//! Decaying scales both fields, eroding the sample's strength while keeping
//! its average; the policy for the `value` field is the library's own, and a
//! tunable.
use vstd::prelude::*;
use crate::fix::{Fix, ONE, CMAX, fadd, fmul, lemma_fmul_scale_le};

verus! {

/// Per-tick motion confidence decay (the scalar 0.9): prediction erodes
/// every pose hypothesis's evidence by this factor.
pub const POS_ERR: i64 = 15099494;

/// Per-reading scan confidence decay (the scalar 0.9): every hypothesis
/// derived from a reading carries its source's evidence eroded by this
/// factor.
pub const SCAN_ERR: i64 = 15099494;

/// A confidence accumulator: nonnegative weight and value.
#[derive(Clone, Copy, Debug, PartialEq, Eq, Structural)]
pub struct Sample {
    pub weight: Fix,
    pub value: Fix,
}

/// The combination of two samples: both fields add, saturating at the band.
pub open spec fn combined_s(a: Sample, b: Sample) -> Sample {
    Sample {
        weight: Fix { v: fadd(a.weight.v as int, b.weight.v as int) as i64 },
        value: Fix { v: fadd(a.value.v as int, b.value.v as int) as i64 },
    }
}

/// A sample decayed by a factor: both fields scaled.
pub open spec fn scaled_s(a: Sample, factor: int) -> Sample {
    Sample {
        weight: Fix { v: fmul(a.weight.v as int, factor) as i64 },
        value: Fix { v: fmul(a.value.v as int, factor) as i64 },
    }
}

/// The first sample's average confidence is strictly above the second's:
/// both carry evidence and the averages compare as cross products.
pub open spec fn avg_gt_s(a: Sample, b: Sample) -> bool {
    a.weight.v > 0 && b.weight.v > 0 && a.value.v * b.weight.v > b.value.v * a.weight.v
}

/// A sample beats another if its average confidence is strictly higher, or
/// the other carries no evidence at all.
pub open spec fn sample_beats_s(a: Sample, b: Sample) -> bool {
    avg_gt_s(a, b) || b.weight.v == 0
}

/// A cross product of in-band values stays well inside the wide integers.
pub proof fn lemma_cross_bound(a: int, b: int)
    requires
        0 <= a <= CMAX as int,
        0 <= b <= CMAX as int,
    ensures
        0 <= a * b <= (CMAX as int) * (CMAX as int),
{
    assert(0 <= a * b <= (CMAX as int) * (CMAX as int)) by (nonlinear_arith)
        requires
            0 <= a <= CMAX as int,
            0 <= b <= CMAX as int,
    ;
}

/// Law: a sample without evidence always loses a contest against a sample
/// that carries evidence, whatever the values.
pub proof fn lemma_empty_sample_loses(a: Sample, b: Sample)
    requires
        a.weight.v == 0,
        b.weight.v > 0,
    ensures
        !sample_beats_s(a, b),
        sample_beats_s(b, a),
{
}

impl Sample {
    /// Weight and value are nonnegative and in the band.
    pub open spec fn wf(self) -> bool {
        0 <= self.weight.v <= CMAX as int && 0 <= self.value.v <= CMAX as int
    }

    pub fn new(weight: Fix, value: Fix) -> (r: Sample)
        ensures
            r == (Sample { weight, value }),
    {
        Sample { weight, value }
    }

    /// The sample of full confidence: weight 1, value 1.
    pub fn full() -> (r: Sample)
        ensures
            r == (Sample { weight: Fix { v: ONE }, value: Fix { v: ONE } }),
            r.wf(),
    {
        Sample { weight: Fix { v: ONE }, value: Fix { v: ONE } }
    }

    /// The empty sample: no evidence.
    pub fn empty() -> (r: Sample)
        ensures
            r == (Sample { weight: Fix { v: 0 }, value: Fix { v: 0 } }),
            r.wf(),
    {
        Sample { weight: Fix { v: 0 }, value: Fix { v: 0 } }
    }

    /// Decay by a factor between 0 and 1: both fields are scaled, so the
    /// strength erodes while the average confidence is kept.
    pub fn scaled(&self, factor: Fix) -> (r: Sample)
        requires
            self.wf(),
            0 <= factor.v <= ONE,
        ensures
            r == scaled_s(*self, factor.v as int),
            r.weight.v as int == fmul(self.weight.v as int, factor.v as int),
            r.value.v as int == fmul(self.value.v as int, factor.v as int),
            r.weight.v <= self.weight.v,
            r.value.v <= self.value.v,
            r.wf(),
    {
        proof {
            lemma_fmul_scale_le(self.weight.v as int, factor.v as int);
            lemma_fmul_scale_le(self.value.v as int, factor.v as int);
        }
        Sample { weight: self.weight.times(factor), value: self.value.times(factor) }
    }

    /// Combine with a sample of the same hypothesis: both fields add
    /// (saturating at the band), so the weight never decreases.
    pub fn combined(&self, other: Sample) -> (r: Sample)
        requires
            self.wf(),
            other.wf(),
        ensures
            r == combined_s(*self, other),
            r.weight.v as int == fadd(self.weight.v as int, other.weight.v as int),
            r.value.v as int == fadd(self.value.v as int, other.value.v as int),
            r.weight.v >= self.weight.v,
            r.weight.v >= other.weight.v,
            r.wf(),
    {
        Sample { weight: self.weight.plus(other.weight), value: self.value.plus(other.value) }
    }

    /// Strictly higher average confidence, by cross multiplication.
    pub fn avg_gt(&self, other: &Sample) -> (r: bool)
        requires
            self.wf(),
            other.wf(),
        ensures
            r == avg_gt_s(*self, *other),
    {
        proof {
            lemma_cross_bound(self.value.v as int, other.weight.v as int);
            lemma_cross_bound(other.value.v as int, self.weight.v as int);
        }
        self.weight.v > 0 && other.weight.v > 0 && (self.value.v as i128) * (other.weight.v
            as i128) > (other.value.v as i128) * (self.weight.v as i128)
    }

    /// This sample wins a ranking or eviction contest against the other.
    pub fn beats(&self, other: &Sample) -> (r: bool)
        requires
            self.wf(),
            other.wf(),
        ensures
            r == sample_beats_s(*self, *other),
    {
        self.avg_gt(other) || other.weight.v == 0
    }

    /// The average confidence `value / weight`; `None` for an empty sample.
    pub fn average_confidence(&self) -> (r: Option<Fix>)
        requires
            self.wf(),
        ensures
            self.weight.v == 0 ==> r.is_none(),
            self.weight.v != 0 ==> r == Some(
                Fix { v: crate::fix::fdiv(self.value.v as int, self.weight.v as int) as i64 },
            ),
    {
        if self.weight.v == 0 {
            None
        } else {
            Some(self.value.div_by(self.weight))
        }
    }
}

} // verus!
