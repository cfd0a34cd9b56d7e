//! A saturating fixed-point scalar with 24 fractional bits, backed by `i64`.
//!
//! Every quantity the localization core manipulates (coordinates, ranges,
//! angles in radians, confidence weights) is a `Fix`. The representable band
//! is `[-CMAX, CMAX]` in raw units (about `1.07e9` in scalar units); every
//! operation clips its result into that band, so all operations are total and
//! well-formedness (`wf`) is preserved without side conditions. Products and
//! quotients truncate toward zero, as the corresponding integer operations do.
use vstd::prelude::*;

verus! {

/// Raw representation of the scalar value 1 (2^24).
pub const ONE: i64 = 16777216;

/// Largest representable raw magnitude (2^54).
pub const CMAX: i64 = 18014398509481984;

/// Clip a mathematical integer into the representable raw band.
pub open spec fn clip(x: int) -> int {
    if x > CMAX as int {
        CMAX as int
    } else if x < -(CMAX as int) {
        -(CMAX as int)
    } else {
        x
    }
}

/// Division truncating toward zero (the rounding of the executable code).
pub open spec fn tdiv(n: int, d: int) -> int
    recommends
        d != 0,
{
    let q = abs_i(n) / abs_i(d);
    if (n >= 0) == (d >= 0) {
        q
    } else {
        -q
    }
}

/// Magnitude of a mathematical integer.
pub open spec fn abs_i(x: int) -> int {
    if x >= 0 {
        x
    } else {
        -x
    }
}

/// Raw result of fixed-point addition.
pub open spec fn fadd(a: int, b: int) -> int {
    clip(a + b)
}

/// Raw result of fixed-point subtraction.
pub open spec fn fsub(a: int, b: int) -> int {
    clip(a - b)
}

/// Raw result of fixed-point multiplication.
pub open spec fn fmul(a: int, b: int) -> int {
    clip(tdiv(a * b, ONE as int))
}

/// Raw result of fixed-point division.
pub open spec fn fdiv(a: int, b: int) -> int
    recommends
        b != 0,
{
    clip(tdiv(a * (ONE as int), b))
}

/// Integer square root: the greatest `r` with `r * r <= x`.
pub open spec fn isqrt(x: nat) -> nat
    decreases x,
{
    if x == 0 {
        0
    } else {
        let r = isqrt((x - 1) as nat);
        if (r + 1) * (r + 1) <= x {
            r + 1
        } else {
            r
        }
    }
}

/// Raw result of the fixed-point square root of a nonnegative raw value.
pub open spec fn fsqrt(a: int) -> int
    recommends
        a >= 0,
{
    isqrt((a * (ONE as int)) as nat) as int
}

pub proof fn lemma_isqrt_bounds(x: nat)
    ensures
        isqrt(x) * isqrt(x) <= x,
        x < (isqrt(x) + 1) * (isqrt(x) + 1),
    decreases x,
{
    if x > 0 {
        lemma_isqrt_bounds((x - 1) as nat);
        let r = isqrt((x - 1) as nat);
        if (r + 1) * (r + 1) <= x {
            assert(isqrt(x) == r + 1);
            assert(x < (r + 1 + 1) * (r + 1 + 1)) by (nonlinear_arith)
                requires
                    x - 1 < (r + 1) * (r + 1),
                    r >= 0,
            ;
            assert(x < (isqrt(x) + 1) * (isqrt(x) + 1));
        } else {
            assert(isqrt(x) == r);
            assert(x < (isqrt(x) + 1) * (isqrt(x) + 1));
        }
    } else {
        assert(x == 0);
        assert(isqrt(x) == 0);
        assert(x < (isqrt(x) + 1) * (isqrt(x) + 1)) by (nonlinear_arith)
            requires
                x == 0,
                isqrt(x) == 0,
        ;
    }
}

pub proof fn lemma_isqrt_unique(x: nat, r: nat)
    requires
        r * r <= x,
        x < (r + 1) * (r + 1),
    ensures
        r == isqrt(x),
{
    lemma_isqrt_bounds(x);
    let s = isqrt(x);
    assert(r == s) by (nonlinear_arith)
        requires
            r * r <= x,
            x < (r + 1) * (r + 1),
            s * s <= x,
            x < (s + 1) * (s + 1),
            r >= 0,
            s >= 0,
    ;
}

/// The saturating fixed-point scalar. `v` is the raw value: the represented
/// scalar is `v / 2^24`.
#[derive(Clone, Copy, Debug, PartialEq, Eq, Structural)]
pub struct Fix {
    pub v: i64,
}

impl Fix {
    /// The raw value lies in the representable band.
    pub open spec fn wf(self) -> bool {
        -(CMAX as int) <= self.v as int <= CMAX as int
    }

    /// Build a scalar from a raw value, clipping it into the band.
    pub fn from_raw(v: i64) -> (r: Fix)
        ensures
            r.v as int == clip(v as int),
            r.wf(),
    {
        if v > CMAX {
            Fix { v: CMAX }
        } else if v < -CMAX {
            Fix { v: -CMAX }
        } else {
            Fix { v }
        }
    }

    /// Build a scalar from a whole number, clipping it into the band.
    pub fn whole(i: i32) -> (r: Fix)
        ensures
            r.v as int == clip(i as int * ONE as int),
            r.wf(),
    {
        proof {
            assert(-0x8000000000000000 <= (i as int) * (ONE as int) <= 0x8000000000000000)
                by (nonlinear_arith)
                requires
                    -0x80000000 <= i as int <= 0x80000000,
            ;
        }
        let p: i128 = (i as i128) * (ONE as i128);
        clip_exec(p)
    }

    /// Saturating addition.
    pub fn plus(self, o: Fix) -> (r: Fix)
        ensures
            r.v as int == fadd(self.v as int, o.v as int),
            r.wf(),
    {
        let s: i128 = self.v as i128 + o.v as i128;
        clip_exec(s)
    }

    /// Saturating subtraction.
    pub fn minus(self, o: Fix) -> (r: Fix)
        ensures
            r.v as int == fsub(self.v as int, o.v as int),
            r.wf(),
    {
        let s: i128 = self.v as i128 - o.v as i128;
        clip_exec(s)
    }

    /// Negation.
    pub fn neg(self) -> (r: Fix)
        requires
            self.wf(),
        ensures
            r.v as int == -self.v as int,
            r.wf(),
    {
        Fix { v: -self.v }
    }

    /// Magnitude.
    pub fn abs(self) -> (r: Fix)
        requires
            self.wf(),
        ensures
            r.v as int == abs_i(self.v as int),
            r.wf(),
    {
        if self.v < 0 {
            Fix { v: -self.v }
        } else {
            self
        }
    }

    /// Saturating multiplication, truncating toward zero.
    pub fn times(self, o: Fix) -> (r: Fix)
        requires
            self.wf(),
            o.wf(),
        ensures
            r.v as int == fmul(self.v as int, o.v as int),
            r.wf(),
    {
        proof {
            assert(-(0x1000000000000000000000000000 as int) <= self.v as int * o.v as int <= 0x1000000000000000000000000000 as int)
                by (nonlinear_arith)
                requires
                    -(CMAX as int) <= self.v as int <= CMAX as int,
                    -(CMAX as int) <= o.v as int <= CMAX as int,
            ;
        }
        let p: i128 = (self.v as i128) * (o.v as i128);
        let neg: bool = p < 0;
        let m: u128 = if neg {
            (-p) as u128
        } else {
            p as u128
        };
        let q: u128 = m / (ONE as u128);
        proof {
            assert(q <= m);
            assert(abs_i(self.v as int * o.v as int) / abs_i(ONE as int) == q as int);
        }
        let s: i128 = if neg {
            -(q as i128)
        } else {
            q as i128
        };
        clip_exec(s)
    }

    /// Saturating division, truncating toward zero.
    pub fn div_by(self, o: Fix) -> (r: Fix)
        requires
            self.wf(),
            o.wf(),
            o.v != 0,
        ensures
            r.v as int == fdiv(self.v as int, o.v as int),
            r.wf(),
    {
        let n: i128 = (self.v as i128) * (ONE as i128);
        let nneg: bool = n < 0;
        let nm: u128 = if nneg {
            (-n) as u128
        } else {
            n as u128
        };
        let dneg: bool = o.v < 0;
        let dm: u128 = if dneg {
            (-o.v) as u128
        } else {
            o.v as u128
        };
        let q: u128 = nm / dm;
        proof {
            assert(nm as int == abs_i(self.v as int * (ONE as int)));
            assert(dm as int == abs_i(o.v as int));
            assert(q as int == abs_i(self.v as int * (ONE as int)) / abs_i(o.v as int));
            assert(q <= nm);
        }
        let s: i128 = if nneg == dneg {
            q as i128
        } else {
            -(q as i128)
        };
        proof {
            assert((self.v as int * (ONE as int) >= 0) == (self.v as int >= 0)) by (nonlinear_arith);
        }
        clip_exec(s)
    }

    /// Square root of a nonnegative scalar; `None` for a negative one.
    pub fn sqrt(self) -> (r: Option<Fix>)
        requires
            self.wf(),
        ensures
            self.v >= 0 ==> r == Some(Fix { v: fsqrt(self.v as int) as i64 }) && 0 <= fsqrt(
                self.v as int,
            ) <= CMAX as int && r.unwrap().wf(),
            self.v < 0 ==> r.is_none(),
    {
        if self.v < 0 {
            None
        } else {
            let x: u128 = (self.v as u128) * (ONE as u128);
            let s: u64 = isqrt_exec(x);
            proof {
                lemma_isqrt_bounds(x as nat);
                assert(isqrt(x as nat) < 0x10000000000000) by (nonlinear_arith)
                    requires
                        isqrt(x as nat) * isqrt(x as nat) <= x as nat,
                        x as nat <= (CMAX as nat) * (ONE as nat),
                ;
            }
            Some(Fix { v: s as i64 })
        }
    }
}

/// A product of nonnegative scalars is nonnegative.
pub proof fn lemma_fmul_nonneg(a: int, b: int)
    requires
        a >= 0,
        b >= 0,
    ensures
        fmul(a, b) >= 0,
{
    assert(a * b >= 0) by (nonlinear_arith)
        requires
            a >= 0,
            b >= 0,
    ;
}

/// A square is nonnegative.
pub proof fn lemma_fmul_self_nonneg(a: int)
    ensures
        fmul(a, a) >= 0,
{
    assert(a * a >= 0) by (nonlinear_arith);
}

/// Scaling a nonnegative scalar by a factor of at most 1 does not increase it.
pub proof fn lemma_fmul_scale_le(a: int, f: int)
    requires
        0 <= a,
        0 <= f <= ONE as int,
    ensures
        0 <= fmul(a, f) <= a,
{
    assert(0 <= a * f <= a * (ONE as int)) by (nonlinear_arith)
        requires
            0 <= a,
            0 <= f <= ONE as int,
    ;
    assert((a * f) / (ONE as int) <= (a * (ONE as int)) / (ONE as int)) by (nonlinear_arith)
        requires
            0 <= a * f <= a * (ONE as int),
    ;
    assert((a * (ONE as int)) / (ONE as int) == a) by (nonlinear_arith);
}

/// Clip a wide intermediate into the representable band.
fn clip_exec(s: i128) -> (r: Fix)
    ensures
        r.v as int == clip(s as int),
        r.wf(),
{
    if s > CMAX as i128 {
        Fix { v: CMAX }
    } else if s < -(CMAX as i128) {
        Fix { v: -CMAX }
    } else {
        Fix { v: s as i64 }
    }
}

/// Integer square root of a `u128` below 2^80, by bisection.
fn isqrt_exec(x: u128) -> (r: u64)
    requires
        x < 0x100000000000000000000,
    ensures
        r as nat == isqrt(x as nat),
{
    let mut lo: u128 = 0;
    let mut hi: u128 = 0x10000000000;
    proof {
        assert((0x10000000000 as int) * (0x10000000000 as int) > x as int);
    }
    while lo + 1 < hi
        invariant
            0 <= lo < hi <= 0x10000000000,
            lo * lo <= x as int,
            (x as int) < hi * hi,
        decreases hi - lo,
    {
        let mid: u128 = lo + (hi - lo) / 2;
        proof {
            assert(lo < mid < hi);
            assert(mid * mid <= 0x10000000000 * 0x10000000000) by (nonlinear_arith)
                requires
                    0 <= mid <= 0x10000000000,
            ;
        }
        if mid * mid <= x {
            lo = mid;
        } else {
            hi = mid;
        }
    }
    proof {
        assert((x as int) < (lo + 1) * (lo + 1));
        lemma_isqrt_unique(x as nat, lo as nat);
        assert(lo * lo <= x as int);
        assert(lo < 0x10000000000);
    }
    lo as u64
}

} // verus!
