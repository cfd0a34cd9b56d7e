//! The bounded weighted-hypothesis pool: a capacity-bounded set of
//! hypotheses, coalesced eagerly on insert.
//!
//! `add` first tries to merge the candidate into an existing entry (no
//! growth); otherwise it appends while there is room; otherwise it replaces
//! the weakest entry if the candidate outranks it, else drops the candidate.
//! The pool's invariant: never more entries than the capacity, every entry
//! well-formed, and no two entries mergeable with each other.
use vstd::prelude::*;

verus! {

/// A hypothesis that can live in a pool: it knows when another hypothesis is
/// the same real-world hypothesis within tolerance (`can_merge`), how to
/// absorb such a hypothesis (`merged`), and when it outranks another
/// (`beats_s`). Merging must keep the hypothesis's identity (`lemma_merged`)
/// and mergeability must be symmetric (`lemma_merge_sym`).
pub trait Hypothesis: Sized + Copy {
    /// The hypothesis is well-formed.
    spec fn wf_h(self) -> bool;

    /// The evidence weight the hypothesis carries.
    spec fn weight_of(self) -> int;

    /// The two stand for the same real-world hypothesis, within tolerance.
    spec fn can_merge(self, other: Self) -> bool;

    /// The result of absorbing the other's evidence into this hypothesis.
    spec fn merged(self, other: Self) -> Self;

    /// This hypothesis outranks the other in an eviction contest.
    spec fn beats_s(self, other: Self) -> bool;

    /// A well-formed hypothesis carries nonnegative weight.
    proof fn lemma_weight_nonneg(self)
        requires
            self.wf_h(),
        ensures
            self.weight_of() >= 0,
    ;

    /// Merging keeps well-formedness, does not lose weight, and does not
    /// change which hypotheses this one can merge with.
    proof fn lemma_merged(self, other: Self, t: Self)
        requires
            self.wf_h(),
            other.wf_h(),
        ensures
            self.merged(other).wf_h(),
            self.merged(other).weight_of() >= self.weight_of(),
            self.merged(other).can_merge(t) == self.can_merge(t),
    ;

    /// Mergeability is symmetric.
    proof fn lemma_merge_sym(self, other: Self)
        ensures
            self.can_merge(other) == other.can_merge(self),
    ;

    /// Absorb the other's evidence if the two are the same hypothesis within
    /// tolerance; report whether that happened.
    fn try_merge(&mut self, other: &Self) -> (b: bool)
        requires
            old(self).wf_h(),
            other.wf_h(),
        ensures
            b == old(self).can_merge(*other),
            b ==> *final(self) == old(self).merged(*other),
            !b ==> *final(self) == *old(self),
    ;

    /// This hypothesis outranks the other in an eviction contest.
    fn beats(&self, other: &Self) -> (b: bool)
        requires
            self.wf_h(),
            other.wf_h(),
        ensures
            b == self.beats_s(*other),
    ;
}

/// Index of the first entry the candidate merges with, or -1.
pub open spec fn find_merge<H: Hypothesis>(s: Seq<H>, c: H) -> int
    decreases s.len(),
{
    if s.len() == 0 {
        -1
    } else if s[0].can_merge(c) {
        0
    } else {
        let r = find_merge(s.drop_first(), c);
        if r == -1 {
            -1
        } else {
            r + 1
        }
    }
}

/// `find_merge` yields -1 exactly when no entry merges, and otherwise the
/// least index of an entry that merges.
pub proof fn lemma_find_merge<H: Hypothesis>(s: Seq<H>, c: H)
    ensures
        find_merge(s, c) == -1 ==> forall|k: int| 0 <= k < s.len() ==> !(#[trigger] s[k]).can_merge(
            c,
        ),
        find_merge(s, c) != -1 ==> 0 <= find_merge(s, c) < s.len() && s[find_merge(s, c)].can_merge(
            c,
        ) && forall|k: int| 0 <= k < find_merge(s, c) ==> !(#[trigger] s[k]).can_merge(c),
    decreases s.len(),
{
    if s.len() > 0 {
        lemma_find_merge(s.drop_first(), c);
        assert forall|k: int| 1 <= k < s.len() implies s.drop_first()[k - 1] == s[k] by {}
    }
}

/// Index of the weakest entry among the first `n`: the scan that moves to a
/// later entry whenever the current weakest outranks it.
pub open spec fn weakest_upto<H: Hypothesis>(s: Seq<H>, n: int) -> int
    decreases n,
{
    if n <= 1 {
        0
    } else {
        let w = weakest_upto(s, n - 1);
        if s[w].beats_s(s[n - 1]) {
            n - 1
        } else {
            w
        }
    }
}

pub proof fn lemma_weakest_upto_range<H: Hypothesis>(s: Seq<H>, n: int)
    requires
        n >= 1,
    ensures
        0 <= weakest_upto(s, n) < n,
    decreases n,
{
    if n > 1 {
        lemma_weakest_upto_range(s, n - 1);
    }
}

/// Sum of the evidence weights of a sequence of hypotheses.
pub open spec fn total_weight<H: Hypothesis>(s: Seq<H>) -> int
    decreases s.len(),
{
    if s.len() == 0 {
        0
    } else {
        s[0].weight_of() + total_weight(s.drop_first())
    }
}

pub proof fn lemma_total_weight_update<H: Hypothesis>(s: Seq<H>, j: int, x: H)
    requires
        0 <= j < s.len(),
    ensures
        total_weight(s.update(j, x)) == total_weight(s) - s[j].weight_of() + x.weight_of(),
    decreases s.len(),
{
    if j == 0 {
        assert(s.update(0, x).drop_first() =~= s.drop_first());
    } else {
        lemma_total_weight_update(s.drop_first(), j - 1, x);
        assert(s.update(j, x).drop_first() =~= s.drop_first().update(j - 1, x));
    }
}

/// What one `add` does to the pool's entries: merge into the first matching
/// entry; else append while under the capacity; else replace the weakest
/// entry if the candidate outranks it, else drop the candidate.
pub open spec fn pool_add<H: Hypothesis>(s: Seq<H>, cap: int, c: H) -> Seq<H> {
    let j = find_merge(s, c);
    if j >= 0 {
        s.update(j, s[j].merged(c))
    } else if s.len() < cap {
        s.push(c)
    } else if s.len() == 0 {
        s
    } else {
        let w = weakest_upto(s, s.len() as int);
        if c.beats_s(s[w]) {
            s.update(w, c)
        } else {
            s
        }
    }
}

/// The bounded weighted-hypothesis pool.
pub struct Pool<H> {
    pub items: Vec<H>,
    pub cap: usize,
}

impl<H: Hypothesis> Pool<H> {
    /// At most `cap` entries, all well-formed.
    pub open spec fn wf(self) -> bool {
        &&& self.items@.len() <= self.cap
        &&& forall|i: int| 0 <= i < self.items@.len() ==> (#[trigger] self.items@[i]).wf_h()
    }

    /// An empty pool with the given capacity.
    pub fn new(cap: usize) -> (r: Pool<H>)
        ensures
            r.items@.len() == 0,
            r.cap == cap,
            r.wf(),
    {
        Pool { items: Vec::new(), cap }
    }

    /// A pool seeded with one hypothesis.
    pub fn new_one(cap: usize, h: H) -> (r: Pool<H>)
        requires
            h.wf_h(),
            cap >= 1,
        ensures
            r.items@ =~= seq![h],
            r.cap == cap,
            r.wf(),
    {
        let mut items = Vec::new();
        items.push(h);
        Pool { items, cap }
    }

    pub fn len(&self) -> (r: usize)
        ensures
            r == self.items@.len(),
    {
        self.items.len()
    }

    pub fn get(&self, i: usize) -> (r: &H)
        requires
            i < self.items@.len(),
        ensures
            *r == self.items@[i as int],
    {
        &self.items[i]
    }

    /// Add a candidate: merge, append, or evict as `pool_add` says.
    pub fn add(&mut self, candidate: H)
        requires
            old(self).wf(),
            candidate.wf_h(),
        ensures
            final(self).wf(),
            final(self).cap == old(self).cap,
            final(self).items@ == pool_add(old(self).items@, old(self).cap as int, candidate),
    {
        proof {
            lemma_find_merge(self.items@, candidate);
        }
        let ghost s0 = self.items@;
        let n = self.items.len();
        let mut i: usize = 0;
        while i < n
            invariant
                n == self.items@.len(),
                self.items@ == s0,
                self.cap == old(self).cap,
                old(self).wf(),
                s0 == old(self).items@,
                candidate.wf_h(),
                0 <= i <= n,
                forall|k: int| 0 <= k < i ==> !(#[trigger] s0[k]).can_merge(candidate),
            decreases n - i,
        {
            let mut t = self.items[i];
            if t.try_merge(&candidate) {
                proof {
                    assert(find_merge(s0, candidate) == i as int) by {
                        lemma_find_merge(s0, candidate);
                    }
                }
                self.items[i] = t;
                proof {
                    s0[i as int].lemma_merged(candidate, candidate);
                }
                return ;
            }
            i = i + 1;
        }
        // no entry merges
        proof {
            assert(find_merge(s0, candidate) == -1) by {
                lemma_find_merge(s0, candidate);
            }
        }
        if self.items.len() < self.cap {
            self.items.push(candidate);
            return ;
        }
        if self.items.len() == 0 {
            return ;
        }
        // find the weakest entry
        let mut w: usize = 0;
        let mut k: usize = 1;
        while k < n
            invariant
                n == self.items@.len(),
                self.items@ == s0,
                self.cap == old(self).cap,
                old(self).wf(),
                s0 == old(self).items@,
                candidate.wf_h(),
                1 <= k <= n,
                0 <= w < k,
                w as int == weakest_upto(s0, k as int),
            decreases n - k,
        {
            let wh = self.items[w];
            let kh = self.items[k];
            if wh.beats(&kh) {
                w = k;
            }
            k = k + 1;
        }
        let wh = self.items[w];
        if candidate.beats(&wh) {
            self.items[w] = candidate;
        }
    }

    /// A copy of the entries, in order.
    pub fn entries(&self) -> (r: Vec<H>)
        ensures
            r@ == self.items@,
    {
        let mut r: Vec<H> = Vec::new();
        let n = self.items.len();
        let mut i: usize = 0;
        while i < n
            invariant
                n == self.items@.len(),
                0 <= i <= n,
                r@ == self.items@.take(i as int),
            decreases n - i,
        {
            r.push(self.items[i]);
            proof {
                assert(r@ =~= self.items@.take(i as int + 1));
            }
            i = i + 1;
        }
        proof {
            assert(r@ =~= self.items@);
        }
        r
    }

    /// Add every candidate in order.
    pub fn add_all(&mut self, candidates: &Vec<H>)
        requires
            old(self).wf(),
            forall|i: int| 0 <= i < candidates@.len() ==> (#[trigger] candidates@[i]).wf_h(),
        ensures
            final(self).wf(),
            final(self).cap == old(self).cap,
            final(self).items@ == add_seq(old(self).items@, old(self).cap as int, candidates@),
    {
        let n = candidates.len();
        let mut i: usize = 0;
        while i < n
            invariant
                n == candidates@.len(),
                0 <= i <= n,
                self.wf(),
                self.cap == old(self).cap,
                forall|k: int| 0 <= k < n ==> (#[trigger] candidates@[k]).wf_h(),
                self.items@ == add_seq(old(self).items@, old(self).cap as int, candidates@.take(i as int)),
            decreases n - i,
        {
            let c = candidates[i];
            self.add(c);
            proof {
                lemma_add_seq_snoc(old(self).items@, old(self).cap as int, candidates@.take(i as int), c);
                assert(candidates@.take(i as int).push(c) =~= candidates@.take(i as int + 1));
            }
            i = i + 1;
        }
        proof {
            assert(candidates@.take(n as int) =~= candidates@);
        }
    }
}

/// The entries after adding every candidate of a sequence, in order.
pub open spec fn add_seq<H: Hypothesis>(s: Seq<H>, cap: int, cands: Seq<H>) -> Seq<H>
    decreases cands.len(),
{
    if cands.len() == 0 {
        s
    } else {
        add_seq(pool_add(s, cap, cands[0]), cap, cands.drop_first())
    }
}

pub proof fn lemma_add_seq_snoc<H: Hypothesis>(s: Seq<H>, cap: int, cands: Seq<H>, c: H)
    ensures
        add_seq(s, cap, cands.push(c)) == pool_add(add_seq(s, cap, cands), cap, c),
    decreases cands.len(),
{
    if cands.len() == 0 {
        assert(cands.push(c).drop_first() =~= cands);
        assert(add_seq(s, cap, cands.push(c)) == add_seq(pool_add(s, cap, c), cap, cands));
    } else {
        lemma_add_seq_snoc(pool_add(s, cap, cands[0]), cap, cands.drop_first(), c);
        assert(cands.push(c).drop_first() =~= cands.drop_first().push(c));
    }
}

/// Every entry is well-formed after an `add`, whichever case it takes.
pub proof fn lemma_pool_add_wf<H: Hypothesis>(s: Seq<H>, cap: int, c: H)
    requires
        forall|i: int| 0 <= i < s.len() ==> (#[trigger] s[i]).wf_h(),
        c.wf_h(),
    ensures
        forall|i: int|
            0 <= i < pool_add(s, cap, c).len() ==> (#[trigger] pool_add(s, cap, c)[i]).wf_h(),
{
    lemma_find_merge(s, c);
    let j = find_merge(s, c);
    let s2 = pool_add(s, cap, c);
    if j >= 0 {
        s[j].lemma_merged(c, c);
    } else if !(s.len() < cap) && s.len() > 0 {
        lemma_weakest_upto_range(s, s.len() as int);
    }
    assert forall|i: int| 0 <= i < s2.len() implies (#[trigger] s2[i]).wf_h() by {
        if i < s.len() {
            assert(s[i].wf_h());
        }
    }
}

/// Law: adding the same hypothesis (one that merges with an entry) any
/// number of times never grows the pool and never decreases the total
/// evidence weight.
pub proof fn lemma_merge_absorbs_repeatedly<H: Hypothesis>(s: Seq<H>, cap: int, c: H, n: nat)
    requires
        forall|i: int| 0 <= i < s.len() ==> (#[trigger] s[i]).wf_h(),
        c.wf_h(),
        exists|j: int| 0 <= j < s.len() && (#[trigger] s[j]).can_merge(c),
    ensures
        add_seq(s, cap, Seq::new(n, |i: int| c)).len() == s.len(),
        total_weight(add_seq(s, cap, Seq::new(n, |i: int| c))) >= total_weight(s),
    decreases n,
{
    if n == 0 {
        assert(Seq::new(0nat, |i: int| c) =~= Seq::<H>::empty());
    } else {
        lemma_merge_absorbs(s, cap, c);
        lemma_pool_add_wf(s, cap, c);
        let s1 = pool_add(s, cap, c);
        lemma_merge_absorbs_repeatedly(s1, cap, c, (n - 1) as nat);
        assert(Seq::new(n, |i: int| c).drop_first() =~= Seq::new((n - 1) as nat, |i: int| c));
        assert(add_seq(s, cap, Seq::new(n, |i: int| c)) == add_seq(
            s1,
            cap,
            Seq::new((n - 1) as nat, |i: int| c),
        ));
    }
}

/// Law: `add` keeps the pool coalesced — if no two entries can merge with
/// each other, that still holds after a candidate is merged, appended or
/// evicted in.
pub proof fn lemma_pool_coalesced<H: Hypothesis>(s: Seq<H>, cap: int, c: H)
    requires
        forall|i: int| 0 <= i < s.len() ==> (#[trigger] s[i]).wf_h(),
        forall|a: int, b: int|
            0 <= a < b < s.len() ==> !(#[trigger] s[a]).can_merge(#[trigger] s[b]),
        c.wf_h(),
    ensures
        forall|a: int, b: int|
            0 <= a < b < pool_add(s, cap, c).len() ==> !(#[trigger] pool_add(s, cap, c)[a]).can_merge(
                #[trigger] pool_add(s, cap, c)[b],
            ),
{
    lemma_find_merge(s, c);
    let j = find_merge(s, c);
    let s2 = pool_add(s, cap, c);
    if j >= 0 {
        let m = s[j].merged(c);
        assert forall|a: int, b: int| 0 <= a < b < s2.len() implies !(#[trigger] s2[a]).can_merge(
            #[trigger] s2[b],
        ) by {
            if a == j {
                s[j].lemma_merged(c, s[b]);
            } else if b == j {
                s[j].lemma_merged(c, s[a]);
                s[a].lemma_merge_sym(s[j]);
                s[a].lemma_merge_sym(m);
            }
        }
    } else if s.len() < cap {
        assert forall|a: int, b: int| 0 <= a < b < s2.len() implies !(#[trigger] s2[a]).can_merge(
            #[trigger] s2[b],
        ) by {
            if b == s.len() {
                assert(!s[a].can_merge(c));
            }
        }
    } else if s.len() > 0 {
        let w = weakest_upto(s, s.len() as int);
        lemma_weakest_upto_range(s, s.len() as int);
        if c.beats_s(s[w]) {
            assert forall|a: int, b: int|
                0 <= a < b < s2.len() implies !(#[trigger] s2[a]).can_merge(#[trigger] s2[b]) by {
                if a == w {
                    c.lemma_merge_sym(s[b]);
                    assert(!s[b].can_merge(c));
                } else if b == w {
                    assert(!s[a].can_merge(c));
                }
            }
        }
    }
}

/// Law: however a pool is grown by `add`, it never exceeds its capacity.
pub proof fn lemma_pool_bound<H: Hypothesis>(s: Seq<H>, cap: int, c: H)
    requires
        s.len() <= cap,
    ensures
        pool_add(s, cap, c).len() <= cap,
{
    lemma_find_merge(s, c);
    if find_merge(s, c) == -1 && s.len() >= cap && s.len() > 0 {
        lemma_weakest_upto_range(s, s.len() as int);
    }
}

/// Law: adding a hypothesis that merges with an entry (the same hypothesis
/// within tolerance) does not grow the pool, never decreases the total
/// evidence weight, and leaves an entry it would merge with again — so
/// repeated additions of the same hypothesis never grow the pool.
pub proof fn lemma_merge_absorbs<H: Hypothesis>(s: Seq<H>, cap: int, c: H)
    requires
        forall|i: int| 0 <= i < s.len() ==> (#[trigger] s[i]).wf_h(),
        c.wf_h(),
        exists|j: int| 0 <= j < s.len() && (#[trigger] s[j]).can_merge(c),
    ensures
        pool_add(s, cap, c).len() == s.len(),
        total_weight(pool_add(s, cap, c)) >= total_weight(s),
        exists|j: int|
            0 <= j < pool_add(s, cap, c).len() && (#[trigger] pool_add(s, cap, c)[j]).can_merge(c),
{
    lemma_find_merge(s, c);
    let j = find_merge(s, c);
    let jw = choose|jw: int| 0 <= jw < s.len() && (#[trigger] s[jw]).can_merge(c);
    if j == -1 {
        assert(!s[jw].can_merge(c));
    }
    let m = s[j].merged(c);
    s[j].lemma_merged(c, c);
    lemma_total_weight_update(s, j, m);
    s[j].lemma_weight_nonneg();
    assert(pool_add(s, cap, c)[j] == m);
    assert(m.can_merge(c) == s[j].can_merge(c));
}

} // verus!
