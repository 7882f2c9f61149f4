//! The sync batcher: accumulates snapshots, decides when a flush is due and
//! bounds the cache while flushes keep failing.

use vstd::prelude::*;
use num_integer::Integer;

verus! {

/// `m` is the least positive common multiple of `a` and `b`.
pub open spec fn is_lcm(a: int, b: int, m: int) -> bool {
    &&& m > 0
    &&& m % a == 0
    &&& m % b == 0
    &&& forall|k: int| k > 0 && #[trigger] (k % a) == 0 && k % b == 0 ==> m <= k
}

/// Relies on `num_integer::Integer::lcm` for `u128`: the least common
/// multiple, computed as `a * (b / gcd(a, b))`, which cannot overflow when
/// `a * b` fits.
#[verifier::external_body]
fn lcm_u128(a: u128, b: u128) -> (r: u128)
    requires
        a >= 1,
        b >= 1,
        a * b <= u128::MAX,
    ensures
        is_lcm(a as int, b as int, r as int),
{
    a.lcm(&b)
}

/// The least common multiple of `a` and `b` is at most `bound`.
pub open spec fn lcm_within(a: int, b: int, bound: int) -> bool {
    exists|m: int| is_lcm(a, b, m) && m <= bound
}

/// Two least common multiples of the same pair are equal.
proof fn lemma_lcm_unique(a: int, b: int, m1: int, m2: int)
    requires
        is_lcm(a, b, m1),
        is_lcm(a, b, m2),
    ensures
        m1 == m2,
{
    assert(m1 % a == 0);
    assert(m2 % a == 0);
}

/// Once the cache holds this many thresholds' worth of snapshots, a failed
/// flush drains the oldest ones.
pub const DRAIN_TRIGGER: u64 = 10;

/// How many thresholds' worth of the oldest snapshots a drain removes.
pub const DRAIN_SPAN: u64 = 2;

/// A flush is due when the tick counter is a positive multiple of the threshold.
pub open spec fn flush_due(counter: nat, threshold: nat) -> bool {
    counter > 0 && counter % threshold == 0
}

/// The cache after a failed flush: the oldest `DRAIN_SPAN * threshold`
/// entries go once it has reached `DRAIN_TRIGGER * threshold` entries.
pub open spec fn after_failure<T>(cache: Seq<T>, threshold: nat) -> Seq<T> {
    if cache.len() >= DRAIN_TRIGGER * threshold {
        cache.subrange((DRAIN_SPAN * threshold) as int, cache.len() as int)
    } else {
        cache
    }
}

/// The tick counter after `n` ticks from a reset, every due flush succeeding.
pub open spec fn counter_after(threshold: nat, n: nat) -> nat
    decreases n,
{
    if n == 0 {
        0
    } else {
        let c = counter_after(threshold, (n - 1) as nat) + 1;
        if flush_due(c, threshold) { 0 } else { c }
    }
}

/// Whether the `n`-th tick (from 1) after a reset asks for a flush, every
/// earlier due flush having succeeded.
pub open spec fn flushes_at_tick(threshold: nat, n: nat) -> bool {
    n >= 1 && flush_due(counter_after(threshold, (n - 1) as nat) + 1, threshold)
}

/// Cache of snapshots awaiting shipment and the tick counter since the last
/// successful flush.
pub struct SyncBatcher<T> {
    cache: Vec<T>,
    counter: u64,
    threshold: u64,
}

impl<T> SyncBatcher<T> {
    /// The threshold is positive.
    pub open spec fn wf(&self) -> bool {
        self.threshold_view() >= 1
    }

    pub closed spec fn cache_view(&self) -> Seq<T> {
        self.cache@
    }

    pub closed spec fn counter_view(&self) -> nat {
        self.counter as nat
    }

    pub closed spec fn threshold_view(&self) -> nat {
        self.threshold as nat
    }

    /// A batcher for the given harvest interval `h` (seconds) and syncing
    /// interval `s`, with threshold `lcm(h, s)`, an empty cache and counter 0.
    /// `None` when an interval is zero or their lcm does not fit in 64 bits.
    pub fn new(harvest_interval: u64, syncing_interval: u64) -> (r: Option<Self>)
        ensures
            r is Some <==> (harvest_interval >= 1 && syncing_interval >= 1
                && lcm_within(harvest_interval as int, syncing_interval as int, u64::MAX as int)),
            r matches Some(b) ==> {
                &&& b.wf()
                &&& is_lcm(harvest_interval as int, syncing_interval as int, b.threshold_view() as int)
                &&& b.cache_view() == Seq::<T>::empty()
                &&& b.counter_view() == 0
            },
    {
        if harvest_interval == 0 || syncing_interval == 0 {
            return None;
        }
        let h = harvest_interval as u128;
        let s = syncing_interval as u128;
        proof {
            assert(h * s <= u128::MAX) by (nonlinear_arith)
                requires h <= u64::MAX, s <= u64::MAX;
        }
        let t = lcm_u128(h, s);
        if t > u64::MAX as u128 {
            proof {
                assert forall|m: int| is_lcm(h as int, s as int, m) implies m > u64::MAX by {
                    lemma_lcm_unique(h as int, s as int, m, t as int);
                }
            }
            return None;
        }
        Some(SyncBatcher { cache: Vec::new(), counter: 0, threshold: t as u64 })
    }

    /// Ticks between flush attempts.
    pub fn threshold(&self) -> (r: u64)
        ensures
            r == self.threshold_view(),
    {
        self.threshold
    }

    /// Ticks since the last successful flush.
    pub fn counter(&self) -> (r: u64)
        ensures
            r == self.counter_view(),
    {
        self.counter
    }

    /// The snapshots awaiting shipment, oldest first.
    pub fn cache(&self) -> (r: &Vec<T>)
        ensures
            r@ == self.cache_view(),
    {
        &self.cache
    }

    /// Appends this tick's snapshot and counts the tick; returns whether a
    /// flush of the whole cache is now due.
    pub fn tick(&mut self, item: T) -> (due: bool)
        requires
            old(self).wf(),
            old(self).counter_view() < u64::MAX,
        ensures
            final(self).wf(),
            final(self).threshold_view() == old(self).threshold_view(),
            final(self).cache_view() == old(self).cache_view().push(item),
            final(self).counter_view() == old(self).counter_view() + 1,
            due == flush_due(final(self).counter_view(), final(self).threshold_view()),
    {
        self.cache.push(item);
        self.counter = self.counter + 1;
        self.counter % self.threshold == 0
    }

    /// The flush went through: the cache is emptied and the counter reset.
    pub fn flush_succeeded(&mut self)
        requires
            old(self).wf(),
        ensures
            final(self).wf(),
            final(self).threshold_view() == old(self).threshold_view(),
            final(self).cache_view() == Seq::<T>::empty(),
            final(self).counter_view() == 0,
    {
        self.cache.clear();
        self.counter = 0;
    }

    /// The flush failed: the cache is kept for the next attempt, except that
    /// once it has reached `DRAIN_TRIGGER` thresholds the oldest `DRAIN_SPAN`
    /// thresholds' worth is dropped. Returns how many snapshots were dropped.
    pub fn flush_failed(&mut self) -> (dropped: usize)
        requires
            old(self).wf(),
        ensures
            final(self).wf(),
            final(self).threshold_view() == old(self).threshold_view(),
            final(self).counter_view() == old(self).counter_view(),
            final(self).cache_view() == after_failure(old(self).cache_view(), old(self).threshold_view()),
            dropped == old(self).cache_view().len() - final(self).cache_view().len(),
    {
        let len = self.cache.len();
        if (len as u128) >= (DRAIN_TRIGGER as u128) * (self.threshold as u128) {
            let span = (DRAIN_SPAN * self.threshold) as usize;
            let kept = self.cache.split_off(span);
            self.cache = kept;
            span
        } else {
            0
        }
    }
}

/// After `n` ticks from a reset with every due flush succeeding, the counter
/// is `n mod threshold`.
proof fn lemma_counter_after(threshold: nat, n: nat)
    requires
        threshold >= 1,
    ensures
        counter_after(threshold, n) == n % threshold,
    decreases n,
{
    if n == 0 {
        assert(0nat % threshold == 0) by (nonlinear_arith)
            requires threshold >= 1;
    } else {
        lemma_counter_after(threshold, (n - 1) as nat);
        let p = (n - 1) as nat;
        assert(p % threshold < threshold) by (nonlinear_arith)
            requires threshold >= 1;
        let c = p % threshold + 1;
        if c == threshold {
            assert(n % threshold == 0) by (nonlinear_arith)
                requires p % threshold + 1 == threshold, n == p + 1, threshold >= 1;
            assert(c % threshold == 0) by (nonlinear_arith)
                requires c == threshold, threshold >= 1;
        } else {
            assert(n % threshold == p % threshold + 1) by (nonlinear_arith)
                requires p % threshold + 1 < threshold, n == p + 1, threshold >= 1;
            assert(c % threshold == c) by (nonlinear_arith)
                requires c < threshold, c >= 1;
        }
    }
}

/// Flush cadence: for intervals `h, s >= 1` with threshold `t = lcm(h, s)`,
/// when every due flush succeeds, the `n`-th tick asks for a flush exactly
/// when `n` is a positive multiple of `t`.
pub proof fn law_flush_cadence(h: int, s: int, t: nat, n: nat)
    requires
        h >= 1,
        s >= 1,
        is_lcm(h, s, t as int),
    ensures
        flushes_at_tick(t, n) <==> (n >= 1 && n % t == 0),
{
    if n >= 1 {
        // The n-th tick resets the counter exactly when it flushes; otherwise
        // it leaves the positive count `counter_after(t, n - 1) + 1`.
        lemma_counter_after(t, n);
    }
}

} // verus!
