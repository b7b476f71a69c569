//! Measured extents for a collection of variably sized items.

use std::collections::HashMap;
use std::ops::Range;
use vstd::prelude::*;

use super::fenwick::{lemma_sum_split, lemma_sum_update, seq_sum, Fenwick};
use super::{ceil_div, min_int, sat_sub, Uniform, Window};

verus! {

/// Measured extents for a collection of variably sized items on one scroll axis.
///
/// Every item starts at an estimated extent; recording a real measurement replaces the
/// estimate for that item and shifts every later offset. The cache answers the same
/// window question as [`Uniform`](super::Uniform), plus offset queries against the mix
/// of measured and estimated extents.
///
/// A measurement that arrives above the current viewport shifts the content under the
/// user's eyes unless the scroll offset absorbs it — [`record`](Self::record) returns
/// the signed extent change so the caller can apply that anchoring compensation.
pub struct MeasurementCache {
    estimate: u16,
    /// Recorded measurements by item index.
    measured: HashMap<usize, u16>,
    /// Fenwick tree over each item's signed difference from the estimate, so offset
    /// queries stay logarithmic no matter how much of the collection has been measured.
    deltas: Fenwick,
}

/// Sum of a sequence of non-negative values bounded by `m`.
proof fn lemma_sum_nonneg_bound(s: Seq<int>, a: int, b: int, m: int)
    requires
        0 <= a <= b <= s.len(),
        forall|k: int| 0 <= k < s.len() ==> 0 <= #[trigger] s[k] <= m,
    ensures
        0 <= seq_sum(s, a, b) <= (b - a) * m,
    decreases b - a,
{
    if b > a {
        lemma_sum_nonneg_bound(s, a, b - 1, m);
        assert(0 <= s[b - 1] <= m);
        assert((b - a) * m == (b - 1 - a) * m + m) by (nonlinear_arith);
        assert(seq_sum(s, a, b) == seq_sum(s, a, b - 1) + s[b - 1]);
    } else {
        assert((b - a) * m == 0) by (nonlinear_arith)
            requires b == a;
    }
}

/// A prefix of sums over a non-negative sequence never shrinks.
proof fn lemma_sum_monotone(s: Seq<int>, i: int, j: int)
    requires
        0 <= i <= j <= s.len(),
        forall|k: int| 0 <= k < s.len() ==> 0 <= #[trigger] s[k] <= 65535,
    ensures
        seq_sum(s, 0, i) <= seq_sum(s, 0, j),
{
    lemma_sum_split(s, 0, i, j);
    lemma_sum_nonneg_bound(s, i, j, 65535);
}

/// The first `k` items of a sequence that is `e` everywhere sum to `k * e`.
proof fn lemma_constant_sum(s: Seq<int>, e: int, k: int)
    requires
        0 <= k <= s.len(),
        forall|i: int| 0 <= i < s.len() ==> s[i] == e,
    ensures
        seq_sum(s, 0, k) == k * e,
    decreases k,
{
    if k > 0 {
        lemma_constant_sum(s, e, k - 1);
        assert(seq_sum(s, 0, k) == seq_sum(s, 0, k - 1) + s[k - 1]);
        assert(k * e == (k - 1) * e + e) by (nonlinear_arith);
    } else {
        assert(k * e == 0) by (nonlinear_arith)
            requires
                k == 0,
        ;
    }
}

impl MeasurementCache {
    /// Whether a collection of `count` items can be tracked exactly.
    ///
    /// Offsets of `count` items of up to `u16::MAX` cells each must stay exact in the
    /// signed partial sums; anything larger overflows.
    pub open spec fn fits(count: int) -> bool {
        Fenwick::fits(count)
    }

    /// Number of items.
    pub closed spec fn spec_count(&self) -> nat {
        self.deltas.values().len()
    }

    /// The estimated extent of unmeasured items.
    pub closed spec fn spec_estimate(&self) -> u16 {
        self.estimate
    }

    /// Recorded measurements by item index.
    pub closed spec fn measurements(&self) -> Map<usize, u16> {
        self.measured@
    }

    /// An item's current extent: its measurement, or the estimate.
    pub open spec fn spec_extent(&self, index: int) -> int {
        if index >= 0 && self.measurements().contains_key(index as usize) {
            self.measurements()[index as usize] as int
        } else {
            self.spec_estimate() as int
        }
    }

    /// Every item's current extent, in order.
    pub open spec fn extents(&self) -> Seq<int> {
        Seq::new(self.spec_count(), |i: int| self.spec_extent(i))
    }

    /// The start of item `index`: the extents of every item before it. Indices past
    /// the end clamp to the collection's total extent.
    pub open spec fn spec_offset(&self, index: int) -> int {
        seq_sum(self.extents(), 0, min_int(index, self.spec_count() as int))
    }

    /// Total extent of the collection.
    pub open spec fn spec_total(&self) -> int {
        self.spec_offset(self.spec_count() as int)
    }

    pub closed spec fn wf(&self) -> bool {
        &&& self.deltas.wf()
        &&& forall|k: usize| #[trigger] self.measured@.contains_key(k) ==> k < self.spec_count()
        &&& forall|i: int|
            0 <= i < self.spec_count() ==> #[trigger] self.deltas.values()[i] == self.spec_extent(i)
                - self.estimate
    }

    proof fn lemma_wf_facts(&self)
        requires
            self.wf(),
        ensures
            Self::fits(self.spec_count() as int),
    {
        self.deltas.lemma_wf_fits();
    }

    /// Offsets computed from the estimate and the signed differences agree with the
    /// extents, and stay within `[0, index * u16::MAX]`.
    proof fn lemma_offset_split(&self, index: int)
        requires
            self.wf(),
            0 <= index <= self.spec_count(),
        ensures
            seq_sum(self.extents(), 0, index) == index * self.estimate + seq_sum(
                self.deltas.values(),
                0,
                index,
            ),
            0 <= seq_sum(self.extents(), 0, index) <= index * 65535,
        decreases index,
    {
        let ext = self.extents();
        assert forall|k: int| 0 <= k < ext.len() implies 0 <= #[trigger] ext[k] <= 65535 by {}
        lemma_sum_nonneg_bound(ext, 0, index, 65535);
        if index > 0 {
            self.lemma_offset_split(index - 1);
            let d = self.deltas.values();
            assert(seq_sum(ext, 0, index) == seq_sum(ext, 0, index - 1) + ext[index - 1]);
            assert(seq_sum(d, 0, index) == seq_sum(d, 0, index - 1) + d[index - 1]);
            assert(d[index - 1] == self.spec_extent(index - 1) - self.estimate);
            assert(index * self.estimate == (index - 1) * self.estimate + self.estimate)
                by (nonlinear_arith);
        } else {
            assert(index * self.estimate == 0) by (nonlinear_arith)
                requires index == 0;
        }
    }

    /// Create a cache of `count` items, each estimated at `estimate` cells.
    pub fn new(count: usize, estimate: u16) -> (cache: Self)
        requires
            Self::fits(count as int),
        ensures
            cache.wf(),
            cache.spec_count() == count,
            cache.spec_estimate() == estimate,
            cache.measurements() == Map::<usize, u16>::empty(),
    {
        let cache = Self { estimate, measured: HashMap::new(), deltas: Fenwick::new(count) };
        cache
    }

    /// Number of items in the collection.
    pub fn count(&self) -> (count: usize)
        requires
            self.wf(),
        ensures
            count == self.spec_count(),
    {
        self.deltas.len()
    }

    /// The estimated extent unmeasured items are given.
    pub fn estimate(&self) -> (estimate: u16)
        ensures
            estimate == self.spec_estimate(),
    {
        self.estimate
    }

    /// Resize the collection, keeping measurements for items that remain.
    ///
    /// Items keep their indices: growing appends estimated items, shrinking drops
    /// measurements from the removed tail.
    pub fn set_count(&mut self, count: usize)
        requires
            old(self).wf(),
            Self::fits(count as int),
        ensures
            final(self).wf(),
            final(self).spec_count() == count,
            final(self).spec_estimate() == old(self).spec_estimate(),
            final(self).measurements() == old(self).measurements().restrict(
                Set::new(|index: usize| index < count),
            ),
    {
        let old_count = self.count();
        let keep = if old_count < count { old_count } else { count };
        let ghost old_measured = self.measured@;
        let mut measured: HashMap<usize, u16> = HashMap::new();
        let mut deltas = Fenwick::new(count);
        let mut index: usize = 0;
        while index < keep
            invariant
                self.wf(),
                self.measured@ == old_measured,
                old_count == self.spec_count(),
                keep <= old_count,
                keep <= count,
                index <= keep,
                deltas.wf(),
                deltas.values().len() == count,
                forall|k: usize| #[trigger] measured@.contains_key(k) ==> k < index
                    && old_measured.contains_key(k) && measured@[k] == old_measured[k],
                forall|k: usize|
                    k < index && #[trigger] old_measured.contains_key(k) ==> measured@.contains_key(k)
                        && measured@[k] == old_measured[k],
                forall|i: int|
                    0 <= i < count ==> #[trigger] deltas.values()[i] == (if 0 <= i < index
                        && measured@.contains_key(i as usize) {
                        measured@[i as usize] - self.estimate
                    } else {
                        0
                    }),
            decreases keep - index,
        {
            match self.measured.get(&index) {
                Some(extent) => {
                    let extent = *extent;
                    measured.insert(index, extent);
                    deltas.add(index, extent as i64 - self.estimate as i64);
                },
                None => {},
            }
            index += 1;
        }
        self.measured = measured;
        self.deltas = deltas;
        assert(self.measured@ =~= old_measured.restrict(Set::new(|k: usize| k < count)));
        assert forall|i: int| 0 <= i < self.spec_count() implies #[trigger] self.deltas.values()[i]
            == self.spec_extent(i) - self.estimate by {}
    }

    /// Record an item's measured extent, replacing its estimate.
    ///
    /// Returns how many cells the item grew or shrank by — the anchoring compensation:
    /// when the item lies above the viewport, adding this to the scroll offset keeps
    /// the content on screen visually pinned. An index outside the collection records
    /// nothing and returns zero.
    pub fn record(&mut self, index: usize, extent: u16) -> (delta: i64)
        requires
            old(self).wf(),
        ensures
            final(self).wf(),
            final(self).spec_count() == old(self).spec_count(),
            final(self).spec_estimate() == old(self).spec_estimate(),
            index < old(self).spec_count() ==> {
                &&& final(self).measurements() == old(self).measurements().insert(index, extent)
                &&& delta == extent - old(self).spec_extent(index as int)
            },
            index >= old(self).spec_count() ==> {
                &&& final(self).measurements() == old(self).measurements()
                &&& delta == 0
            },
    {
        if index >= self.count() {
            return 0;
        }
        let previous = match self.measured.insert(index, extent) {
            Some(previous) => previous,
            None => self.estimate,
        };
        let delta = extent as i64 - previous as i64;
        assert(previous == old(self).spec_extent(index as int));
        assert(self.spec_extent(index as int) == extent);
        if delta != 0 {
            self.deltas.add(index, delta);
        }
        proof {
            assert forall|i: int| 0 <= i < self.spec_count() implies #[trigger] self.deltas.values()[i]
                == self.spec_extent(i) - self.estimate by {
                if i == index as int {
                    assert(self.spec_extent(i) == extent);
                } else {
                    assert(i as usize != index);
                    assert(self.spec_extent(i) == old(self).spec_extent(i));
                    assert(self.deltas.values()[i] == old(self).deltas.values()[i]);
                }
            }
        }
        delta
    }

    /// Drop an item's measurement, reverting it to the estimate.
    pub fn invalidate(&mut self, index: usize)
        requires
            old(self).wf(),
        ensures
            final(self).wf(),
            final(self).spec_count() == old(self).spec_count(),
            final(self).spec_estimate() == old(self).spec_estimate(),
            final(self).measurements() == old(self).measurements().remove(index),
    {
        proof {
            self.lemma_wf_facts();
        }
        match self.measured.remove(&index) {
            Some(extent) => {
                self.deltas.add(index, self.estimate as i64 - extent as i64);
            },
            None => {},
        }
        proof {
            assert forall|i: int| 0 <= i < self.spec_count() implies #[trigger] self.deltas.values()[i]
                == self.spec_extent(i) - self.estimate by {
                if i == index as int {
                    assert(self.spec_extent(i) == self.estimate);
                } else {
                    assert(i as usize != index);
                    assert(self.spec_extent(i) == old(self).spec_extent(i));
                    assert(self.deltas.values()[i] == old(self).deltas.values()[i]);
                }
            }
        }
    }

    /// Drop the measurements of a range of items.
    pub fn invalidate_range(&mut self, range: Range<usize>)
        requires
            old(self).wf(),
        ensures
            final(self).wf(),
            final(self).spec_count() == old(self).spec_count(),
            final(self).spec_estimate() == old(self).spec_estimate(),
            final(self).measurements() == old(self).measurements().remove_keys(
                Set::new(|index: usize| range.start <= index < range.end),
            ),
    {
        let ghost measured_before = self.measurements();
        let mut index = range.start;
        while index < range.end
            invariant
                self.wf(),
                self.spec_count() == old(self).spec_count(),
                self.spec_estimate() == old(self).spec_estimate(),
                measured_before == old(self).measurements(),
                range.start <= index,
                range.start <= range.end ==> index <= range.end,
                range.start > range.end ==> index == range.start,
                forall|k: usize|
                    #[trigger] self.measurements().contains_key(k) == (measured_before.contains_key(k)
                        && !(range.start <= k < index)),
                forall|k: usize|
                    #[trigger] self.measurements().contains_key(k) ==> self.measurements()[k]
                        == measured_before[k],
            decreases range.end - index,
        {
            self.invalidate(index);
            index += 1;
        }
        let ghost removed = Set::new(|k: usize| range.start <= k < range.end);
        assert forall|k: usize| #[trigger] self.measurements().contains_key(k)
            <==> measured_before.remove_keys(removed).contains_key(k) by {
            assert(removed.contains(k) <==> (range.start <= k < index));
        }
        assert(self.measurements() =~= measured_before.remove_keys(removed));
    }

    /// Drop every measurement, reverting the whole collection to estimates.
    pub fn invalidate_all(&mut self)
        requires
            old(self).wf(),
        ensures
            final(self).wf(),
            final(self).spec_count() == old(self).spec_count(),
            final(self).spec_estimate() == old(self).spec_estimate(),
            final(self).measurements() == Map::<usize, u16>::empty(),
    {
        let count = self.count();
        proof {
            self.lemma_wf_facts();
        }
        self.measured.clear();
        self.deltas = Fenwick::new(count);
    }

    /// An item's current extent: its measurement, or the estimate.
    pub fn extent_of(&self, index: usize) -> (extent: u16)
        requires
            self.wf(),
        ensures
            extent == self.spec_extent(index as int),
    {
        match self.measured.get(&index) {
            Some(extent) => *extent,
            None => self.estimate,
        }
    }

    /// The offset of an item's start: what to scroll to for bringing it to the start
    /// of the viewport. `offset_of(count)` is the total extent.
    pub fn offset_of(&self, index: usize) -> (offset: u64)
        requires
            self.wf(),
        ensures
            offset == self.spec_offset(index as int),
    {
        let count = self.count();
        let index = if index < count { index } else { count };
        proof {
            self.lemma_wf_facts();
            self.lemma_offset_split(index as int);
            assert(index * self.estimate <= count * 65535) by (nonlinear_arith)
                requires index <= count, self.estimate <= 65535;
            assert(index * 65535 <= count * 65535) by (nonlinear_arith)
                requires index <= count;
        }
        let estimated = index as u64 * self.estimate as u64;
        let delta = self.deltas.prefix_sum(index);
        if delta >= 0 {
            estimated + delta as u64
        } else {
            estimated - (-delta) as u64
        }
    }

    /// An unmeasured cache sizes items as uniform ones of the estimate do: item `i`
    /// starts at `i * estimate` (clamped to the end), and the total is
    /// `count * estimate`.
    pub proof fn lemma_unmeasured_is_uniform(&self, index: int)
        requires
            self.measurements() == Map::<usize, u16>::empty(),
            0 <= index,
        ensures
            self.spec_offset(index) == min_int(index, self.spec_count() as int) * self.spec_estimate(),
            self.spec_total() == self.spec_count() * self.spec_estimate(),
    {
        let ext = self.extents();
        let e = self.spec_estimate() as int;
        assert forall|i: int| 0 <= i < ext.len() implies ext[i] == e by {
            assert(!self.measurements().contains_key(i as usize));
        }
        lemma_constant_sum(ext, e, min_int(index, self.spec_count() as int));
        lemma_constant_sum(ext, e, self.spec_count() as int);
    }

    /// An unmeasured cache windows as uniform items of the estimate do, for any scroll
    /// offset inside the collection.
    pub proof fn lemma_unmeasured_window_is_uniform(&self, offset: int, viewport: int, overscan: int)
        requires
            self.wf(),
            self.measurements() == Map::<usize, u16>::empty(),
            self.spec_estimate() > 0,
            0 <= offset < self.spec_count() * self.spec_estimate(),
            0 <= viewport,
            0 <= overscan,
        ensures
            ({
                let uniform = Uniform { count: self.spec_count() as usize, stride: self.spec_estimate() };
                &&& self.window_start(offset, overscan) == uniform.window_start(offset, overscan)
                &&& self.window_end(offset, viewport, overscan) == uniform.window_end(offset, viewport, overscan)
                &&& self.spec_total() == uniform.count * uniform.stride
            }),
    {
        self.lemma_wf_facts();
        let n = self.spec_count() as int;
        let e = self.spec_estimate() as int;
        assert forall|i: int| 0 <= i <= n implies #[trigger] self.spec_offset(i) == i * e by {
            self.lemma_unmeasured_is_uniform(i);
        }
        self.lemma_unmeasured_is_uniform(n);
        // The first visible item.
        let first = offset / e;
        assert(first * e <= offset < (first + 1) * e && first < n) by (nonlinear_arith)
            requires
                e > 0,
                first == offset / e,
                0 <= offset < n * e,
        ;
        assert forall|i: int| 0 <= i < first implies #[trigger] self.before_bound(i, offset, true) by {
            assert((i + 1) * e <= first * e) by (nonlinear_arith)
                requires
                    i + 1 <= first,
                    e > 0,
            ;
        }
        assert forall|i: int| first <= i < n implies !#[trigger] self.before_bound(i, offset, true) by {
            assert((i + 1) * e >= (first + 1) * e) by (nonlinear_arith)
                requires
                    i >= first,
                    e > 0,
            ;
        }
        assert(self.is_partition(first, offset, true));
        self.lemma_partition_is_least(offset, true);
        self.lemma_partition_unique(first, self.partition_point(offset, true), offset, true);
        // The end of the visible items.
        let bound = offset + viewport;
        let up = ceil_div(bound, e);
        let end = min_int(up, n);
        assert forall|i: int| 0 <= i < end implies #[trigger] self.before_bound(i, bound, false) by {
            assert(i * e < bound) by (nonlinear_arith)
                requires
                    0 <= i < up,
                    up == bound / e + if bound % e != 0 { 1int } else { 0int },
                    e > 0,
                    bound >= 0,
            ;
        }
        assert forall|i: int| end <= i < n implies !#[trigger] self.before_bound(i, bound, false) by {
            assert(i * e >= bound) by (nonlinear_arith)
                requires
                    i >= up,
                    up == bound / e + if bound % e != 0 { 1int } else { 0int },
                    e > 0,
                    bound >= 0,
            ;
        }
        assert(self.is_partition(end, bound, false));
        self.lemma_partition_is_least(bound, false);
        self.lemma_partition_unique(end, self.partition_point(bound, false), bound, false);
        assert(first <= up) by (nonlinear_arith)
            requires
                first == offset / e,
                up == bound / e + if bound % e != 0 { 1int } else { 0int },
                offset <= bound,
                e > 0,
        ;
    }

    /// An index past the end has no measurement: its extent is the estimate.
    pub proof fn lemma_extent_past_end(&self, index: int)
        requires
            self.wf(),
            self.spec_count() <= index <= usize::MAX,
        ensures
            self.spec_extent(index) == self.spec_estimate(),
    {
        assert(!self.measurements().contains_key(index as usize));
    }

    /// Every recorded measurement belongs to an item of the collection.
    pub proof fn lemma_measurements_in_range(&self)
        requires
            self.wf(),
        ensures
            forall|k: usize| #[trigger] self.measurements().contains_key(k) ==> k < self.spec_count(),
    {
    }

    /// Offsets never decrease along the collection.
    pub proof fn lemma_offset_monotone(&self, i: int, j: int)
        requires
            self.wf(),
            i <= j,
        ensures
            0 <= self.spec_offset(i) <= self.spec_offset(j),
    {
        let ext = self.extents();
        let n = self.spec_count() as int;
        assert forall|k: int| 0 <= k < ext.len() implies 0 <= #[trigger] ext[k] <= 65535 by {}
        if j >= 0 {
            lemma_sum_nonneg_bound(ext, 0, min_int(j, n), 65535);
        }
        if i >= 0 {
            lemma_sum_nonneg_bound(ext, 0, min_int(i, n), 65535);
            lemma_sum_monotone(ext, min_int(i, n), min_int(j, n));
        }
    }

    /// Whether item `index` lies before `bound`: with `next`, whether the item ends at
    /// or before it; otherwise whether the item starts before it.
    pub open spec fn before_bound(&self, index: int, bound: int, next: bool) -> bool {
        if next {
            self.spec_offset(index + 1) <= bound
        } else {
            self.spec_offset(index) < bound
        }
    }

    /// Whether `r` splits the items into those before `bound` and those not.
    pub open spec fn is_partition(&self, r: int, bound: int, next: bool) -> bool {
        &&& 0 <= r <= self.spec_count()
        &&& forall|i: int| 0 <= i < r ==> #[trigger] self.before_bound(i, bound, next)
        &&& forall|i: int| r <= i < self.spec_count() ==> !#[trigger] self.before_bound(i, bound, next)
    }

    /// The first item not before `bound`; the item count if there is none.
    pub open spec fn partition_point(&self, bound: int, next: bool) -> int {
        choose|r: int| self.is_partition(r, bound, next)
    }

    /// A split point exists: the items before `bound` form a prefix, since offsets
    /// never decrease.
    proof fn lemma_partition_exists(&self, bound: int, next: bool, i: int)
        requires
            self.wf(),
            0 <= i <= self.spec_count(),
            forall|j: int| 0 <= j < i ==> #[trigger] self.before_bound(j, bound, next),
        ensures
            exists|r: int| self.is_partition(r, bound, next),
        decreases self.spec_count() - i,
    {
        if i == self.spec_count() {
            assert(self.is_partition(i, bound, next));
        } else if !self.before_bound(i, bound, next) {
            assert forall|j: int| i <= j < self.spec_count() implies !#[trigger] self.before_bound(j, bound, next) by {
                self.lemma_offset_monotone(i, j);
                self.lemma_offset_monotone(i + 1, j + 1);
            }
            assert(self.is_partition(i, bound, next));
        } else {
            self.lemma_partition_exists(bound, next, i + 1);
        }
    }

    /// The window's edges are least indices: `partition_point(bound, next)` is the
    /// first item not before `bound` — with `next`, the first item ending past
    /// `bound`; without, the first starting at or past it — or the count if every
    /// item is.
    pub proof fn lemma_partition_is_least(&self, bound: int, next: bool)
        requires
            self.wf(),
        ensures
            0 <= self.partition_point(bound, next) <= self.spec_count(),
            forall|i: int| 0 <= i < self.partition_point(bound, next) ==> #[trigger] self.before_bound(i, bound, next),
            self.partition_point(bound, next) < self.spec_count() ==> !self.before_bound(
                self.partition_point(bound, next),
                bound,
                next,
            ),
    {
        self.lemma_partition_exists(bound, next, 0);
    }

    /// The split point is unique whenever it exists.
    pub proof fn lemma_partition_unique(&self, r1: int, r2: int, bound: int, next: bool)
        requires
            self.is_partition(r1, bound, next),
            self.is_partition(r2, bound, next),
        ensures
            r1 == r2,
    {
        if r1 < r2 {
            assert(self.before_bound(r1, bound, next));
        } else if r2 < r1 {
            assert(self.before_bound(r2, bound, next));
        }
    }

    /// Binary search for the split point of the monotone predicate `before_bound`.
    fn partition(&self, bound: u64, next: bool) -> (r: usize)
        requires
            self.wf(),
        ensures
            self.is_partition(r as int, bound as int, next),
            r == self.partition_point(bound as int, next),
    {
        let count = self.count();
        let mut low: usize = 0;
        let mut high: usize = count;
        while low < high
            invariant
                self.wf(),
                count == self.spec_count(),
                low <= high <= count,
                forall|i: int| 0 <= i < low ==> #[trigger] self.before_bound(i, bound as int, next),
                forall|i: int| high <= i < count ==> !#[trigger] self.before_bound(i, bound as int, next),
            decreases high - low,
        {
            let mid = low + (high - low) / 2;
            let before = if next {
                self.offset_of(mid + 1) <= bound
            } else {
                self.offset_of(mid) < bound
            };
            if before {
                proof {
                    assert forall|i: int| 0 <= i < mid + 1 implies #[trigger] self.before_bound(i, bound as int, next) by {
                        if next {
                            self.lemma_offset_monotone(i + 1, mid + 1);
                        } else {
                            self.lemma_offset_monotone(i, mid as int);
                        }
                    }
                }
                low = mid + 1;
            } else {
                proof {
                    assert forall|i: int| mid <= i < count implies !#[trigger] self.before_bound(i, bound as int, next) by {
                        if next {
                            self.lemma_offset_monotone(mid + 1, i + 1);
                        } else {
                            self.lemma_offset_monotone(mid as int, i);
                        }
                    }
                }
                high = mid;
            }
        }
        proof {
            let r = choose|r: int| self.is_partition(r, bound as int, next);
            assert(self.is_partition(low as int, bound as int, next));
            self.lemma_partition_unique(r, low as int, bound as int, next);
        }
        low
    }

    /// Start of the window: the first item reaching past `offset`, less the overscan.
    pub open spec fn window_start(&self, offset: int, overscan: int) -> int {
        min_int(sat_sub(self.partition_point(offset, true), overscan), self.spec_count() as int)
    }

    /// End of the window: the first item starting at or past `offset + viewport`,
    /// plus the overscan, never before the start.
    pub open spec fn window_end(&self, offset: int, viewport: int, overscan: int) -> int {
        let end = min_int(
            self.partition_point(offset + viewport, false) + overscan,
            self.spec_count() as int,
        );
        if end < self.window_start(offset, overscan) {
            self.window_start(offset, overscan)
        } else {
            end
        }
    }

    /// The window covering a scrollport, padded by `overscan` items on each side.
    ///
    /// Same contract as [`Uniform::window`](super::Uniform::window): an item straddling
    /// either edge is included, and spacers cover everything outside the window.
    pub fn window(&self, offset: u16, viewport: u16, overscan: usize) -> (window: Window)
        requires
            self.wf(),
        ensures
            window.items.start == self.window_start(offset as int, overscan as int),
            window.items.end == self.window_end(offset as int, viewport as int, overscan as int),
            window.items.start <= window.items.end <= self.spec_count(),
            window.lead == self.spec_offset(window.items.start as int),
            window.trail == self.spec_total() - self.spec_offset(window.items.end as int),
            window.lead + (self.spec_offset(window.items.end as int) - self.spec_offset(
                window.items.start as int,
            )) + window.trail == self.spec_total(),
    {
        let count = self.count();
        let offset = offset as u64;
        let viewport_end = offset + viewport as u64;

        let first_visible = self.partition(offset, true);
        let end_visible = self.partition(viewport_end, false);

        let lowered = first_visible.saturating_sub(overscan);
        let start = if lowered < count { lowered } else { count };
        let raised = end_visible.saturating_add(overscan);
        let end = if raised < count { raised } else { count };
        let end = if end < start { start } else { end };

        let lead = self.offset_of(start);
        let total = self.total_extent();
        let until_end = self.offset_of(end);
        proof {
            self.lemma_offset_monotone(end as int, count as int);
        }
        Window { items: start..end, lead, trail: total - until_end }
    }

    /// Total extent of the collection in cells — what the container's content
    /// measures with both spacers in place.
    pub fn total_extent(&self) -> (total: u64)
        requires
            self.wf(),
        ensures
            total == self.spec_total(),
    {
        self.offset_of(self.count())
    }
}

/// Anchoring law: measuring item `index` leaves every offset up to and including the
/// item's own start where it was and shifts every later offset by exactly the change
/// in the item's extent — the value [`MeasurementCache::record`] returns.
pub proof fn lemma_record_shifts_later_offsets(
    before: &MeasurementCache,
    after: &MeasurementCache,
    index: usize,
    extent: u16,
    i: int,
)
    requires
        before.wf(),
        index < before.spec_count(),
        after.spec_count() == before.spec_count(),
        after.spec_estimate() == before.spec_estimate(),
        after.measurements() == before.measurements().insert(index, extent),
    ensures
        after.spec_offset(i) == before.spec_offset(i) + (if i > index {
            extent - before.spec_extent(index as int)
        } else {
            0
        }),
{
    let n = before.spec_count() as int;
    before.lemma_wf_facts();
    assert forall|k: int| 0 <= k < n && k != index as int implies after.spec_extent(k) == before.spec_extent(k) by {
        assert(k as usize != index);
    }
    assert(after.extents() =~= before.extents().update(index as int, extent as int));
    if i > 0 {
        lemma_sum_update(before.extents(), index as int, extent as int, 0, min_int(i, n));
    }
}

} // verus!
