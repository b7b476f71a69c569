//! Stateful window diffing over a virtualized collection.

use std::ops::Range;
use vstd::prelude::*;

use super::measure::MeasurementCache;
use super::{same_window, windows_equal, Uniform, Window};

verus! {

/// The extent source a [`Virtualizer`] windows over.
enum Extents {
    Uniform(Uniform),
    Measured(MeasurementCache),
}

/// Stateful window diffing over a virtualized collection.
///
/// Owns the current materialized range and, on each [`update`](Self::update), reports
/// which items to create and which to remove to reach the new window. It owns only the
/// arithmetic of what changed; downstream owns every node and the spacers.
pub struct Virtualizer {
    extents: Extents,
    overscan: usize,
    materialized: Range<usize>,
    last: Option<Window>,
}

/// One [`Virtualizer::update`]'s difference between the old window and the new.
#[derive(Debug, PartialEq, Eq)]
pub struct WindowUpdate {
    /// The new window: items that should now exist, and both spacer extents.
    pub window: Window,
    /// Index ranges to materialize — items in the new window but not the old.
    pub add: Vec<Range<usize>>,
    /// Index ranges to remove — items in the old window but not the new.
    pub remove: Vec<Range<usize>>,
}

/// Whether `index` lies in `range`.
pub open spec fn in_range(range: Range<usize>, index: int) -> bool {
    range.start <= index < range.end
}

/// Whether `index` lies in one of `parts`.
pub open spec fn covered(parts: Seq<Range<usize>>, index: int) -> bool {
    exists|i: int| 0 <= i < parts.len() && in_range(#[trigger] parts[i], index)
}

/// `parts` is at most two non-empty ranges, in order and apart from each other.
pub open spec fn ordered_parts(parts: Seq<Range<usize>>) -> bool {
    &&& parts.len() <= 2
    &&& forall|i: int| 0 <= i < parts.len() ==> #[trigger] parts[i].start < parts[i].end
    &&& parts.len() == 2 ==> parts[0].end <= parts[1].start
}

/// The parts of `a` not covered by `b`: the part before `b`, then the part after it,
/// each kept only when it is not empty.
pub open spec fn difference(a: Range<usize>, b: Range<usize>) -> Seq<Range<usize>> {
    let before_end = if a.end < b.start {
        a.end
    } else {
        b.start
    };
    let after_start = if a.start > b.end {
        a.start
    } else {
        b.end
    };
    let before = if a.start < before_end {
        seq![(Range { start: a.start, end: before_end })]
    } else {
        Seq::empty()
    };
    let after = if after_start < a.end {
        seq![(Range { start: after_start, end: a.end })]
    } else {
        Seq::empty()
    };
    before + after
}

/// The parts of `a` not covered by `b`: zero, one, or two disjoint ranges, in order.
fn subtract(a: Range<usize>, b: Range<usize>) -> (parts: Vec<Range<usize>>)
    requires
        b.start <= b.end,
    ensures
        parts@ == difference(a, b),
        ordered_parts(parts@),
        forall|k: int| covered(parts@, k) <==> (in_range(a, k) && !in_range(b, k)),
{
    let mut parts: Vec<Range<usize>> = Vec::new();
    let before_end = if a.end < b.start { a.end } else { b.start };
    if a.start < before_end {
        parts.push(a.start..before_end);
    }
    let after_start = if a.start > b.end { a.start } else { b.end };
    if after_start < a.end {
        parts.push(after_start..a.end);
    }
    proof {
        assert forall|k: int| covered(parts@, k) <==> (in_range(a, k) && !in_range(b, k)) by {
            if in_range(a, k) && !in_range(b, k) {
                if k < b.start {
                    assert(in_range(parts@[0], k));
                } else {
                    assert(in_range(parts@[parts@.len() - 1], k));
                }
            }
        }
    }
    parts
}

impl Virtualizer {
    pub closed spec fn wf(&self) -> bool {
        &&& self.materialized.start <= self.materialized.end
        &&& self.materialized == match self.last {
            Some(window) => window.items,
            None => 0..0usize,
        }
        &&& match self.extents {
            Extents::Uniform(uniform) => uniform.fits(),
            Extents::Measured(cache) => cache.wf(),
        }
    }

    /// Whether this virtualizer measures its items.
    pub closed spec fn is_measured(&self) -> bool {
        self.extents is Measured
    }

    /// The measurement cache of a measuring virtualizer.
    pub closed spec fn spec_cache(&self) -> MeasurementCache {
        self.extents->Measured_0
    }

    /// The uniform extents of a non-measuring virtualizer.
    pub closed spec fn spec_uniform(&self) -> Uniform {
        self.extents->Uniform_0
    }

    /// Items padded onto each side of the visible items.
    pub closed spec fn spec_overscan(&self) -> usize {
        self.overscan
    }

    /// The currently materialized index range.
    pub closed spec fn spec_materialized(&self) -> Range<usize> {
        self.materialized
    }

    /// The window reported by the last update, if any since creation or reset.
    pub closed spec fn spec_last(&self) -> Option<Window> {
        self.last
    }

    /// Number of items in the collection.
    pub open spec fn spec_count(&self) -> int {
        if self.is_measured() {
            self.spec_cache().spec_count() as int
        } else {
            self.spec_uniform().count as int
        }
    }

    /// Whether the collection may be resized to `count` items.
    pub open spec fn accepts_count(&self, count: usize) -> bool {
        if self.is_measured() {
            MeasurementCache::fits(count as int)
        } else {
            count * self.spec_uniform().stride <= u64::MAX
        }
    }

    /// The offset of an item's start.
    pub open spec fn spec_offset(&self, index: int) -> int {
        if self.is_measured() {
            self.spec_cache().spec_offset(index)
        } else {
            index * self.spec_uniform().stride
        }
    }

    /// Whether the offset of `index` is representable.
    pub open spec fn offset_in_range(&self, index: int) -> bool {
        self.is_measured() || index * self.spec_uniform().stride <= u64::MAX
    }

    /// Start of the window for a scroll position.
    pub open spec fn window_start(&self, offset: u16) -> int {
        if self.is_measured() {
            self.spec_cache().window_start(offset as int, self.spec_overscan() as int)
        } else {
            self.spec_uniform().window_start(offset as int, self.spec_overscan() as int)
        }
    }

    /// End of the window for a scroll position.
    pub open spec fn window_end(&self, offset: u16, viewport: u16) -> int {
        if self.is_measured() {
            self.spec_cache().window_end(
                offset as int,
                viewport as int,
                self.spec_overscan() as int,
            )
        } else {
            self.spec_uniform().window_end(
                offset as int,
                viewport as int,
                self.spec_overscan() as int,
            )
        }
    }

    /// Whether `window` is the window for a scroll position: its items, and spacers
    /// covering everything before and after them.
    pub open spec fn is_window_for(&self, window: Window, offset: u16, viewport: u16) -> bool {
        &&& window.items.start == self.window_start(offset)
        &&& window.items.end == self.window_end(offset, viewport)
        &&& window.items.start <= window.items.end <= self.spec_count()
        &&& window.lead == self.spec_offset(window.items.start as int)
        &&& window.trail == self.spec_offset(self.spec_count()) - self.spec_offset(
            window.items.end as int,
        )
    }

    /// Virtualize `count` uniformly sized items of `stride` cells each.
    pub fn uniform(count: usize, stride: u16, overscan: usize) -> (virtualizer: Self)
        requires
            count * stride <= u64::MAX,
        ensures
            virtualizer.wf(),
            !virtualizer.is_measured(),
            virtualizer.spec_uniform() == (Uniform { count, stride }),
            virtualizer.spec_overscan() == overscan,
            virtualizer.spec_materialized() == (0..0usize),
            virtualizer.spec_last() is None,
    {
        Self {
            extents: Extents::Uniform(Uniform { count, stride }),
            overscan,
            materialized: 0..0,
            last: None,
        }
    }

    /// Virtualize `count` variably sized items, each estimated at `estimate` cells
    /// until measured.
    pub fn measured(count: usize, estimate: u16, overscan: usize) -> (virtualizer: Self)
        requires
            MeasurementCache::fits(count as int),
        ensures
            virtualizer.wf(),
            virtualizer.is_measured(),
            virtualizer.spec_cache().spec_count() == count,
            virtualizer.spec_cache().spec_estimate() == estimate,
            virtualizer.spec_cache().measurements() == Map::<usize, u16>::empty(),
            virtualizer.spec_overscan() == overscan,
            virtualizer.spec_materialized() == (0..0usize),
            virtualizer.spec_last() is None,
    {
        Self {
            extents: Extents::Measured(MeasurementCache::new(count, estimate)),
            overscan,
            materialized: 0..0,
            last: None,
        }
    }

    /// Number of items in the collection.
    pub fn count(&self) -> (count: usize)
        requires
            self.wf(),
        ensures
            count == self.spec_count(),
    {
        match &self.extents {
            Extents::Uniform(uniform) => uniform.count,
            Extents::Measured(cache) => cache.count(),
        }
    }

    /// Resize the collection. Items removed from the tail leave the window on the
    /// next [`update`](Self::update).
    pub fn set_count(&mut self, count: usize)
        requires
            old(self).wf(),
            old(self).accepts_count(count),
        ensures
            final(self).wf(),
            final(self).spec_count() == count,
            final(self).is_measured() == old(self).is_measured(),
            !old(self).is_measured() ==> final(self).spec_uniform() == (Uniform {
                count,
                stride: old(self).spec_uniform().stride,
            }),
            old(self).is_measured() ==> {
                &&& final(self).spec_cache().spec_estimate() == old(self).spec_cache().spec_estimate()
                &&& final(self).spec_cache().measurements() == old(self).spec_cache().measurements().restrict(
                    Set::new(|index: usize| index < count),
                )
            },
            final(self).spec_overscan() == old(self).spec_overscan(),
            final(self).spec_materialized() == old(self).spec_materialized(),
            final(self).spec_last() == old(self).spec_last(),
    {
        match &mut self.extents {
            Extents::Uniform(uniform) => uniform.count = count,
            Extents::Measured(cache) => cache.set_count(count),
        }
    }

    /// Record a measured item extent, replacing its estimate.
    ///
    /// Returns the anchoring compensation, exactly as [`MeasurementCache::record`]
    /// does. On a uniform collection there is nothing to measure, so this records
    /// nothing and returns zero.
    pub fn record(&mut self, index: usize, extent: u16) -> (delta: i64)
        requires
            old(self).wf(),
        ensures
            final(self).wf(),
            final(self).is_measured() == old(self).is_measured(),
            !old(self).is_measured() ==> {
                &&& delta == 0
                &&& final(self).spec_uniform() == old(self).spec_uniform()
            },
            old(self).is_measured() ==> {
                let before = old(self).spec_cache();
                let after = final(self).spec_cache();
                &&& after.spec_count() == before.spec_count()
                &&& after.spec_estimate() == before.spec_estimate()
                &&& index < before.spec_count() ==> {
                    &&& after.measurements() == before.measurements().insert(index, extent)
                    &&& delta == extent - before.spec_extent(index as int)
                }
                &&& index >= before.spec_count() ==> {
                    &&& after.measurements() == before.measurements()
                    &&& delta == 0
                }
            },
            final(self).spec_overscan() == old(self).spec_overscan(),
            final(self).spec_materialized() == old(self).spec_materialized(),
            final(self).spec_last() == old(self).spec_last(),
    {
        match &mut self.extents {
            Extents::Uniform(_) => 0,
            Extents::Measured(cache) => cache.record(index, extent),
        }
    }

    /// The measurement cache, when this virtualizer measures.
    ///
    /// The next [`update`](Self::update) recomputes the window from scratch and diffs
    /// against what is actually materialized.
    pub fn cache(&self) -> (cache: Option<&MeasurementCache>)
        ensures
            self.is_measured() ==> cache == Some(&self.spec_cache()),
            !self.is_measured() ==> cache is None,
            self.wf() && self.is_measured() ==> self.spec_cache().wf(),
    {
        match &self.extents {
            Extents::Uniform(_) => None,
            Extents::Measured(cache) => Some(cache),
        }
    }

    /// Mutable access to the measurement cache, when this virtualizer measures.
    ///
    /// Whatever the caller does to the cache becomes this virtualizer's cache; the
    /// rest of the virtualizer is untouched.
    pub fn cache_mut(&mut self) -> (cache: Option<&mut MeasurementCache>)
        ensures
            old(self).is_measured() ==> {
                &&& cache is Some
                &&& *(cache->0) == old(self).spec_cache()
                &&& final(self).is_measured()
                &&& final(self).spec_cache() == *final(cache->0)
                &&& old(self).wf() ==> (final(self).wf() <==> final(cache->0).wf())
            },
            !old(self).is_measured() ==> {
                &&& cache is None
                &&& *final(self) == *old(self)
            },
            final(self).spec_overscan() == old(self).spec_overscan(),
            final(self).spec_materialized() == old(self).spec_materialized(),
            final(self).spec_last() == old(self).spec_last(),
    {
        match &mut self.extents {
            Extents::Uniform(_) => None,
            Extents::Measured(cache) => Some(cache),
        }
    }

    /// The offset of an item's start — what to scroll to for bringing it to the
    /// start of the viewport.
    pub fn offset_of(&self, index: usize) -> (offset: u64)
        requires
            self.wf(),
            self.offset_in_range(index as int),
        ensures
            offset == self.spec_offset(index as int),
    {
        match &self.extents {
            Extents::Uniform(uniform) => uniform.offset_of(index),
            Extents::Measured(cache) => cache.offset_of(index),
        }
    }

    /// What is materialized is the window of the last update that reported one since
    /// construction or the last `reset`, and nothing before any: resizing, recording
    /// and an update that changes nothing leave it as it is.
    pub proof fn lemma_materialized_is_last_window(&self)
        requires
            self.wf(),
        ensures
            self.spec_materialized() == match self.spec_last() {
                Some(window) => window.items,
                None => 0..0usize,
            },
    {
    }

    /// Offsets never decrease along the collection: an item further on starts no
    /// earlier.
    pub proof fn lemma_offsets_monotone(&self, i: int, j: int)
        requires
            self.wf(),
            0 <= i <= j,
        ensures
            0 <= self.spec_offset(i) <= self.spec_offset(j),
    {
        if self.is_measured() {
            self.spec_cache().lemma_offset_monotone(i, j);
        } else {
            let s = self.spec_uniform().stride as int;
            assert(0 <= i * s <= j * s) by (nonlinear_arith)
                requires
                    0 <= i <= j,
                    0 <= s,
            ;
        }
    }

    /// Total extent of the collection in cells.
    pub fn total_extent(&self) -> (total: u64)
        requires
            self.wf(),
        ensures
            total == self.spec_offset(self.spec_count()),
    {
        match &self.extents {
            Extents::Uniform(uniform) => uniform.total_extent(),
            Extents::Measured(cache) => cache.total_extent(),
        }
    }

    /// The currently materialized index range.
    pub fn materialized(&self) -> (range: Range<usize>)
        ensures
            range == self.spec_materialized(),
    {
        self.materialized.start..self.materialized.end
    }

    /// Forget the materialized state, as after downstream rebuilt its subtree.
    /// The next [`update`](Self::update) reports the whole window as additions.
    pub fn reset(&mut self)
        requires
            old(self).wf(),
        ensures
            final(self).wf(),
            final(self).spec_materialized() == (0..0usize),
            final(self).spec_last() is None,
            final(self).spec_overscan() == old(self).spec_overscan(),
            final(self).is_measured() == old(self).is_measured(),
            final(self).spec_cache() == old(self).spec_cache(),
            final(self).spec_uniform() == old(self).spec_uniform(),
    {
        self.materialized = 0..0;
        self.last = None;
    }

    fn current_window(&self, offset: u16, viewport: u16) -> (window: Window)
        requires
            self.wf(),
        ensures
            self.is_window_for(window, offset, viewport),
    {
        match &self.extents {
            Extents::Uniform(uniform) => {
                let window = uniform.window(offset, viewport, self.overscan);
                proof {
                    let s = uniform.stride as int;
                    let c = uniform.count as int;
                    let e = window.items.end as int;
                    assert((c - e) * s == c * s - e * s) by (nonlinear_arith);
                }
                window
            },
            Extents::Measured(cache) => cache.window(offset, viewport, self.overscan),
        }
    }

    /// Recompute the window for a scroll position and diff it against what is
    /// materialized.
    ///
    /// Returns `None` when nothing changed — same items, same spacers — so a scroll
    /// within the overscan margin costs no DOM work. Otherwise the caller applies the
    /// additions and removals and resizes both spacers, and the virtualizer considers
    /// the new window materialized.
    pub fn update(&mut self, offset: u16, viewport: u16) -> (update: Option<WindowUpdate>)
        requires
            old(self).wf(),
        ensures
            final(self).wf(),
            final(self).is_measured() == old(self).is_measured(),
            final(self).spec_cache() == old(self).spec_cache(),
            final(self).spec_uniform() == old(self).spec_uniform(),
            final(self).spec_overscan() == old(self).spec_overscan(),
            match update {
                None => {
                    &&& old(self).spec_last() is Some
                    &&& old(self).is_window_for(old(self).spec_last()->0, offset, viewport)
                    &&& final(self).spec_materialized() == old(self).spec_materialized()
                    &&& final(self).spec_last() == old(self).spec_last()
                },
                Some(update) => {
                    &&& old(self).is_window_for(update.window, offset, viewport)
                    &&& (old(self).spec_last() is Some ==> !same_window(
                        old(self).spec_last()->0,
                        update.window,
                    ))
                    &&& update.add@ == difference(update.window.items, old(self).spec_materialized())
                    &&& update.remove@ == difference(old(self).spec_materialized(), update.window.items)
                    &&& ordered_parts(update.add@)
                    &&& ordered_parts(update.remove@)
                    &&& forall|k: int| #[trigger] covered(update.add@, k) <==> (in_range(update.window.items, k)
                        && !in_range(old(self).spec_materialized(), k))
                    &&& forall|k: int| #[trigger] covered(update.remove@, k) <==> (in_range(
                        old(self).spec_materialized(),
                        k,
                    ) && !in_range(update.window.items, k))
                    &&& final(self).spec_materialized() == update.window.items
                    &&& final(self).spec_last() == Some(update.window)
                },
            },
    {
        let window = self.current_window(offset, viewport);
        let unchanged = match &self.last {
            Some(last) => windows_equal(last, &window),
            None => false,
        };
        if unchanged {
            return None;
        }

        let add = subtract(window.items.start..window.items.end, self.materialized.start..self.materialized.end);
        let remove = subtract(self.materialized.start..self.materialized.end, window.items.start..window.items.end);

        self.materialized = window.items.start..window.items.end;
        self.last = Some(window.clone());
        Some(WindowUpdate { window, add, remove })
    }
}

} // verus!
