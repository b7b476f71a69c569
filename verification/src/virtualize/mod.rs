//! Virtualization primitives: range math for materializing only the visible window
//! of a large collection.
//!
//! The engine provides the primitives and downstream owns the nodes. The mechanism is
//! the spacer pattern: a scroll container holds a leading spacer, the materialized
//! window, and a trailing spacer, so the container's measured content size is the true
//! total. Everything here is one axis.

pub mod fenwick;
pub mod measure;
pub mod virtualizer;

pub use measure::MeasurementCache;
pub use virtualizer::{Virtualizer, WindowUpdate};

use std::ops::Range;
use vstd::prelude::*;

verus! {

/// A collection of uniformly sized items on one scroll axis.
#[derive(Debug, Clone, Copy, PartialEq, Eq)]
pub struct Uniform {
    /// Number of items in the collection.
    pub count: usize,
    /// Cells from one item's start to the next: the item's extent plus any flex gap
    /// between items.
    pub stride: u16,
}

/// The DOM window a virtualized collection should materialize.
///
/// Extents are `u64` so the math stays exact for any collection.
#[derive(Debug, PartialEq, Eq)]
pub struct Window {
    /// The items that should exist in the DOM, visible plus overscan.
    pub items: Range<usize>,
    /// Leading spacer extent in cells: the space of every item before the window.
    pub lead: u64,
    /// Trailing spacer extent in cells: the space of every item after the window.
    pub trail: u64,
}

impl Clone for Window {
    fn clone(&self) -> (copy: Self)
        ensures
            copy == *self,
    {
        Window { items: self.items.start..self.items.end, lead: self.lead, trail: self.trail }
    }
}

/// `a` minus `b`, stopping at zero.
pub open spec fn sat_sub(a: int, b: int) -> int {
    if a >= b { a - b } else { 0 }
}

/// The smaller of two integers.
pub open spec fn min_int(a: int, b: int) -> int {
    if a <= b { a } else { b }
}

/// Integer division rounding up.
pub open spec fn ceil_div(a: int, b: int) -> int {
    a / b + if a % b != 0 { 1int } else { 0int }
}

/// Whether two windows name the same items and the same spacers.
pub open spec fn same_window(a: Window, b: Window) -> bool {
    &&& a.items.start == b.items.start
    &&& a.items.end == b.items.end
    &&& a.lead == b.lead
    &&& a.trail == b.trail
}

/// Field-wise window comparison.
pub fn windows_equal(a: &Window, b: &Window) -> (equal: bool)
    ensures
        equal == same_window(*a, *b),
{
    a.items.start == b.items.start && a.items.end == b.items.end && a.lead == b.lead
        && a.trail == b.trail
}

impl Uniform {
    /// Whether every extent of the collection is representable in `u64`.
    pub open spec fn fits(&self) -> bool {
        self.count as int * self.stride as int <= u64::MAX
    }

    /// First item whose cells reach past `offset`.
    pub open spec fn first_visible(&self, offset: int) -> int {
        offset / self.stride as int
    }

    /// First item that starts at or beyond `offset + viewport`.
    pub open spec fn end_visible(&self, offset: int, viewport: int) -> int {
        ceil_div(offset + viewport, self.stride as int)
    }

    /// Start of the window: the first visible item less the overscan.
    pub open spec fn window_start(&self, offset: int, overscan: int) -> int {
        if self.stride == 0 {
            0
        } else {
            min_int(sat_sub(self.first_visible(offset), overscan), self.count as int)
        }
    }

    /// End of the window: the end of the visible items plus the overscan.
    pub open spec fn window_end(&self, offset: int, viewport: int, overscan: int) -> int {
        if self.stride == 0 {
            self.count as int
        } else {
            min_int(self.end_visible(offset, viewport) + overscan, self.count as int)
        }
    }

    /// The window covering a scrollport, padded by `overscan` items on each side.
    ///
    /// `offset` is the container's scroll offset on this axis and `viewport` its
    /// scrollport extent, both in cells. An item straddling either edge is included.
    /// A zero stride cannot be windowed by offset, so it materializes everything.
    pub fn window(&self, offset: u16, viewport: u16, overscan: usize) -> (window: Window)
        requires
            self.fits(),
        ensures
            window.items.start == self.window_start(offset as int, overscan as int),
            window.items.end == self.window_end(offset as int, viewport as int, overscan as int),
            window.items.start <= window.items.end <= self.count,
            window.lead == window.items.start * self.stride,
            window.trail == (self.count - window.items.end) * self.stride,
    {
        if self.stride == 0 {
            return Window { items: 0..self.count, lead: 0, trail: 0 };
        }
        let stride = self.stride as u64;
        let first_visible = (offset as u64 / stride) as usize;
        let end_cells = offset as u64 + viewport as u64;
        let end_visible = (end_cells / stride + if end_cells % stride != 0 { 1 } else { 0 }) as usize;

        let lowered = first_visible.saturating_sub(overscan);
        let start = if lowered < self.count { lowered } else { self.count };
        let raised = end_visible.saturating_add(overscan);
        let end = if raised < self.count { raised } else { self.count };
        proof {
            assert(first_visible <= end_visible) by (nonlinear_arith)
                requires
                    first_visible == offset as int / stride as int,
                    end_visible == end_cells as int / stride as int + if end_cells % stride != 0 { 1int } else { 0int },
                    end_cells >= offset,
                    stride > 0;
            assert(start as int * stride <= self.count as int * stride) by (nonlinear_arith)
                requires start <= self.count;
            assert((self.count - end) as int * stride <= self.count as int * stride) by (nonlinear_arith)
                requires end <= self.count;
        }
        Window {
            items: start..end,
            lead: start as u64 * stride,
            trail: (self.count - end) as u64 * stride,
        }
    }

    /// Total extent of the collection in cells.
    pub fn total_extent(&self) -> (total: u64)
        requires
            self.fits(),
        ensures
            total == self.count * self.stride,
    {
        self.count as u64 * self.stride as u64
    }

    /// The offset of an item's start: what to scroll to for bringing it to the
    /// start of the viewport.
    pub fn offset_of(&self, index: usize) -> (offset: u64)
        requires
            index * self.stride <= u64::MAX,
        ensures
            offset == index * self.stride,
    {
        index as u64 * self.stride as u64
    }
}

/// Spacer law: the leading spacer, the materialized items and the trailing spacer
/// always add up to the collection's total extent.
pub proof fn lemma_uniform_spacers_sum(axis: Uniform, window: Window)
    requires
        window.items.start <= window.items.end <= axis.count,
        window.lead == window.items.start * axis.stride,
        window.trail == (axis.count - window.items.end) * axis.stride,
    ensures
        window.lead + (window.items.end - window.items.start) * axis.stride + window.trail
            == axis.count * axis.stride,
{
    let s = axis.stride as int;
    let a = window.items.start as int;
    let b = window.items.end as int;
    let c = axis.count as int;
    assert(a * s + (b - a) * s + (c - b) * s == c * s) by (nonlinear_arith);
}

/// Coverage law: every item that shows any cell inside the scrollport
/// `[offset, offset + viewport)` lies inside the window.
pub proof fn lemma_uniform_window_covers_viewport(
    axis: Uniform,
    offset: u16,
    viewport: u16,
    overscan: usize,
    item: int,
)
    requires
        0 <= item < axis.count,
        item * axis.stride < offset + viewport,
        (item + 1) * axis.stride > offset,
    ensures
        axis.window_start(offset as int, overscan as int) <= item < axis.window_end(
            offset as int,
            viewport as int,
            overscan as int,
        ),
{
    if axis.stride != 0 {
        let s = axis.stride as int;
        let o = offset as int;
        let e = offset as int + viewport as int;
        assert(o / s <= item) by (nonlinear_arith)
            requires
                (item + 1) * s > o,
                s > 0,
                o >= 0;
        assert(item < ceil_div(e, s)) by (nonlinear_arith)
            requires
                item * s < e,
                s > 0,
                e >= 0;
    }
}

} // verus!
