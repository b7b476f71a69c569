//! Runtime performance metrics.
//!
//! Metrics are collected as data so applications can decide whether to log,
//! graph, or render a small subset of them in their own UI.

use std::time::Duration;
use vstd::prelude::*;

use crate::id::NodeId;
use crate::time::{nanos_of, saturating_add_duration, saturating_nanos};

verus! {

/// Amount of detailed instrumentation collected while rendering.
#[derive(Debug, Clone, Copy, PartialEq, Eq, Structural)]
pub enum PerformanceDetail {
    /// Collect inexpensive frame, phase, diff, and flush timings.
    Basic,
    /// Also collect detailed paint and diff counters and sub-timings.
    Detailed,
}

impl Default for PerformanceDetail {
    fn default() -> (detail: Self)
        ensures
            detail == PerformanceDetail::Basic,
    {
        PerformanceDetail::Basic
    }
}

impl PerformanceDetail {
    /// Return whether detailed instrumentation should be collected.
    pub fn is_detailed(self) -> (detailed: bool)
        ensures
            detailed == (self == PerformanceDetail::Detailed),
    {
        match self {
            PerformanceDetail::Detailed => true,
            PerformanceDetail::Basic => false,
        }
    }
}

/// Metrics for one completed terminal frame.
#[derive(Debug, Clone, Copy)]
pub struct FrameMetrics {
    /// Total wall-clock time spent on layout, render, diff, and flush.
    pub frame_time: Duration,
    /// Time spent computing layout.
    pub layout_time: Duration,
    /// Renderer metrics for this frame.
    pub render: RenderMetrics,
    /// Style resolutions requested since the previous frame.
    pub style_resolves: u64,
    /// Style resolutions that missed the cache and recomputed, of `style_resolves`.
    pub style_cache_misses: u64,
}

/// Renderer metrics for one frame.
#[derive(Debug, Clone, Copy)]
pub struct RenderMetrics {
    /// Number of dirty cells found by diffing before any full-redraw fallback.
    pub diff_dirty_cells: usize,
    /// Number of cells flushed to the terminal.
    pub cells_flushed: usize,
    /// Terminal flush strategy used for this frame.
    pub flush_mode: FlushMode,
    /// Time spent creating, clearing, or preparing the frame grid.
    pub grid_time: Duration,
    /// Time spent collecting the visible DOM tree into paint entries.
    pub dom_collect_time: Duration,
    /// Time spent painting DOM nodes into the grid.
    pub dom_paint_time: Duration,
    /// Detailed instrumentation for DOM painting.
    pub paint_profile: PaintProfile,
    /// Time spent diffing old and new grids.
    pub diff_time: Duration,
    /// Detailed instrumentation for diffing.
    pub diff_profile: DiffProfile,
    /// Time spent flushing terminal output.
    pub flush_time: Duration,
}

impl RenderMetrics {
    /// Total time spent inside the renderer for this frame: grid preparation, DOM
    /// collection, painting, diffing and flushing, added up (saturating at the largest
    /// duration).
    pub fn render_time(self) -> (total: Duration)
        ensures
            nanos_of(total) == saturating_nanos(
                nanos_of(self.grid_time) + nanos_of(self.dom_collect_time) + nanos_of(self.dom_paint_time)
                    + nanos_of(self.diff_time),
                nanos_of(self.flush_time) as int,
            ),
    {
        let sum = saturating_add_duration(self.grid_time, self.dom_collect_time);
        let sum = saturating_add_duration(sum, self.dom_paint_time);
        let sum = saturating_add_duration(sum, self.diff_time);
        saturating_add_duration(sum, self.flush_time)
    }
}

/// Terminal flush strategy used for a frame.
#[derive(Debug, Clone, Copy, PartialEq, Eq, Structural)]
pub enum FlushMode {
    /// Only changed cells were flushed.
    Changes,
    /// The entire screen was redrawn.
    FullRedraw,
}

impl Default for FlushMode {
    fn default() -> (mode: Self)
        ensures
            mode == FlushMode::Changes,
    {
        FlushMode::Changes
    }
}

/// Largest background fill observed during a profiled paint pass.
#[derive(Debug, Clone, Copy)]
pub struct LargestFillProfile {
    /// Node id that requested the fill.
    pub node_id: NodeId,
    /// Node kind that requested the fill.
    pub node_kind: &'static str,
    /// Requested fill x coordinate before clipping.
    pub x: i32,
    /// Requested fill y coordinate before clipping.
    pub y: i32,
    /// Requested fill width before clipping.
    pub width: u16,
    /// Requested fill height before clipping.
    pub height: u16,
    /// Requested area before clipping.
    pub requested_cells: usize,
    /// Actual grid cells touched after clipping.
    pub clipped_cells: usize,
}

/// Detailed DOM paint instrumentation.
#[derive(Debug, Clone, Copy)]
pub struct PaintProfile {
    /// Whether detailed paint instrumentation was enabled for this frame.
    pub enabled: bool,
    /// Number of resolved colors converted or read from the RGB cache.
    pub rgb_resolves: usize,
    /// Time spent filling node backgrounds into the grid.
    pub background_fill_time: Duration,
    /// Number of background fill calls.
    pub background_fill_calls: usize,
    /// Number of grid cells touched by background fills.
    pub filled_cells: usize,
    /// Total requested background fill area before clipping.
    pub requested_fill_cells: usize,
    /// Number of fully opaque background fill calls.
    pub opaque_fill_calls: usize,
    /// Number of cells touched by fully opaque background fills.
    pub opaque_filled_cells: usize,
    /// Largest background fill in this frame.
    pub largest_fill: Option<LargestFillProfile>,
    /// Time spent writing glyphs — text and borders — into the grid.
    pub text_write_time: Duration,
    /// Number of glyph heads written into the grid, including border characters.
    pub glyphs_written: usize,
    /// Time spent formatting input display content before text paint.
    pub input_format_time: Duration,
}

/// Detailed frame diff instrumentation.
#[derive(Debug, Clone, Copy)]
pub struct DiffProfile {
    /// Whether detailed diff instrumentation was enabled for this frame.
    pub enabled: bool,
    /// Number of rows in the new grid.
    pub rows: usize,
    /// Number of rows skipped by render-provided dirty hints.
    pub hint_skipped_rows: usize,
    /// Number of rows skipped by exact row equality.
    pub unchanged_rows: usize,
    /// Number of rows that required cell-level scanning.
    pub changed_rows: usize,
    /// Number of cells compared inside changed rows.
    pub cells_compared: usize,
    /// Number of dirty cells emitted.
    pub dirty_cells: usize,
    /// Time spent checking row equality.
    pub row_equality_time: Duration,
    /// Time spent scanning cells in changed rows.
    pub cell_scan_time: Duration,
    /// Time spent emitting dirty cells from dirty row buffers.
    pub emit_time: Duration,
}

} // verus!
