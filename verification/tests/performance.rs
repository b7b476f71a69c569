use std::time::Duration;

use tuidom::performance::{DiffProfile, FlushMode, PaintProfile, PerformanceDetail, RenderMetrics};

fn zero_paint() -> PaintProfile {
    PaintProfile {
        enabled: false,
        rgb_resolves: 0,
        background_fill_time: Duration::ZERO,
        background_fill_calls: 0,
        filled_cells: 0,
        requested_fill_cells: 0,
        opaque_fill_calls: 0,
        opaque_filled_cells: 0,
        largest_fill: None,
        text_write_time: Duration::ZERO,
        glyphs_written: 0,
        input_format_time: Duration::ZERO,
    }
}

fn zero_diff() -> DiffProfile {
    DiffProfile {
        enabled: false,
        rows: 0,
        hint_skipped_rows: 0,
        unchanged_rows: 0,
        changed_rows: 0,
        cells_compared: 0,
        dirty_cells: 0,
        row_equality_time: Duration::ZERO,
        cell_scan_time: Duration::ZERO,
        emit_time: Duration::ZERO,
    }
}

#[test]
fn detail_levels() {
    assert!(PerformanceDetail::Detailed.is_detailed());
    assert!(!PerformanceDetail::Basic.is_detailed());
    assert_eq!(PerformanceDetail::default(), PerformanceDetail::Basic);
    assert_eq!(FlushMode::default(), FlushMode::Changes);
}

#[test]
fn render_time_sums_the_renderer_phases() {
    let metrics = RenderMetrics {
        diff_dirty_cells: 3,
        cells_flushed: 3,
        flush_mode: FlushMode::Changes,
        grid_time: Duration::from_micros(1),
        dom_collect_time: Duration::from_micros(2),
        dom_paint_time: Duration::from_micros(3),
        paint_profile: zero_paint(),
        diff_time: Duration::from_micros(4),
        diff_profile: zero_diff(),
        flush_time: Duration::from_micros(5),
    };
    assert_eq!(metrics.render_time(), Duration::from_micros(15));
}

#[test]
fn render_time_saturates_at_the_longest_duration() {
    let metrics = RenderMetrics {
        diff_dirty_cells: 0,
        cells_flushed: 0,
        flush_mode: FlushMode::FullRedraw,
        grid_time: Duration::MAX,
        dom_collect_time: Duration::from_secs(1),
        dom_paint_time: Duration::ZERO,
        paint_profile: zero_paint(),
        diff_time: Duration::ZERO,
        diff_profile: zero_diff(),
        flush_time: Duration::from_nanos(1),
    };
    assert_eq!(metrics.render_time(), Duration::MAX);
}
