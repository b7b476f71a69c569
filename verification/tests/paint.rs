use tuidom::render::grid::GridRect;
use tuidom::render::paint::{
    bar_text, clamp_to_grapheme_boundary, grapheme_indices, input_cursor_position, selected_cell_span, thumb_rect,
    CursorPosition,
};

#[test]
fn bar_text_repeats_one_char_per_cell() {
    assert_eq!(bar_text('█', 3, false), "███");
    assert_eq!(bar_text('█', 3, true), "█\n█\n█");
    assert_eq!(bar_text('░', 0, true), "");
}

#[test]
fn thumb_rect_runs_along_the_strip() {
    let strip = GridRect { x: 9, y: 2, width: 1, height: 10 };
    assert_eq!(thumb_rect(strip, true, 3, 2), GridRect { x: 9, y: 5, width: 1, height: 2 });
    let strip = GridRect { x: 0, y: 7, width: 12, height: 1 };
    assert_eq!(thumb_rect(strip, false, 4, 3), GridRect { x: 4, y: 7, width: 3, height: 1 });
}

#[test]
fn grapheme_indices_report_byte_offsets() {
    let spans = grapheme_indices("a界e\u{301}");
    let offsets: Vec<usize> = spans.iter().map(|(o, _)| *o).collect();
    assert_eq!(offsets, vec![0, 1, 4]);
    assert_eq!(spans[2].1, "e\u{301}");
}

#[test]
fn selected_spans_cover_the_selected_glyphs() {
    // "a界b": a at column 0, 界 over columns 1-2, b at column 3.
    assert_eq!(selected_cell_span("a界b", 0, 1, 4), Some((1, 3)));
    assert_eq!(selected_cell_span("a界b", 0, 0, 5), Some((0, 4)));
    assert_eq!(selected_cell_span("a界b", 10, 0, 5), None);
    assert_eq!(selected_cell_span("a界b", 10, 14, 15), Some((3, 4)));
}

#[test]
fn offsets_clamp_back_to_the_cluster_start() {
    assert_eq!(clamp_to_grapheme_boundary("e\u{301}x", 2), 0);
    assert_eq!(clamp_to_grapheme_boundary("e\u{301}x", 3), 3);
    assert_eq!(clamp_to_grapheme_boundary("a界", 2), 1);
    assert_eq!(clamp_to_grapheme_boundary("a界", 9), 4);
}

#[test]
fn cursor_position_counts_rows_and_last_line_width() {
    assert_eq!(input_cursor_position("hello", 3, false, None), CursorPosition { x: 3, y: 0 });
    assert_eq!(input_cursor_position("ab\ncd", 4, true, None), CursorPosition { x: 1, y: 1 });
    // A single-line input shows the newline as a space, so the cursor stays on row 0.
    assert_eq!(input_cursor_position("ab\ncd", 4, false, None), CursorPosition { x: 4, y: 0 });
    // Wide glyphs count two columns; masked text counts one per cluster.
    assert_eq!(input_cursor_position("界界", 6, false, None), CursorPosition { x: 4, y: 0 });
    assert_eq!(input_cursor_position("界界", 6, false, Some('*')), CursorPosition { x: 2, y: 0 });
    assert_eq!(input_cursor_position("", 0, true, None), CursorPosition { x: 0, y: 0 });
}
