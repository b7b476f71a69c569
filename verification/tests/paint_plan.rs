use tuidom::id::NodeId;
use tuidom::node::{LayoutRect, NodeKindView};
use tuidom::render::grid::{ClipRect, GridRect};
use tuidom::render::placement::{edge_cells, text_rows};
use tuidom::render::plan::{entry_paint_plan, place_cursor, scrollbar_layers, PaintStep};
use tuidom::style::scrollbar::ScrollbarCharset;
use tuidom::render::selection::{input_selection_spans, split_newlines};
use tuidom::render::RenderCursor;
use tuidom::style::color::Rgb;
use tuidom::style::CursorShape;

fn rect(x: i32, y: i32, width: u16, height: u16) -> GridRect {
    GridRect { x, y, width, height }
}

#[test]
fn pieces_split_like_str_split() {
    for text in ["", "a", "a\n", "\n\n", "ab\ncd\n\nx"] {
        let expected: Vec<String> = text.split('\n').map(str::to_owned).collect();
        assert_eq!(split_newlines(text), expected, "{text:?}");
    }
}

#[test]
fn selection_runs_follow_lines_and_scroll() {
    let area = rect(10, 5, 20, 3);
    assert_eq!(input_selection_spans("hello\nworld", 2, 8, area, 0, 0), vec![(12, 5, 3), (10, 6, 2)]);
    assert_eq!(input_selection_spans("hello\nworld", 2, 8, area, 1, 0), vec![(11, 5, 3), (10, 6, 1)]);
    assert_eq!(input_selection_spans("hello\nworld", 2, 8, area, 0, 1), vec![(10, 5, 2)]);
    // Clipped to the rect's width, and nothing for an empty range or rect.
    assert_eq!(input_selection_spans("hello", 0, 5, rect(0, 0, 3, 1), 0, 0), vec![(0, 0, 3)]);
    assert_eq!(input_selection_spans("hello", 3, 3, area, 0, 0), vec![]);
    assert_eq!(input_selection_spans("hello", 0, 5, rect(0, 0, 0, 1), 0, 0), vec![]);
    // A wide glyph highlights both of its cells.
    assert_eq!(input_selection_spans("a界b", 1, 4, area, 0, 0), vec![(11, 5, 2)]);
}

fn input(value: &str, cursor: usize, selection: Option<std::ops::Range<usize>>) -> NodeKindView {
    NodeKindView::Input {
        value: value.to_string(),
        cursor,
        selection,
        multiline: true,
        mask: None,
        scroll_x: 1,
        scroll_y: 0,
    }
}

#[test]
fn a_focused_input_paints_selection_and_cursor_in_layer_order() {
    let id = NodeId::new(3);
    let plan = entry_paint_plan(&input("ab\ncd", 4, Some(1..2)), id, Some(id), None, false, true, true, true);
    assert_eq!(plan.len(), 6);
    assert!(matches!(plan[0], PaintStep::Fill));
    assert!(matches!(plan[1], PaintStep::HalfBlockEdges));
    assert!(matches!(&plan[2], PaintStep::Text { text } if text == "b\nd"));
    assert!(matches!(plan[3], PaintStep::InputSelection { from: 1, to: 2 }));
    assert!(matches!(plan[4], PaintStep::Cursor { x: 0, y: 1 }));
    assert!(matches!(plan[5], PaintStep::Border));
}

#[test]
fn an_unfocused_input_shows_neither_selection_nor_cursor() {
    let id = NodeId::new(3);
    let plan = entry_paint_plan(&input("ab", 1, Some(0..1)), id, Some(NodeId::new(4)), None, true, true, false, false);
    assert_eq!(plan.len(), 1);
    assert!(matches!(&plan[0], PaintStep::Text { text } if text == "b"));
}

#[test]
fn text_selection_and_frames() {
    let id = NodeId::new(1);
    let text = NodeKindView::Text { content: "hi".to_string() };
    let plan = entry_paint_plan(&text, id, None, Some(0..1), false, false, false, false);
    assert_eq!(plan.len(), 2);
    assert!(matches!(plan[1], PaintStep::TextSelection { from: 0, to: 1 }));
    let frames = NodeKindView::Frames {
        frames: vec!["x".to_string(), "y".to_string()],
        interval: std::time::Duration::from_millis(5),
        current: 1,
    };
    let plan = entry_paint_plan(&frames, id, None, None, false, false, false, false);
    assert!(matches!(&plan[0], PaintStep::Text { text } if text == "y"));
    assert!(entry_paint_plan(&NodeKindView::Box, id, None, None, false, false, false, false).is_empty());
}

#[test]
fn cursor_placement_clips_to_the_input_and_the_screen() {
    let content = LayoutRect { x: 2, y: 3, width: 5, height: 1 };
    let color = Rgb { r: 1, g: 2, b: 3, a: 255 };
    let clip = ClipRect::unbounded();
    assert_eq!(
        place_cursor(content, 1, 0, 20, 10, clip, CursorShape::Bar, color),
        Some(RenderCursor { x: 3, y: 3, shape: CursorShape::Bar, color, visible: true })
    );
    assert_eq!(place_cursor(content, 5, 0, 20, 10, clip, CursorShape::Bar, color).map(|c| c.visible), Some(false));
    assert_eq!(place_cursor(content, 1, 0, 3, 10, clip, CursorShape::Bar, color).map(|c| c.visible), Some(false));
    let empty = LayoutRect { x: 2, y: 3, width: 0, height: 1 };
    assert_eq!(place_cursor(empty, 0, 0, 20, 10, clip, CursorShape::Bar, color), None);
}

#[test]
fn text_rows_skip_lines_above_and_stop_at_the_rect() {
    let (left, right, rows) = text_rows(rect(0, -1, 4, 3), (0, 0, 10, 10), "a\nb\nc\nd").unwrap();
    assert_eq!((left, right), (0, 4));
    assert_eq!(rows, vec![(0, "b".to_string()), (1, "c".to_string())]);
    assert!(text_rows(rect(0, 10, 4, 3), (0, 0, 10, 10), "a").is_none());
    assert!(text_rows(rect(12, 0, 4, 3), (0, 0, 10, 10), "a").is_none());
}

#[test]
fn edge_cells_walk_the_border_row_by_row() {
    assert_eq!(
        edge_cells(rect(0, 0, 3, 3)),
        vec![(0, 0), (0, 1), (0, 2), (1, 0), (1, 2), (2, 0), (2, 1), (2, 2)]
    );
    assert_eq!(edge_cells(rect(5, 1, 1, 3)), vec![(1, 5), (2, 5), (3, 5)]);
    assert!(edge_cells(rect(0, 0, 0, 3)).is_empty());
}

#[test]
fn a_scrollbar_paints_its_track_then_its_thumb() {
    let layout = LayoutRect { x: 9, y: 0, width: 1, height: 4 };
    let layers = scrollbar_layers(layout, true, ScrollbarCharset::block(), 1, 2);
    assert_eq!(layers.strip, rect(9, 0, 1, 4));
    assert_eq!(layers.track, "░\n░\n░\n░");
    assert_eq!(layers.thumb, rect(9, 1, 1, 2));
    assert_eq!(layers.thumb_text, "█\n█");
    let flat = scrollbar_layers(LayoutRect { x: 0, y: 5, width: 3, height: 1 }, false, ScrollbarCharset::block(), 2, 1);
    assert_eq!((flat.track.as_str(), flat.thumb, flat.thumb_text.as_str()), ("░░░", rect(2, 5, 1, 1), "█"));
}
