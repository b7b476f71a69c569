use std::time::{Duration, Instant};

use tuidom::node::{
    frame_at, frames_index, input_display_content, input_scrolled_display_content, saturating_add_i32, scroll_line, split_lines,
    InputState, LayoutRect, NodeKind, NodeKindView,
};
use tuidom::style::{Border, BorderCharset, EdgeInsets};

#[test]
fn deflating_moves_the_origin_and_stops_at_zero() {
    let rect = LayoutRect { x: 2, y: 3, width: 10, height: 4 };
    assert_eq!(rect.deflate(EdgeInsets::new(1, 2, 3, 4)), LayoutRect { x: 6, y: 4, width: 4, height: 0 });
    let border = Border::new(BorderCharset::single());
    assert_eq!(rect.padding_box(border), LayoutRect { x: 3, y: 4, width: 8, height: 2 });
    assert_eq!(
        rect.content_rect(border, EdgeInsets::all(1)),
        LayoutRect { x: 4, y: 5, width: 6, height: 0 }
    );
    assert_eq!(saturating_add_i32(i32::MAX, 1), i32::MAX);
    assert_eq!(saturating_add_i32(i32::MIN, -1), i32::MIN);
}

#[test]
fn frame_index_wraps_whole_intervals() {
    assert_eq!(frame_at(3, 100, 0), 0);
    assert_eq!(frame_at(3, 100, 99), 0);
    assert_eq!(frame_at(3, 100, 100), 1);
    assert_eq!(frame_at(3, 100, 350), 0);
    assert_eq!(frame_at(0, 100, 350), 0);
    assert_eq!(frame_at(3, 0, 350), 0);
}

#[test]
fn input_state_starts_with_the_cursor_at_the_end() {
    let state = InputState::new("héllo".to_string());
    assert_eq!(state.cursor, 6);
    assert_eq!(state.selection, None);
    assert!(!state.multiline);
}

#[test]
fn node_views_copy_their_contents() {
    let text = NodeKind::Text { content: "hi".to_string() };
    match text.to_view(Instant::now()) {
        NodeKindView::Text { content } => assert_eq!(content, "hi"),
        other => panic!("expected text, got {other:?}"),
    }
    let started = Instant::now();
    let frames = NodeKind::Frames {
        frames: vec!["a".to_string(), "b".to_string()],
        interval: Duration::from_millis(10),
        started,
    };
    match frames.to_view(started + Duration::from_millis(15)) {
        NodeKindView::Frames { frames, interval, current } => {
            assert_eq!(frames, vec!["a".to_string(), "b".to_string()]);
            assert_eq!(interval, Duration::from_millis(10));
            assert_eq!(current, 1);
        }
        other => panic!("expected frames, got {other:?}"),
    }
}

#[test]
fn single_line_input_shows_newlines_as_spaces() {
    assert_eq!(input_display_content("a\nb", false, None), "a b");
    assert_eq!(input_display_content("a\nb", true, None), "a\nb");
}

#[test]
fn mask_replaces_each_grapheme_but_newlines() {
    assert_eq!(input_display_content("e\u{301}x", false, Some('*')), "**");
    assert_eq!(input_display_content("ab\ncd", true, Some('*')), "**\n**");
    assert_eq!(input_display_content("ab\ncd", false, Some('*')), "*****");
    let mut state = InputState::new("secret".to_string());
    state.mask = Some('•');
    assert_eq!(state.display_content(), "••••••");
}

#[test]
fn lines_split_like_str_lines() {
    for text in ["", "a", "a\n", "\n", "a\r\nb", "a\n\nb\r", "x\r\n\r\n", "\r"] {
        let expected: Vec<String> = text.lines().map(str::to_owned).collect();
        assert_eq!(split_lines(text), expected, "{text:?}");
    }
}

#[test]
fn scrolling_a_line_cuts_whole_clusters() {
    assert_eq!(scroll_line("hello", 0), "hello");
    assert_eq!(scroll_line("hello", 2), "llo");
    assert_eq!(scroll_line("hello", 9), "");
    // A wide glyph straddling the offset is cut with what came before it.
    assert_eq!(scroll_line("a界b", 2), "b");
    assert_eq!(scroll_line("a界b", 1), "界b");
}

#[test]
fn scrolled_display_skips_rows_and_columns() {
    assert_eq!(input_scrolled_display_content("one\ntwo\nthree", 1, 1), "wo\nhree");
    assert_eq!(input_scrolled_display_content("one\ntwo", 0, 5), "");
    assert_eq!(input_scrolled_display_content("one\n", 0, 0), "one");
}

#[test]
fn frames_index_counts_whole_intervals_since_the_start() {
    let started = Instant::now();
    let now = started + Duration::from_millis(25);
    assert_eq!(frames_index(3, Duration::from_millis(10), started, now), 2);
    assert_eq!(frames_index(2, Duration::from_millis(10), started, now), 0);
    // A start in the future counts as no time elapsed; a zero interval pins frame 0.
    assert_eq!(frames_index(3, Duration::from_millis(10), now, started), 0);
    assert_eq!(frames_index(3, Duration::ZERO, started, now), 0);
}
