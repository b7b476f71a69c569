use std::time::Duration;
use tuidom::paint_order::{bar_visibility, BarVisibility};
use tuidom::style::scrollbar::ScrollbarShow;
use tuidom::node::LayoutRect;
use tuidom::paint_order::{entry_contains, offset_for_thumb, thumb_geometry};

#[test]
fn thumb_mapping_is_exact_at_both_ends() {
    for (span, viewport, max_scroll) in [(10u16, 10u16, 40u16), (5, 8, 3), (24, 24, 100)] {
        let (start_at_zero, len) = thumb_geometry(span, viewport, max_scroll, 0);
        assert_eq!(start_at_zero, 0);
        assert_eq!(offset_for_thumb(span, viewport, max_scroll, 0), 0);

        let (start_at_max, _) = thumb_geometry(span, viewport, max_scroll, max_scroll);
        assert_eq!(start_at_max, span - len);
        assert_eq!(
            offset_for_thumb(span, viewport, max_scroll, span - len),
            max_scroll
        );
    }
}

#[test]
fn offset_for_thumb_clamps_past_the_range() {
    assert_eq!(offset_for_thumb(10, 10, 40, u16::MAX), 40);
}

#[test]
fn offset_for_thumb_is_monotonic() {
    let (span, viewport, max_scroll) = (12u16, 12u16, 30u16);
    let mut last = 0;
    for start in 0..span {
        let offset = offset_for_thumb(span, viewport, max_scroll, start);
        assert!(offset >= last);
        last = offset;
    }
}

#[test]
fn thumb_round_trips_when_range_covers_the_offsets() {
    let (span, viewport, max_scroll) = (30u16, 20u16, 10u16);
    for offset in 0..=max_scroll {
        let (start, _) = thumb_geometry(span, viewport, max_scroll, offset);
        assert_eq!(offset_for_thumb(span, viewport, max_scroll, start), offset);
    }
}

#[test]
fn degenerate_strips_map_to_zero() {
    assert_eq!(offset_for_thumb(0, 10, 40, 3), 0);
    assert_eq!(offset_for_thumb(10, 0, 0, 3), 0);
    assert_eq!(offset_for_thumb(10, 10, 0, 3), 0);
}

#[test]
fn thumb_geometry_exact_values() {
    // A 10-cell strip over 50 cells of content seen 10 at a time: the thumb is two
    // cells and sits at the proportional offset.
    assert_eq!(thumb_geometry(10, 10, 40, 0), (0, 2));
    assert_eq!(thumb_geometry(10, 10, 40, 20), (4, 2));
    assert_eq!(thumb_geometry(10, 10, 40, 40), (8, 2));
}

#[test]
fn entry_contains_is_half_open() {
    let rect = LayoutRect { x: 2, y: 3, width: 4, height: 2 };
    assert!(entry_contains(&rect, 2, 3));
    assert!(entry_contains(&rect, 5, 4));
    assert!(!entry_contains(&rect, 6, 4));
    assert!(!entry_contains(&rect, 5, 5));
    assert!(!entry_contains(&rect, 1, 3));
}

#[test]
fn scrollbar_visibility_follows_the_show_policy() {
    let (delay, fade) = (Duration::from_millis(1000), Duration::from_millis(250));
    let at = |show, focus, grabbed, since| bar_visibility(show, focus, grabbed, since, delay, fade);
    assert_eq!(at(ScrollbarShow::Always, false, false, None), BarVisibility::Shown);
    assert_eq!(at(ScrollbarShow::Never, true, true, None), BarVisibility::Hidden);
    assert_eq!(at(ScrollbarShow::WhenFocused, true, false, None), BarVisibility::Shown);
    assert_eq!(at(ScrollbarShow::WhenFocused, false, false, None), BarVisibility::Hidden);
    assert_eq!(at(ScrollbarShow::WhenScrolling, false, false, None), BarVisibility::Hidden);
    assert_eq!(at(ScrollbarShow::WhenScrolling, false, true, None), BarVisibility::Shown);
    assert_eq!(at(ScrollbarShow::WhenScrolling, false, false, Some(Duration::from_millis(1000))), BarVisibility::Shown);
    assert_eq!(at(ScrollbarShow::WhenScrolling, false, false, Some(Duration::from_millis(1100))), BarVisibility::Fading);
    assert_eq!(at(ScrollbarShow::WhenScrolling, false, false, Some(Duration::from_millis(1250))), BarVisibility::Hidden);
}
