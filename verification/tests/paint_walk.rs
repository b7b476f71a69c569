use tuidom::id::NodeId;
use tuidom::node::{LayoutRect, ScrollOffset};
use tuidom::paint_order::{entry_at, paint_order, scrollbar_strip_of, PaintEntry, PaintNode, ScrollbarPaint};
use tuidom::render::grid::ClipRect;
use tuidom::style::{Border, Overflow};

fn node(index: u64, layout: LayoutRect, z_index: i32, children: Vec<usize>) -> PaintNode {
    PaintNode {
        id: NodeId::new(index),
        painted: true,
        layout,
        border: Border::none(),
        overflow_x: Overflow::Visible,
        overflow_y: Overflow::Visible,
        z_index,
        scroll: ScrollOffset { x: 0, y: 0 },
        max_scroll_x: 0,
        max_scroll_y: 0,
        bars_shown: false,
        children,
    }
}

fn rect(x: i32, y: i32, width: u16, height: u16) -> LayoutRect {
    LayoutRect { x, y, width, height }
}

fn ids(entries: &[PaintEntry]) -> Vec<u64> {
    entries.iter().map(|e| e.id.index).collect()
}

#[test]
fn children_paint_by_z_index_then_dom_order() {
    let tree = vec![
        node(0, rect(0, 0, 10, 10), 0, vec![1, 2, 3]),
        node(1, rect(0, 0, 2, 2), 1, vec![]),
        node(2, rect(0, 0, 2, 2), 0, vec![]),
        node(3, rect(0, 0, 2, 2), 0, vec![]),
    ];
    let entries = paint_order(&tree, 0);
    assert_eq!(ids(&entries), vec![0, 2, 3, 1]);
    assert!(entries.iter().all(|e| e.scrollbar.is_none() && e.clip == ClipRect::unbounded()));
}

#[test]
fn unpainted_nodes_hide_their_subtree() {
    let mut tree = vec![
        node(0, rect(0, 0, 10, 10), 0, vec![1]),
        node(1, rect(0, 0, 5, 5), 0, vec![2]),
        node(2, rect(0, 0, 2, 2), 0, vec![]),
    ];
    tree[1].painted = false;
    assert_eq!(ids(&paint_order(&tree, 0)), vec![0]);
}

#[test]
fn scroll_containers_translate_clip_and_draw_bars_last() {
    let mut scroller = node(0, rect(0, 0, 4, 3), 0, vec![1, 2]);
    scroller.overflow_y = Overflow::Scroll;
    scroller.scroll = ScrollOffset { x: 0, y: 2 };
    scroller.max_scroll_y = 6;
    scroller.bars_shown = true;
    let tree = vec![
        scroller,
        node(1, rect(0, 0, 4, 1), 0, vec![]),
        node(2, rect(0, 3, 4, 1), 0, vec![]),
    ];
    let entries = paint_order(&tree, 0);
    // Child 1 scrolled above the viewport is culled; child 2 moves up by the offset.
    assert_eq!(ids(&entries), vec![0, 2, 0]);
    assert_eq!(entries[1].layout, rect(0, 1, 4, 1));
    assert_eq!(entries[1].clip, ClipRect { left: i64::MIN, top: 0, right: i64::MAX, bottom: 3 });
    assert_eq!(entries[2].layout, rect(3, 0, 1, 3));
    assert_eq!(entries[2].scrollbar, Some(ScrollbarPaint { vertical: true, thumb_start: 1, thumb_len: 1 }));

    assert_eq!(entry_at(&entries, 3, 1).unwrap().scrollbar.is_some(), true);
    assert_eq!(entry_at(&entries, 0, 1).unwrap().id, NodeId::new(2));
    assert_eq!(entry_at(&entries, 0, 0).unwrap().id, NodeId::new(0));
    assert_eq!(entry_at(&entries, 9, 9), None);
    assert_eq!(scrollbar_strip_of(&entries, NodeId::new(0), true), Some(entries[2]));
    assert_eq!(scrollbar_strip_of(&entries, NodeId::new(0), false), None);
}
