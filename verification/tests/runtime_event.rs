use tuidom::event::{KeyCode, KeyEvent, MouseButton, MouseEvent, ResizeEvent, WheelEvent};
use tuidom::id::NodeId;
use tuidom::node::LayoutRect;
use tuidom::node::ScrollOffset;
use tuidom::runtime_event::{
    begin_scrollbar_grab, coalesce, completes_click, drag_target, dragged_thumb_start, on_mouse_down, on_mouse_move,
    on_mouse_up, on_wheel, scrollbar_grab, strip_position, strip_span, ClickCandidate, MoveOutcome, PressOutcome,
    RuntimeEvent, RuntimeEventState, ScrollbarDrag, StripHit,
};

type Event = RuntimeEvent<(), (), ()>;

fn moved(x: i32, held: Option<MouseButton>) -> Event {
    RuntimeEvent::MouseMove { x, y: 0, held }
}

fn resized(width: u16) -> Event {
    RuntimeEvent::Resize(ResizeEvent { width, height: 24 })
}

fn coalesced(events: Vec<Event>) -> Vec<Event> {
    let mut batch = events;
    coalesce(&mut batch);
    batch
}

fn move_xs(events: &[Event]) -> Vec<i32> {
    events
        .iter()
        .filter_map(|event| match event {
            RuntimeEvent::MouseMove { x, .. } => Some(*x),
            _ => None,
        })
        .collect()
}

#[test]
fn a_single_event_batch_is_left_alone() {
    let batch = coalesced(vec![moved(3, None)]);
    assert_eq!(move_xs(&batch), vec![3]);
}

#[test]
fn a_run_of_moves_collapses_to_the_last_position() {
    let batch = coalesced(vec![moved(1, None), moved(2, None), moved(3, None)]);
    assert_eq!(batch.len(), 1);
    assert_eq!(move_xs(&batch), vec![3]);
}

#[test]
fn a_key_between_move_runs_breaks_them() {
    let batch = coalesced(vec![
        moved(1, None),
        moved(2, None),
        RuntimeEvent::KeyPress(KeyEvent::new(KeyCode::Char('a'))),
        moved(8, None),
        moved(9, None),
    ]);
    assert_eq!(batch.len(), 3);
    assert_eq!(move_xs(&batch), vec![2, 9]);
    assert!(matches!(batch[1], RuntimeEvent::KeyPress(_)));
}

#[test]
fn moves_do_not_merge_across_a_held_button_change() {
    let batch = coalesced(vec![
        moved(1, None),
        moved(2, None),
        moved(5, Some(MouseButton::Left)),
        moved(6, Some(MouseButton::Left)),
    ]);
    assert_eq!(move_xs(&batch), vec![2, 6], "hover and drag are different gestures");
}

#[test]
fn a_press_between_move_runs_breaks_them() {
    let batch = coalesced(vec![
        moved(1, None),
        moved(2, None),
        RuntimeEvent::MouseDown(MouseEvent::new(2, 0, MouseButton::Left)),
        moved(7, Some(MouseButton::Left)),
        moved(8, Some(MouseButton::Left)),
    ]);
    assert_eq!(batch.len(), 3);
    assert_eq!(move_xs(&batch), vec![2, 8]);
}

#[test]
fn a_run_of_resizes_collapses_to_the_final_size() {
    let batch = coalesced(vec![resized(80), resized(100), resized(120)]);
    assert_eq!(batch.len(), 1);
    match &batch[0] {
        RuntimeEvent::Resize(resize) => assert_eq!(resize.width, 120),
        other => panic!("expected a resize, got {other:?}"),
    }
}

#[test]
fn presses_releases_and_wheel_ticks_are_never_dropped() {
    let batch = coalesced(vec![
        RuntimeEvent::MouseDown(MouseEvent::new(1, 2, MouseButton::Left)),
        RuntimeEvent::MouseUp(MouseEvent::new(1, 2, MouseButton::Left)),
        RuntimeEvent::Wheel(WheelEvent::new(1, 2, 1)),
        RuntimeEvent::Wheel(WheelEvent::new(1, 2, 1)),
        RuntimeEvent::Wheel(WheelEvent::new(1, 2, 1)),
    ]);
    assert_eq!(batch.len(), 5);
}

#[test]
fn interleaved_moves_and_keys_keep_their_order() {
    let batch = coalesced(vec![
        moved(1, None),
        RuntimeEvent::KeyPress(KeyEvent::new(KeyCode::Char('a'))),
        moved(2, None),
        RuntimeEvent::KeyPress(KeyEvent::new(KeyCode::Char('b'))),
    ]);
    assert_eq!(batch.len(), 4, "nothing here is adjacent to its own kind");
    assert_eq!(move_xs(&batch), vec![1, 2]);
}

#[test]
fn an_empty_batch_stays_empty() {
    assert!(coalesced(Vec::new()).is_empty());
}

#[test]
fn click_needs_the_same_node_cell_and_button() {
    let down = ClickCandidate { target: NodeId::new(3), x: 1, y: 2, button: MouseButton::Left };
    assert!(completes_click(Some(down), NodeId::new(3), 1, 2, MouseButton::Left));
    assert!(!completes_click(Some(down), NodeId::new(3), 2, 2, MouseButton::Left));
    assert!(!completes_click(Some(down), NodeId::new(4), 1, 2, MouseButton::Left));
    assert!(!completes_click(Some(down), NodeId::new(3), 1, 2, MouseButton::Right));
    assert!(!completes_click(None, NodeId::new(3), 1, 2, MouseButton::Left));
    let state = RuntimeEventState::<()>::default();
    assert!(state.pending_click.is_none() && state.scrollbar_drag.is_none());
}

#[test]
fn scrollbar_strip_geometry() {
    let layout = LayoutRect { x: 10, y: 5, width: 1, height: 12 };
    assert_eq!(strip_position(&layout, true, 10, 9), 4);
    assert_eq!(strip_position(&layout, false, 13, 9), 3);
    assert_eq!(strip_span(&layout, true), 12);
    assert_eq!(strip_span(&layout, false), 1);
}

#[test]
fn scrollbar_grabs_in_place_or_jumps() {
    // Pressing the thumb grabs it where it is.
    assert_eq!(scrollbar_grab(5, 4, 3, 12), Some((1, false)));
    // Pressing the track centers the thumb under the cursor.
    assert_eq!(scrollbar_grab(10, 0, 4, 12), Some((2, true)));
    // Past the end the thumb stops at the strip's end: 12 - 4 = 8.
    assert_eq!(scrollbar_grab(11, 0, 4, 12), Some((3, true)));
    // A press before the strip would grab the thumb at a negative offset: no grab.
    assert_eq!(scrollbar_grab(-3, 5, 4, 12), None);
    assert_eq!(dragged_thumb_start(9, 2, 4, 12), 7);
    assert_eq!(dragged_thumb_start(20, 2, 4, 12), 8);
    assert_eq!(dragged_thumb_start(1, 2, 4, 12), 0);
}

fn strip() -> StripHit {
    StripHit {
        container: NodeId::new(5),
        vertical: true,
        layout: LayoutRect { x: 9, y: 0, width: 1, height: 12 },
        thumb_start: 0,
        thumb_len: 4,
    }
}

#[test]
fn a_left_press_on_a_strip_grabs_the_bar() {
    let state = RuntimeEventState::<u8>::new();
    let press = MouseEvent::new(9, 10, MouseButton::Left);
    let (next, outcome) = on_mouse_down(state, NodeId::new(5), &press, Some(strip()));
    let drag = ScrollbarDrag { container: NodeId::new(5), vertical: true, grab: 2 };
    assert_eq!(outcome, PressOutcome::Grab { drag, jump: true });
    assert_eq!(next.scrollbar_drag, Some(drag));
    assert_eq!(next.pending_click, None);
    assert_eq!(begin_scrollbar_grab(strip(), 9, 1), Some((ScrollbarDrag { grab: 1, ..drag }, false)));
}

#[test]
fn a_prevented_or_secondary_press_only_arms_a_click() {
    let state = RuntimeEventState::<u8>::new();
    let mut press = MouseEvent::new(9, 10, MouseButton::Left);
    press.prevent_default();
    let (next, outcome) = on_mouse_down(state, NodeId::new(5), &press, Some(strip()));
    assert_eq!(outcome, PressOutcome::Arm { begin_selection: false });
    assert_eq!(
        next.pending_click,
        Some(ClickCandidate { target: NodeId::new(5), x: 9, y: 10, button: MouseButton::Left })
    );
    let right = MouseEvent::new(1, 1, MouseButton::Right);
    let (_, outcome) = on_mouse_down(state, NodeId::new(2), &right, None);
    assert_eq!(outcome, PressOutcome::Arm { begin_selection: false });
    let left = MouseEvent::new(1, 1, MouseButton::Left);
    let (_, outcome) = on_mouse_down(state, NodeId::new(2), &left, None);
    assert_eq!(outcome, PressOutcome::Arm { begin_selection: true });
}

#[test]
fn click_is_generated_from_matching_down_and_up() {
    let state = RuntimeEventState::<u8>::new();
    let (state, _) = on_mouse_down(state, NodeId::new(1), &MouseEvent::new(1, 2, MouseButton::Left), None);
    let (state, click) = on_mouse_up(state, NodeId::new(1), &MouseEvent::new(1, 2, MouseButton::Left));
    assert!(click);
    assert!(state.pending_click.is_none());
}

#[test]
fn click_is_not_generated_when_up_cell_differs() {
    let state = RuntimeEventState::<u8>::new();
    let (state, _) = on_mouse_down(state, NodeId::new(1), &MouseEvent::new(1, 2, MouseButton::Left), None);
    let (state, click) = on_mouse_up(state, NodeId::new(1), &MouseEvent::new(2, 2, MouseButton::Left));
    assert!(!click);
    assert!(state.pending_click.is_none());
}

#[test]
fn a_wheel_tick_cancels_the_pending_click() {
    let state = RuntimeEventState::<u8>::new();
    let (state, _) = on_mouse_down(state, NodeId::new(1), &MouseEvent::new(1, 2, MouseButton::Left), None);
    let state = on_wheel(state);
    let (_, click) = on_mouse_up(state, NodeId::new(1), &MouseEvent::new(1, 2, MouseButton::Left));
    assert!(!click);
}

#[test]
fn moves_hover_drag_or_extend_the_selection() {
    let mut state = RuntimeEventState::<u8>::new();
    assert_eq!(on_mouse_move(&state, None), MoveOutcome::FocusHover);
    assert_eq!(on_mouse_move(&state, Some(MouseButton::Left)), MoveOutcome::Nothing);
    state.pending_selection = Some(7);
    assert_eq!(on_mouse_move(&state, Some(MouseButton::Left)), MoveOutcome::ExtendSelection);
    assert_eq!(on_mouse_move(&state, Some(MouseButton::Right)), MoveOutcome::Nothing);
    let drag = ScrollbarDrag { container: NodeId::new(5), vertical: true, grab: 1 };
    state.scrollbar_drag = Some(drag);
    assert_eq!(on_mouse_move(&state, Some(MouseButton::Left)), MoveOutcome::DragScrollbar(drag));
}

#[test]
fn dragging_a_bar_maps_the_thumb_back_to_an_offset() {
    let drag = ScrollbarDrag { container: NodeId::new(5), vertical: true, grab: 1 };
    let layout = LayoutRect { x: 9, y: 0, width: 1, height: 10 };
    let current = ScrollOffset { x: 3, y: 0 };
    // A 10-cell strip over 50 cells of content seen 10 at a time: thumb of 2, range 8.
    assert_eq!(drag_target(drag, layout, 2, 10, 40, current, 0, 1), ScrollOffset { x: 3, y: 0 });
    assert_eq!(drag_target(drag, layout, 2, 10, 40, current, 0, 9), ScrollOffset { x: 3, y: 40 });
    assert_eq!(drag_target(drag, layout, 2, 10, 40, current, 0, 5), ScrollOffset { x: 3, y: 20 });
}
