use tuidom::event::{
    AnimationEndEvent, AnimationIterationEvent, EventPhase, FocusEvent, FocusEventRelation, FocusKeys, KeyCode,
    KeyEvent, KeyModifiers, MouseButton, MouseEvent, ScrollEvent, TargetedEvent, TransitionEndEvent, WheelAxis,
    WheelEvent,
};
use tuidom::id::NodeId;

#[test]
fn events_start_pending_at_the_origin_node() {
    let key = KeyEvent::new(KeyCode::Enter);
    assert_eq!(key.target(), NodeId::scoped(0, 0));
    assert_eq!(key.current_target(), NodeId::scoped(0, 0));
    assert_eq!(key.phase(), EventPhase::Target);
    assert!(!key.propagation_stopped());
    assert!(!key.default_prevented());
    assert!(key.modifiers.is_empty());
}

#[test]
fn dispatch_state_and_propagation() {
    let mut mouse = MouseEvent::new(3, 4, MouseButton::Right);
    mouse.set_dispatch_state(NodeId::scoped(1, 5), NodeId::scoped(1, 2), EventPhase::Bubble);
    assert_eq!(mouse.target(), NodeId::scoped(1, 5));
    assert_eq!(mouse.current_target(), NodeId::scoped(1, 2));
    assert_eq!(mouse.phase(), EventPhase::Bubble);
    mouse.stop_propagation();
    assert!(mouse.propagation_stopped());
    assert!(TargetedEvent::propagation_stopped(&mouse));
    mouse.prevent_default();
    assert!(mouse.default_prevented());
    assert_eq!((mouse.x, mouse.y, mouse.button), (3, 4, MouseButton::Right));
}

#[test]
fn focus_relation_follows_the_listener() {
    let mut focus = FocusEvent::new();
    assert_eq!(focus.relation(), FocusEventRelation::SelfNode);
    focus.set_dispatch_state(NodeId::new(7), NodeId::new(3), EventPhase::Bubble);
    assert_eq!(focus.relation(), FocusEventRelation::Descendant);
    focus.set_dispatch_state(NodeId::new(7), NodeId::new(7), EventPhase::Target);
    assert_eq!(focus.relation(), FocusEventRelation::SelfNode);
    focus.stop_propagation();
    assert!(focus.propagation_stopped());
}

#[test]
fn wheel_constructors_pick_the_axis() {
    let vertical = WheelEvent::new(1, 2, -1);
    assert_eq!(vertical.axis, WheelAxis::Vertical);
    assert_eq!(WheelAxis::default(), WheelAxis::Vertical);
    let horizontal = WheelEvent::horizontal_with_modifiers(1, 2, 1, KeyModifiers::control());
    assert_eq!(horizontal.axis, WheelAxis::Horizontal);
    assert_eq!(horizontal.modifiers, KeyModifiers::control());
    let mut wheel = WheelEvent::horizontal(0, 0, 3);
    wheel.prevent_default();
    assert!(wheel.default_prevented());
    assert_eq!(wheel.delta, 3);
}

#[test]
fn scroll_events_never_report_stopped_propagation() {
    let mut scroll = ScrollEvent::new(4, 9);
    scroll.set_dispatch_state(NodeId::new(2), NodeId::new(2), EventPhase::Target);
    assert_eq!(scroll.target(), NodeId::new(2));
    assert!(!TargetedEvent::propagation_stopped(&scroll));
    assert_eq!((scroll.x, scroll.y), (4, 9));
}

#[test]
fn animation_events_carry_their_payload() {
    let mut end = AnimationEndEvent::new(17u64);
    end.stop_propagation();
    assert!(end.propagation_stopped());
    assert_eq!(end.handle, 17);
    let iteration = AnimationIterationEvent::new("spin", 3);
    assert_eq!((iteration.handle, iteration.iteration), ("spin", 3));
    let mut transition = TransitionEndEvent::new('w');
    transition.set_dispatch_state(NodeId::new(1), NodeId::new(0), EventPhase::Bubble);
    assert_eq!(transition.current_target(), NodeId::new(0));
    assert_eq!(transition.property, 'w');
}

#[test]
fn default_focus_keys() {
    let keys = FocusKeys::default();
    assert_eq!(keys.next, vec![KeyCode::Tab]);
    assert_eq!(keys.previous, vec![KeyCode::BackTab]);
    assert_eq!(keys.up, vec![KeyCode::Up]);
    assert_eq!(keys.down, vec![KeyCode::Down]);
    assert_eq!(keys.left, vec![KeyCode::Left]);
    assert_eq!(keys.right, vec![KeyCode::Right]);
    assert_eq!(keys.blur, vec![KeyCode::Esc]);
}

#[test]
fn mutators_change_only_their_own_flag() {
    let mut key = KeyEvent::with_modifiers(KeyCode::Char('q'), KeyModifiers::control());
    key.prevent_default();
    key.prevent_default();
    assert!(key.default_prevented());
    assert!(!key.propagation_stopped());
    assert_eq!(key.code, KeyCode::Char('q'));
    assert_eq!(key.modifiers, KeyModifiers::control());

    let mut mouse = MouseEvent::new(4, 7, MouseButton::Left);
    mouse.stop_propagation();
    assert!(mouse.propagation_stopped());
    assert!(!mouse.default_prevented());
    assert_eq!((mouse.x, mouse.y, mouse.button), (4, 7, MouseButton::Left));
}
