use tuidom::event::{KeyModifiers, MouseButton, WheelAxis, WheelEvent};
use tuidom::event_loop::{convert_mouse_event, MouseAction};
use tuidom::runtime_event::RuntimeEvent;

fn converted_wheel(action: MouseAction, modifiers: KeyModifiers) -> WheelEvent {
    match convert_mouse_event::<(), (), ()>(action, 3, 2, modifiers) {
        Some(RuntimeEvent::Wheel(wheel)) => wheel,
        other => panic!("expected a wheel event, got {other:?}"),
    }
}

#[test]
fn shift_wheel_converts_to_horizontal() {
    let wheel = converted_wheel(MouseAction::ScrollUp, KeyModifiers::shift());
    assert_eq!(wheel.axis, WheelAxis::Horizontal);
    assert_eq!(wheel.delta, 1);

    let wheel = converted_wheel(MouseAction::ScrollDown, KeyModifiers::shift());
    assert_eq!(wheel.axis, WheelAxis::Horizontal);
    assert_eq!(wheel.delta, -1);
}

#[test]
fn unshifted_wheel_stays_vertical() {
    let wheel = converted_wheel(MouseAction::ScrollUp, KeyModifiers::empty());
    assert_eq!(wheel.axis, WheelAxis::Vertical);
    assert_eq!(wheel.delta, 1);
}

#[test]
fn a_shift_spent_picking_the_axis_is_not_reported() {
    let translated = converted_wheel(MouseAction::ScrollUp, KeyModifiers::shift());
    let native = converted_wheel(MouseAction::ScrollLeft, KeyModifiers::empty());

    assert_eq!(translated.axis, WheelAxis::Horizontal);
    assert!(translated.modifiers.is_empty());
    assert_eq!(translated.modifiers, native.modifiers);
}

#[test]
fn modifiers_beyond_the_axis_survive_translation() {
    let wheel = converted_wheel(MouseAction::ScrollDown, KeyModifiers::shift() | KeyModifiers::control());

    assert_eq!(wheel.axis, WheelAxis::Horizontal);
    assert_eq!(wheel.modifiers, KeyModifiers::control());
}

#[test]
fn shift_on_a_native_horizontal_wheel_is_kept() {
    let wheel = converted_wheel(MouseAction::ScrollRight, KeyModifiers::shift());

    assert_eq!(wheel.axis, WheelAxis::Horizontal);
    assert_eq!(wheel.modifiers, KeyModifiers::shift());
}

#[test]
fn vertical_wheel_keeps_its_modifiers() {
    let wheel = converted_wheel(MouseAction::ScrollUp, KeyModifiers::control());

    assert_eq!(wheel.axis, WheelAxis::Vertical);
    assert_eq!(wheel.modifiers, KeyModifiers::control());
}

#[test]
fn mouse_buttons_carry_their_modifiers() {
    match convert_mouse_event::<(), (), ()>(MouseAction::Down(MouseButton::Left), 3, 2, KeyModifiers::control()) {
        Some(RuntimeEvent::MouseDown(mouse)) => {
            assert_eq!(mouse.modifiers, KeyModifiers::control());
            assert_eq!((mouse.x, mouse.y), (3, 2));
        }
        other => panic!("expected a mouse down event, got {other:?}"),
    }
}

#[test]
fn moves_and_drags_become_pointer_movement() {
    match convert_mouse_event::<(), (), ()>(MouseAction::Drag(MouseButton::Middle), 7, 1, KeyModifiers::empty()) {
        Some(RuntimeEvent::MouseMove { x, y, held }) => assert_eq!((x, y, held), (7, 1, Some(MouseButton::Middle))),
        other => panic!("expected a move, got {other:?}"),
    }
    match convert_mouse_event::<(), (), ()>(MouseAction::Moved, 0, 0, KeyModifiers::shift()) {
        Some(RuntimeEvent::MouseMove { held, .. }) => assert_eq!(held, None),
        other => panic!("expected a move, got {other:?}"),
    }
}
