//! Turning terminal input into runtime events.
//!
//! The terminal backend reports a mouse report as what happened (a press, a
//! release, a move, a drag, a wheel tick), where, and which modifiers were held;
//! this decides the runtime event it becomes.

use vstd::prelude::*;

use crate::event::{KeyModifiers, MouseButton, MouseEvent, WheelAxis, WheelEvent};
use crate::runtime_event::RuntimeEvent;

verus! {

/// What a terminal mouse report describes.
#[derive(Debug, Clone, Copy, PartialEq, Eq, Structural)]
pub enum MouseAction {
    /// A button went down.
    Down(MouseButton),
    /// A button came up.
    Up(MouseButton),
    /// The pointer moved with a button held.
    Drag(MouseButton),
    /// The pointer moved with no button held.
    Moved,
    /// The wheel turned up.
    ScrollUp,
    /// The wheel turned down.
    ScrollDown,
    /// The wheel tilted left.
    ScrollLeft,
    /// The wheel tilted right.
    ScrollRight,
}

/// Whether `event` is the wheel event `(x, y, delta, axis, modifiers)`, fresh from input.
pub open spec fn is_wheel<P, H, F>(event: RuntimeEvent<P, H, F>, x: int, y: int, delta: int, axis: WheelAxis, modifier_bits: u8) -> bool {
    event matches RuntimeEvent::Wheel(w) && w.x == x && w.y == y && w.delta == delta && w.axis == axis
        && w.modifiers.bits() == modifier_bits && !w.default_prevented
}

/// Convert a terminal mouse report at `(column, row)` into a runtime event.
///
/// Presses and releases carry their button and every modifier. Shift turns a
/// vertical wheel tick into a horizontal one (up scrolls left), and a shift spent
/// picking the axis is not reported; on a natively horizontal tick it is a real
/// modifier and stays. A plain move holds no button; a drag holds its button.
pub fn convert_mouse_event<P, H, F>(action: MouseAction, column: u16, row: u16, modifiers: KeyModifiers) -> (event: Option<RuntimeEvent<P, H, F>>)
    ensures
        event is Some,
        match action {
            MouseAction::Down(button) => event matches Some(RuntimeEvent::MouseDown(m)) && m.x == column
                && m.y == row && m.button == button && m.modifiers == modifiers && !m.default_prevented,
            MouseAction::Up(button) => event matches Some(RuntimeEvent::MouseUp(m)) && m.x == column && m.y
                == row && m.button == button && m.modifiers == modifiers && !m.default_prevented,
            MouseAction::Drag(button) => event matches Some(RuntimeEvent::MouseMove { x, y, held }) && x
                == column && y == row && held == Some(button),
            MouseAction::Moved => event matches Some(RuntimeEvent::MouseMove { x, y, held }) && x == column
                && y == row && held is None,
            MouseAction::ScrollUp => if modifiers.bits() & 1 != 0 {
                is_wheel(event->0, column as int, row as int, 1, WheelAxis::Horizontal, modifiers.bits() & !1u8)
            } else {
                is_wheel(event->0, column as int, row as int, 1, WheelAxis::Vertical, modifiers.bits())
            },
            MouseAction::ScrollDown => if modifiers.bits() & 1 != 0 {
                is_wheel(event->0, column as int, row as int, -1, WheelAxis::Horizontal, modifiers.bits() & !1u8)
            } else {
                is_wheel(event->0, column as int, row as int, -1, WheelAxis::Vertical, modifiers.bits())
            },
            MouseAction::ScrollLeft => is_wheel(event->0, column as int, row as int, 1, WheelAxis::Horizontal, modifiers.bits()),
            MouseAction::ScrollRight => is_wheel(event->0, column as int, row as int, -1, WheelAxis::Horizontal, modifiers.bits()),
        },
{
    let x = column as i32;
    let y = row as i32;
    let shift = modifiers.contains(KeyModifiers::shift());
    proof {
        let b = modifiers.bits();
        assert((b & 1u8 == 1u8) == (b & 1u8 != 0u8)) by (bit_vector);
    }
    let beyond_axis = modifiers.without(KeyModifiers::shift());
    match action {
        MouseAction::Down(button) => Some(RuntimeEvent::MouseDown(MouseEvent::with_modifiers(x, y, button, modifiers))),
        MouseAction::Up(button) => Some(RuntimeEvent::MouseUp(MouseEvent::with_modifiers(x, y, button, modifiers))),
        MouseAction::ScrollUp => if shift {
            Some(RuntimeEvent::Wheel(WheelEvent::horizontal_with_modifiers(x, y, 1, beyond_axis)))
        } else {
            Some(RuntimeEvent::Wheel(WheelEvent::with_modifiers(x, y, 1, modifiers)))
        },
        MouseAction::ScrollDown => if shift {
            Some(RuntimeEvent::Wheel(WheelEvent::horizontal_with_modifiers(x, y, -1, beyond_axis)))
        } else {
            Some(RuntimeEvent::Wheel(WheelEvent::with_modifiers(x, y, -1, modifiers)))
        },
        MouseAction::Moved => Some(RuntimeEvent::MouseMove { x, y, held: None }),
        MouseAction::Drag(button) => Some(RuntimeEvent::MouseMove { x, y, held: Some(button) }),
        MouseAction::ScrollLeft => Some(RuntimeEvent::Wheel(WheelEvent::horizontal_with_modifiers(x, y, 1, modifiers))),
        MouseAction::ScrollRight => Some(RuntimeEvent::Wheel(WheelEvent::horizontal_with_modifiers(x, y, -1, modifiers))),
    }
}

} // verus!
