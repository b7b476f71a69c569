//! Event types for DOM event handling.
//!
//! Events flow from the terminal through the render loop to registered handlers. A
//! targeted event carries its dispatch state — the node it targets, the node whose
//! listeners run now, the phase, and whether propagation stopped — which only the
//! dispatcher sets; listeners read it and may stop propagation or prevent the
//! default action.

pub mod key;

pub use key::{KeyCode, KeyModifiers, MediaKeyCode, ModifierKeyCode};

use vstd::prelude::*;

use crate::id::NodeId;

verus! {

/// Keyboard bindings used by document-level focus default actions.
#[derive(Debug, Clone, PartialEq, Eq)]
pub struct FocusKeys {
    /// Keys that move focus to the next focusable node in DOM order.
    pub next: Vec<KeyCode>,
    /// Keys that move focus to the previous focusable node in DOM order.
    pub previous: Vec<KeyCode>,
    /// Keys that move focus spatially upward.
    pub up: Vec<KeyCode>,
    /// Keys that move focus spatially downward.
    pub down: Vec<KeyCode>,
    /// Keys that move focus spatially left.
    pub left: Vec<KeyCode>,
    /// Keys that move focus spatially right.
    pub right: Vec<KeyCode>,
    /// Keys that clear the current focus.
    pub blur: Vec<KeyCode>,
}

impl Default for FocusKeys {
    fn default() -> (keys: Self)
        ensures
            keys.next@ == seq![KeyCode::Tab],
            keys.previous@ == seq![KeyCode::BackTab],
            keys.up@ == seq![KeyCode::Up],
            keys.down@ == seq![KeyCode::Down],
            keys.left@ == seq![KeyCode::Left],
            keys.right@ == seq![KeyCode::Right],
            keys.blur@ == seq![KeyCode::Esc],
    {
        Self {
            next: vec![KeyCode::Tab],
            previous: vec![KeyCode::BackTab],
            up: vec![KeyCode::Up],
            down: vec![KeyCode::Down],
            left: vec![KeyCode::Left],
            right: vec![KeyCode::Right],
            blur: vec![KeyCode::Esc],
        }
    }
}

/// Opaque handle returned when registering an event listener.
#[derive(Debug, Clone, Copy, PartialEq, Eq, Hash, Structural)]
pub struct ListenerHandle {
    pub(crate) document_id: u64,
    pub(crate) id: u64,
}

impl ListenerHandle {
    pub(crate) fn new(document_id: u64, id: u64) -> (handle: Self)
        ensures
            handle.document_id == document_id,
            handle.id == id,
    {
        Self { document_id, id }
    }
}

/// The current dispatch phase for a targeted event.
#[derive(Debug, Clone, Copy, PartialEq, Eq, Structural)]
pub enum EventPhase {
    /// Dispatch is invoking listeners on the target node.
    Target,
    /// Dispatch is invoking listeners on an ancestor of the target node.
    Bubble,
}

/// Relation between the focused/blurred target and the listener currently receiving the event.
#[derive(Debug, Clone, Copy, PartialEq, Eq, Hash, Structural)]
pub enum FocusEventRelation {
    /// The current listener node is the node that gained or lost focus.
    SelfNode,
    /// The current listener node is an ancestor of the node that gained or lost focus.
    Descendant,
}

/// Mouse buttons reported by terminal mouse input.
#[derive(Debug, Clone, Copy, PartialEq, Eq, Hash, Structural)]
pub enum MouseButton {
    /// Primary mouse button.
    Left,
    /// Secondary mouse button.
    Right,
    /// Middle mouse button.
    Middle,
}

/// Dispatch state of a targeted event.
#[derive(Debug, Clone, Copy, PartialEq, Eq, Structural)]
pub struct TargetedMetadata {
    /// The node the event targets.
    pub target: NodeId,
    /// The node whose listeners are being invoked.
    pub current_target: NodeId,
    /// The dispatch phase.
    pub phase: EventPhase,
    /// Whether a listener stopped propagation.
    pub propagation_stopped: bool,
}

/// The state of an event not dispatched yet: node 0 of document 0, target phase,
/// propagating.
pub open spec fn pending_state() -> TargetedMetadata {
    let pending = NodeId { document_id: 0, index: 0 };
    TargetedMetadata { target: pending, current_target: pending, phase: EventPhase::Target, propagation_stopped: false }
}

/// `meta` with the dispatch position replaced.
pub open spec fn dispatched(meta: TargetedMetadata, target: NodeId, current_target: NodeId, phase: EventPhase) -> TargetedMetadata {
    TargetedMetadata { target, current_target, phase, ..meta }
}

/// `meta` with propagation stopped.
pub open spec fn stopped(meta: TargetedMetadata) -> TargetedMetadata {
    TargetedMetadata { propagation_stopped: true, ..meta }
}

impl TargetedMetadata {
    fn pending() -> (meta: Self)
        ensures
            meta == pending_state(),
    {
        let pending = NodeId::scoped(0, 0);
        Self { target: pending, current_target: pending, phase: EventPhase::Target, propagation_stopped: false }
    }

    fn set_dispatch_state(&mut self, target: NodeId, current_target: NodeId, phase: EventPhase)
        ensures
            *final(self) == dispatched(*old(self), target, current_target, phase),
    {
        self.target = target;
        self.current_target = current_target;
        self.phase = phase;
    }
}

/// An event the dispatcher walks from its target up through the ancestors.
pub trait TargetedEvent {
    /// The event's dispatch state.
    spec fn dispatch_state(&self) -> TargetedMetadata;

    /// Whether a listener has stopped propagation, as the dispatcher sees it.
    spec fn stops(&self) -> bool;

    /// Position the event at `current_target` on its way from `target`.
    fn set_dispatch_state(&mut self, target: NodeId, current_target: NodeId, phase: EventPhase)
        ensures
            final(self).dispatch_state() == dispatched(old(self).dispatch_state(), target, current_target, phase),
    ;

    /// Whether dispatch should stop before the next ancestor.
    fn propagation_stopped(&self) -> (stop: bool)
        ensures
            stop == self.stops(),
    ;
}

/// A keyboard event.
#[derive(Debug, Clone)]
pub struct KeyEvent {
    /// The key that was pressed.
    pub code: KeyCode,
    /// Modifier keys held during the press.
    pub modifiers: KeyModifiers,
    /// Dispatch state, set by the dispatcher as the event travels.
    pub metadata: TargetedMetadata,
    /// Whether a listener prevented the default action.
    pub default_prevented: bool,
}

impl KeyEvent {
    /// The event's dispatch state.
    pub open spec fn meta(&self) -> TargetedMetadata {
        self.metadata
    }

    /// Whether the default action has been prevented.
    pub open spec fn prevented(&self) -> bool {
        self.default_prevented
    }

    /// A key press with no modifiers held.
    pub fn new(code: KeyCode) -> (event: Self)
        ensures
            event.meta() == pending_state(),
            event.code == code,
            event.modifiers.bits() == 0,
            !event.prevented(),
    {
        Self { code, modifiers: KeyModifiers::empty(), metadata: TargetedMetadata::pending(), default_prevented: false }
    }
    /// A key press with `modifiers` held.
    pub fn with_modifiers(code: KeyCode, modifiers: KeyModifiers) -> (event: Self)
        ensures
            event.meta() == pending_state(),
            event.code == code,
            event.modifiers == modifiers,
            !event.prevented(),
    {
        Self { code, modifiers, metadata: TargetedMetadata::pending(), default_prevented: false }
    }

    /// The node this event originally targeted.
    pub fn target(&self) -> (node: NodeId)
        ensures
            node == self.meta().target,
    {
        self.metadata.target
    }

    /// The node whose listeners are currently being invoked.
    pub fn current_target(&self) -> (node: NodeId)
        ensures
            node == self.meta().current_target,
    {
        self.metadata.current_target
    }

    /// The current dispatch phase.
    pub fn phase(&self) -> (phase: EventPhase)
        ensures
            phase == self.meta().phase,
    {
        self.metadata.phase
    }

    /// Stop this event from bubbling to ancestor nodes.
    pub fn stop_propagation(&mut self)
        ensures
            *final(self) == (Self { metadata: stopped(old(self).metadata), ..*old(self) }),
    {
        self.metadata.propagation_stopped = true;
    }

    /// Whether propagation to ancestor nodes has been stopped.
    pub fn propagation_stopped(&self) -> (stopped: bool)
        ensures
            stopped == self.meta().propagation_stopped,
    {
        self.metadata.propagation_stopped
    }

    /// Prevent document-level default handling for this event.
    ///
    /// This does not stop propagation.
    pub fn prevent_default(&mut self)
        ensures
            *final(self) == (Self { default_prevented: true, ..*old(self) }),
    {
        self.default_prevented = true;
    }

    /// Whether document-level default handling has been prevented.
    pub fn default_prevented(&self) -> (prevented: bool)
        ensures
            prevented == self.prevented(),
    {
        self.default_prevented
    }

}

impl TargetedEvent for KeyEvent {
    open spec fn dispatch_state(&self) -> TargetedMetadata {
        self.meta()
    }

    open spec fn stops(&self) -> bool {
        self.meta().propagation_stopped
    }

    fn set_dispatch_state(&mut self, target: NodeId, current_target: NodeId, phase: EventPhase)
        ensures
            final(self).dispatch_state() == dispatched(old(self).dispatch_state(), target, current_target, phase),
            *final(self) == (Self { metadata: dispatched(old(self).metadata, target, current_target, phase), ..*old(self) }),
    {
        self.metadata.set_dispatch_state(target, current_target, phase);
    }

    fn propagation_stopped(&self) -> (stop: bool) {
        self.metadata.propagation_stopped
    }
}

/// A focus or blur event.
#[derive(Debug, Clone)]
pub struct FocusEvent {
    /// Dispatch state, set by the dispatcher as the event travels.
    pub metadata: TargetedMetadata,
    /// The relation between the target and the node whose listeners run now.
    pub relation: FocusEventRelation,
}

impl FocusEvent {
    /// The event's dispatch state.
    pub open spec fn meta(&self) -> TargetedMetadata {
        self.metadata
    }

    /// The relation between the event's target and the listener's node.
    pub open spec fn related(&self) -> FocusEventRelation {
        self.relation
    }

    pub fn new() -> (event: Self)
        ensures
            event.meta() == pending_state(),
            event.related() == FocusEventRelation::SelfNode,
    {
        Self { metadata: TargetedMetadata::pending(), relation: FocusEventRelation::SelfNode }
    }

    /// The node this event originally targeted.
    pub fn target(&self) -> (node: NodeId)
        ensures
            node == self.meta().target,
    {
        self.metadata.target
    }

    /// The node whose listeners are currently being invoked.
    pub fn current_target(&self) -> (node: NodeId)
        ensures
            node == self.meta().current_target,
    {
        self.metadata.current_target
    }

    /// The current dispatch phase.
    pub fn phase(&self) -> (phase: EventPhase)
        ensures
            phase == self.meta().phase,
    {
        self.metadata.phase
    }

    /// Whether the current listener node is the focused/blurred node or an ancestor.
    pub fn relation(&self) -> (relation: FocusEventRelation)
        ensures
            relation == self.related(),
    {
        self.relation
    }

    /// Stop this event from bubbling to ancestor nodes.
    pub fn stop_propagation(&mut self)
        ensures
            *final(self) == (Self { metadata: stopped(old(self).metadata), ..*old(self) }),
    {
        self.metadata.propagation_stopped = true;
    }

    /// Whether propagation to ancestor nodes has been stopped.
    pub fn propagation_stopped(&self) -> (stopped: bool)
        ensures
            stopped == self.meta().propagation_stopped,
    {
        self.metadata.propagation_stopped
    }

}

impl TargetedEvent for FocusEvent {
    open spec fn dispatch_state(&self) -> TargetedMetadata {
        self.meta()
    }

    open spec fn stops(&self) -> bool {
        self.meta().propagation_stopped
    }

    fn set_dispatch_state(&mut self, target: NodeId, current_target: NodeId, phase: EventPhase)
        ensures
            final(self).related() == if current_target == target {
                FocusEventRelation::SelfNode
            } else {
                FocusEventRelation::Descendant
            },
            final(self).dispatch_state() == dispatched(old(self).dispatch_state(), target, current_target, phase),
    {
        self.metadata.set_dispatch_state(target, current_target, phase);
        self.relation = if current_target == target {
            FocusEventRelation::SelfNode
        } else {
            FocusEventRelation::Descendant
        };
    }

    fn propagation_stopped(&self) -> (stop: bool) {
        self.metadata.propagation_stopped
    }
}

/// A mouse button event.
#[derive(Debug, Clone)]
pub struct MouseEvent {
    /// X coordinate in terminal cells.
    pub x: i32,
    /// Y coordinate in terminal cells.
    pub y: i32,
    /// Mouse button involved in the event.
    pub button: MouseButton,
    /// Modifier keys held during the event.
    pub modifiers: KeyModifiers,
    /// Dispatch state, set by the dispatcher as the event travels.
    pub metadata: TargetedMetadata,
    /// Whether a listener prevented the default action.
    pub default_prevented: bool,
}

impl MouseEvent {
    /// The event's dispatch state.
    pub open spec fn meta(&self) -> TargetedMetadata {
        self.metadata
    }

    /// Whether the default action has been prevented.
    pub open spec fn prevented(&self) -> bool {
        self.default_prevented
    }

    /// Create a mouse button event.
    pub fn new(x: i32, y: i32, button: MouseButton) -> (event: Self)
        ensures
            event.meta() == pending_state(),
            event.x == x,
            event.y == y,
            event.button == button,
            event.modifiers.bits() == 0,
            !event.prevented(),
    {
        Self { x, y, button, modifiers: KeyModifiers::empty(), metadata: TargetedMetadata::pending(), default_prevented: false }
    }

    /// Create a mouse button event with `modifiers` held.
    pub fn with_modifiers(x: i32, y: i32, button: MouseButton, modifiers: KeyModifiers) -> (event: Self)
        ensures
            event.meta() == pending_state(),
            event.x == x,
            event.y == y,
            event.button == button,
            event.modifiers == modifiers,
            !event.prevented(),
    {
        Self { x, y, button, modifiers, metadata: TargetedMetadata::pending(), default_prevented: false }
    }

    /// The node this event originally targeted.
    pub fn target(&self) -> (node: NodeId)
        ensures
            node == self.meta().target,
    {
        self.metadata.target
    }

    /// The node whose listeners are currently being invoked.
    pub fn current_target(&self) -> (node: NodeId)
        ensures
            node == self.meta().current_target,
    {
        self.metadata.current_target
    }

    /// The current dispatch phase.
    pub fn phase(&self) -> (phase: EventPhase)
        ensures
            phase == self.meta().phase,
    {
        self.metadata.phase
    }

    /// Stop this event from bubbling to ancestor nodes.
    pub fn stop_propagation(&mut self)
        ensures
            *final(self) == (Self { metadata: stopped(old(self).metadata), ..*old(self) }),
    {
        self.metadata.propagation_stopped = true;
    }

    /// Whether propagation to ancestor nodes has been stopped.
    pub fn propagation_stopped(&self) -> (stopped: bool)
        ensures
            stopped == self.meta().propagation_stopped,
    {
        self.metadata.propagation_stopped
    }

    /// Prevent document-level default handling for this event.
    ///
    /// This does not stop propagation.
    pub fn prevent_default(&mut self)
        ensures
            *final(self) == (Self { default_prevented: true, ..*old(self) }),
    {
        self.default_prevented = true;
    }

    /// Whether document-level default handling has been prevented.
    pub fn default_prevented(&self) -> (prevented: bool)
        ensures
            prevented == self.prevented(),
    {
        self.default_prevented
    }

}

impl TargetedEvent for MouseEvent {
    open spec fn dispatch_state(&self) -> TargetedMetadata {
        self.meta()
    }

    open spec fn stops(&self) -> bool {
        self.meta().propagation_stopped
    }

    fn set_dispatch_state(&mut self, target: NodeId, current_target: NodeId, phase: EventPhase)
        ensures
            final(self).dispatch_state() == dispatched(old(self).dispatch_state(), target, current_target, phase),
            *final(self) == (Self { metadata: dispatched(old(self).metadata, target, current_target, phase), ..*old(self) }),
    {
        self.metadata.set_dispatch_state(target, current_target, phase);
    }

    fn propagation_stopped(&self) -> (stop: bool) {
        self.metadata.propagation_stopped
    }
}

/// The axis a wheel event scrolls along.
#[derive(Debug, Clone, Copy, PartialEq, Eq, Structural)]
pub enum WheelAxis {
    /// Vertical scrolling — the common mouse wheel.
    Vertical,
    /// Horizontal scrolling — tilt wheels and trackpads, where the terminal reports them.
    Horizontal,
}

impl Default for WheelAxis {
    fn default() -> (axis: Self)
        ensures
            axis == WheelAxis::Vertical,
    {
        WheelAxis::Vertical
    }
}

/// A mouse wheel event.
#[derive(Debug, Clone)]
pub struct WheelEvent {
    /// X coordinate in terminal cells.
    pub x: i32,
    /// Y coordinate in terminal cells.
    pub y: i32,
    /// Signed wheel delta. Positive values move toward the start of the axis — up or
    /// left; negative values move toward the end — down or right.
    pub delta: i16,
    /// The axis this event scrolls along.
    pub axis: WheelAxis,
    /// Modifier keys held during the event.
    pub modifiers: KeyModifiers,
    /// Dispatch state, set by the dispatcher as the event travels.
    pub metadata: TargetedMetadata,
    /// Whether a listener prevented the default action.
    pub default_prevented: bool,
}

impl WheelEvent {
    /// The event's dispatch state.
    pub open spec fn meta(&self) -> TargetedMetadata {
        self.metadata
    }

    /// Whether the default action has been prevented.
    pub open spec fn prevented(&self) -> bool {
        self.default_prevented
    }

    /// Create a vertical wheel event.
    pub fn new(x: i32, y: i32, delta: i16) -> (event: Self)
        ensures
            event.meta() == pending_state(),
            event.x == x,
            event.y == y,
            event.delta == delta,
            event.axis == WheelAxis::Vertical,
            event.modifiers.bits() == 0,
            !event.prevented(),
    {
        Self { x, y, delta, axis: WheelAxis::Vertical, modifiers: KeyModifiers::empty(), metadata: TargetedMetadata::pending(), default_prevented: false }
    }

    /// Create a vertical wheel event with `modifiers` held.
    pub fn with_modifiers(x: i32, y: i32, delta: i16, modifiers: KeyModifiers) -> (event: Self)
        ensures
            event.meta() == pending_state(),
            event.x == x,
            event.y == y,
            event.delta == delta,
            event.axis == WheelAxis::Vertical,
            event.modifiers == modifiers,
            !event.prevented(),
    {
        Self { x, y, delta, axis: WheelAxis::Vertical, modifiers, metadata: TargetedMetadata::pending(), default_prevented: false }
    }
    /// Create a horizontal wheel event.
    pub fn horizontal(x: i32, y: i32, delta: i16) -> (event: Self)
        ensures
            event.meta() == pending_state(),
            event.x == x,
            event.y == y,
            event.delta == delta,
            event.axis == WheelAxis::Horizontal,
            event.modifiers.bits() == 0,
            !event.prevented(),
    {
        Self { x, y, delta, axis: WheelAxis::Horizontal, modifiers: KeyModifiers::empty(), metadata: TargetedMetadata::pending(), default_prevented: false }
    }

    /// Create a horizontal wheel event with `modifiers` held.
    pub fn horizontal_with_modifiers(x: i32, y: i32, delta: i16, modifiers: KeyModifiers) -> (event: Self)
        ensures
            event.meta() == pending_state(),
            event.x == x,
            event.y == y,
            event.delta == delta,
            event.axis == WheelAxis::Horizontal,
            event.modifiers == modifiers,
            !event.prevented(),
    {
        Self { x, y, delta, axis: WheelAxis::Horizontal, modifiers, metadata: TargetedMetadata::pending(), default_prevented: false }
    }

    /// The node this event originally targeted.
    pub fn target(&self) -> (node: NodeId)
        ensures
            node == self.meta().target,
    {
        self.metadata.target
    }

    /// The node whose listeners are currently being invoked.
    pub fn current_target(&self) -> (node: NodeId)
        ensures
            node == self.meta().current_target,
    {
        self.metadata.current_target
    }

    /// The current dispatch phase.
    pub fn phase(&self) -> (phase: EventPhase)
        ensures
            phase == self.meta().phase,
    {
        self.metadata.phase
    }

    /// Stop this event from bubbling to ancestor nodes.
    pub fn stop_propagation(&mut self)
        ensures
            *final(self) == (Self { metadata: stopped(old(self).metadata), ..*old(self) }),
    {
        self.metadata.propagation_stopped = true;
    }

    /// Whether propagation to ancestor nodes has been stopped.
    pub fn propagation_stopped(&self) -> (stopped: bool)
        ensures
            stopped == self.meta().propagation_stopped,
    {
        self.metadata.propagation_stopped
    }

    /// Prevent document-level default handling for this event.
    ///
    /// This does not stop propagation.
    pub fn prevent_default(&mut self)
        ensures
            *final(self) == (Self { default_prevented: true, ..*old(self) }),
    {
        self.default_prevented = true;
    }

    /// Whether document-level default handling has been prevented.
    pub fn default_prevented(&self) -> (prevented: bool)
        ensures
            prevented == self.prevented(),
    {
        self.default_prevented
    }

}

impl TargetedEvent for WheelEvent {
    open spec fn dispatch_state(&self) -> TargetedMetadata {
        self.meta()
    }

    open spec fn stops(&self) -> bool {
        self.meta().propagation_stopped
    }

    fn set_dispatch_state(&mut self, target: NodeId, current_target: NodeId, phase: EventPhase)
        ensures
            final(self).dispatch_state() == dispatched(old(self).dispatch_state(), target, current_target, phase),
            *final(self) == (Self { metadata: dispatched(old(self).metadata, target, current_target, phase), ..*old(self) }),
    {
        self.metadata.set_dispatch_state(target, current_target, phase);
    }

    fn propagation_stopped(&self) -> (stop: bool) {
        self.metadata.propagation_stopped
    }
}

/// A scroll offset change on an overflow container.
///
/// Fires on the container whose offset changed. It does not bubble.
#[derive(Debug, Clone)]
pub struct ScrollEvent {
    /// The container's new horizontal scroll offset in terminal cells.
    pub x: u16,
    /// The container's new vertical scroll offset in terminal cells.
    pub y: u16,
    /// Dispatch state, set by the dispatcher as the event travels.
    pub metadata: TargetedMetadata,
}

impl ScrollEvent {
    /// The event's dispatch state.
    pub open spec fn meta(&self) -> TargetedMetadata {
        self.metadata
    }

    /// A scroll to `(x, y)`.
    pub fn new(x: u16, y: u16) -> (event: Self)
        ensures
            event.meta() == pending_state(),
            event.x == x,
            event.y == y,
    {
        Self { x, y, metadata: TargetedMetadata::pending() }
    }

    /// The node this event originally targeted.
    pub fn target(&self) -> (node: NodeId)
        ensures
            node == self.meta().target,
    {
        self.metadata.target
    }

}

impl TargetedEvent for ScrollEvent {
    open spec fn dispatch_state(&self) -> TargetedMetadata {
        self.meta()
    }

    open spec fn stops(&self) -> bool {
        false
    }

    fn set_dispatch_state(&mut self, target: NodeId, current_target: NodeId, phase: EventPhase)
        ensures
            final(self).dispatch_state() == dispatched(old(self).dispatch_state(), target, current_target, phase),
            *final(self) == (Self { metadata: dispatched(old(self).metadata, target, current_target, phase), ..*old(self) }),
    {
        self.metadata.set_dispatch_state(target, current_target, phase);
    }

    fn propagation_stopped(&self) -> (stop: bool) {
        // A scroll event does not bubble, so propagation can never be observed mid-flight.
        false
    }
}

/// A completed property transition.
///
/// Fires on the transitioned node once the property settles on its target value,
/// and bubbles.
#[derive(Debug, Clone)]
pub struct TransitionEndEvent<P> {
    /// The property that finished transitioning.
    pub property: P,
    /// Dispatch state, set by the dispatcher as the event travels.
    pub metadata: TargetedMetadata,
}

impl<P> TransitionEndEvent<P> {
    /// The event's dispatch state.
    pub open spec fn meta(&self) -> TargetedMetadata {
        self.metadata
    }

    /// The end of a transition of `property`.
    pub fn new(property: P) -> (event: Self)
        ensures
            event.meta() == pending_state(),
            event.property == property,
    {
        Self { property, metadata: TargetedMetadata::pending() }
    }

    /// The node this event originally targeted.
    pub fn target(&self) -> (node: NodeId)
        ensures
            node == self.meta().target,
    {
        self.metadata.target
    }

    /// The node whose listeners are currently being invoked.
    pub fn current_target(&self) -> (node: NodeId)
        ensures
            node == self.meta().current_target,
    {
        self.metadata.current_target
    }

    /// The current dispatch phase.
    pub fn phase(&self) -> (phase: EventPhase)
        ensures
            phase == self.meta().phase,
    {
        self.metadata.phase
    }

    /// Stop this event from bubbling to ancestor nodes.
    pub fn stop_propagation(&mut self)
        ensures
            *final(self) == (Self { metadata: stopped(old(self).metadata), ..*old(self) }),
    {
        self.metadata.propagation_stopped = true;
    }

    /// Whether propagation to ancestor nodes has been stopped.
    pub fn propagation_stopped(&self) -> (stopped: bool)
        ensures
            stopped == self.meta().propagation_stopped,
    {
        self.metadata.propagation_stopped
    }

}

impl<P> TargetedEvent for TransitionEndEvent<P> {
    open spec fn dispatch_state(&self) -> TargetedMetadata {
        self.meta()
    }

    open spec fn stops(&self) -> bool {
        self.meta().propagation_stopped
    }

    fn set_dispatch_state(&mut self, target: NodeId, current_target: NodeId, phase: EventPhase)
        ensures
            final(self).dispatch_state() == dispatched(old(self).dispatch_state(), target, current_target, phase),
            *final(self) == (Self { metadata: dispatched(old(self).metadata, target, current_target, phase), ..*old(self) }),
    {
        self.metadata.set_dispatch_state(target, current_target, phase);
    }

    fn propagation_stopped(&self) -> (stop: bool) {
        self.metadata.propagation_stopped
    }
}

/// A keyframe animation that ran all its iterations.
///
/// Fires on the animated node and bubbles.
#[derive(Debug, Clone)]
pub struct AnimationEndEvent<H> {
    /// The handle of the animation that finished.
    pub handle: H,
    /// Dispatch state, set by the dispatcher as the event travels.
    pub metadata: TargetedMetadata,
}

impl<H> AnimationEndEvent<H> {
    /// The event's dispatch state.
    pub open spec fn meta(&self) -> TargetedMetadata {
        self.metadata
    }

    /// The end of the animation `handle`.
    pub fn new(handle: H) -> (event: Self)
        ensures
            event.meta() == pending_state(),
            event.handle == handle,
    {
        Self { handle, metadata: TargetedMetadata::pending() }
    }

    /// The node this event originally targeted.
    pub fn target(&self) -> (node: NodeId)
        ensures
            node == self.meta().target,
    {
        self.metadata.target
    }

    /// The node whose listeners are currently being invoked.
    pub fn current_target(&self) -> (node: NodeId)
        ensures
            node == self.meta().current_target,
    {
        self.metadata.current_target
    }

    /// The current dispatch phase.
    pub fn phase(&self) -> (phase: EventPhase)
        ensures
            phase == self.meta().phase,
    {
        self.metadata.phase
    }

    /// Stop this event from bubbling to ancestor nodes.
    pub fn stop_propagation(&mut self)
        ensures
            *final(self) == (Self { metadata: stopped(old(self).metadata), ..*old(self) }),
    {
        self.metadata.propagation_stopped = true;
    }

    /// Whether propagation to ancestor nodes has been stopped.
    pub fn propagation_stopped(&self) -> (stopped: bool)
        ensures
            stopped == self.meta().propagation_stopped,
    {
        self.metadata.propagation_stopped
    }

}

impl<H> TargetedEvent for AnimationEndEvent<H> {
    open spec fn dispatch_state(&self) -> TargetedMetadata {
        self.meta()
    }

    open spec fn stops(&self) -> bool {
        self.meta().propagation_stopped
    }

    fn set_dispatch_state(&mut self, target: NodeId, current_target: NodeId, phase: EventPhase)
        ensures
            final(self).dispatch_state() == dispatched(old(self).dispatch_state(), target, current_target, phase),
            *final(self) == (Self { metadata: dispatched(old(self).metadata, target, current_target, phase), ..*old(self) }),
    {
        self.metadata.set_dispatch_state(target, current_target, phase);
    }

    fn propagation_stopped(&self) -> (stop: bool) {
        self.metadata.propagation_stopped
    }
}

/// A keyframe animation crossing an iteration boundary.
///
/// Fires on the animated node and bubbles.
#[derive(Debug, Clone)]
pub struct AnimationIterationEvent<H> {
    /// The handle of the animation that crossed an iteration boundary.
    pub handle: H,
    /// Completed iterations so far (1-based).
    pub iteration: u64,
    /// Dispatch state, set by the dispatcher as the event travels.
    pub metadata: TargetedMetadata,
}

impl<H> AnimationIterationEvent<H> {
    /// The event's dispatch state.
    pub open spec fn meta(&self) -> TargetedMetadata {
        self.metadata
    }

    /// Iteration `iteration` of the animation `handle` completed.
    pub fn new(handle: H, iteration: u64) -> (event: Self)
        ensures
            event.meta() == pending_state(),
            event.handle == handle,
            event.iteration == iteration,
    {
        Self { handle, iteration, metadata: TargetedMetadata::pending() }
    }

    /// The node this event originally targeted.
    pub fn target(&self) -> (node: NodeId)
        ensures
            node == self.meta().target,
    {
        self.metadata.target
    }

    /// The node whose listeners are currently being invoked.
    pub fn current_target(&self) -> (node: NodeId)
        ensures
            node == self.meta().current_target,
    {
        self.metadata.current_target
    }

    /// The current dispatch phase.
    pub fn phase(&self) -> (phase: EventPhase)
        ensures
            phase == self.meta().phase,
    {
        self.metadata.phase
    }

    /// Stop this event from bubbling to ancestor nodes.
    pub fn stop_propagation(&mut self)
        ensures
            *final(self) == (Self { metadata: stopped(old(self).metadata), ..*old(self) }),
    {
        self.metadata.propagation_stopped = true;
    }

    /// Whether propagation to ancestor nodes has been stopped.
    pub fn propagation_stopped(&self) -> (stopped: bool)
        ensures
            stopped == self.meta().propagation_stopped,
    {
        self.metadata.propagation_stopped
    }

}

impl<H> TargetedEvent for AnimationIterationEvent<H> {
    open spec fn dispatch_state(&self) -> TargetedMetadata {
        self.meta()
    }

    open spec fn stops(&self) -> bool {
        self.meta().propagation_stopped
    }

    fn set_dispatch_state(&mut self, target: NodeId, current_target: NodeId, phase: EventPhase)
        ensures
            final(self).dispatch_state() == dispatched(old(self).dispatch_state(), target, current_target, phase),
            *final(self) == (Self { metadata: dispatched(old(self).metadata, target, current_target, phase), ..*old(self) }),
    {
        self.metadata.set_dispatch_state(target, current_target, phase);
    }

    fn propagation_stopped(&self) -> (stop: bool) {
        self.metadata.propagation_stopped
    }
}

/// A document selection change.
///
/// Document-level like resize: the event has no target node and does not bubble.
#[derive(Debug, Clone)]
pub struct SelectionChangeEvent<P> {
    /// The new document-ordered selection, or `None` when it was cleared.
    pub selection: Option<(P, P)>,
}

/// A terminal resize event.
#[derive(Debug, Clone, Copy, PartialEq, Eq, Structural)]
pub struct ResizeEvent {
    /// New width in terminal cells.
    pub width: u16,
    /// New height in terminal cells.
    pub height: u16,
}

/// The terminal window gained OS focus.
///
/// Document-level: the window is not a node, so the event has no target and does not
/// bubble.
#[derive(Debug, Clone, Copy, PartialEq, Eq, Structural)]
pub struct WindowFocusEvent;

/// The terminal window lost OS focus.
#[derive(Debug, Clone, Copy, PartialEq, Eq, Structural)]
pub struct WindowBlurEvent;

} // verus!
