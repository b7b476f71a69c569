//! Runtime events: the input queue between the terminal and the document.
//!
//! A drained batch is coalesced before processing: a run of pointer moves, or of
//! resizes, keeps only its last event. Press, release and scrollbar decisions are
//! plain functions of the event and what the press hit.

use vstd::prelude::*;

use crate::event::{KeyEvent, MouseButton, MouseEvent, ResizeEvent, WheelEvent};
use crate::id::NodeId;
use crate::node::{LayoutRect, ScrollOffset};
use crate::paint_order::{
    lemma_offset_for_thumb_bounded, lemma_offset_for_thumb_monotone, offset_for_thumb, spec_offset_for_thumb,
};

verus! {

/// Internal runtime event used by runtime event queues and simulated input.
///
/// `P` is what names a transitioned property, `H` what names a keyframe animation,
/// and `F` what a finished frame reports; the queue carries them through untouched.
#[derive(Debug, Clone)]
pub enum RuntimeEvent<P, H, F> {
    /// A key press from the input stream.
    KeyPress(KeyEvent),
    /// A mouse button press from the input stream.
    MouseDown(MouseEvent),
    /// A mouse pointer movement from the input stream. `held` carries the button a
    /// drag is holding down; a plain move holds none.
    MouseMove { x: i32, y: i32, held: Option<MouseButton> },
    /// A mouse button release from the input stream.
    MouseUp(MouseEvent),
    /// A mouse wheel movement from the input stream.
    Wheel(WheelEvent),
    /// Runtime resize requiring both public dispatch and renderer resize.
    Resize(ResizeEvent),
    /// The terminal window gained OS focus.
    WindowFocus,
    /// The terminal window lost OS focus.
    WindowBlur,
    /// A rendered frame, queued by the render task for post-frame dispatch.
    PostFrame(F),
    /// A completed transition, queued by animation upkeep for end-event dispatch.
    TransitionEnd { node: NodeId, property: P },
    /// A completed keyframe animation, queued by animation upkeep.
    AnimationEnd { node: NodeId, handle: H },
    /// A keyframe animation crossing an iteration boundary, queued by animation upkeep.
    AnimationIteration { node: NodeId, handle: H, iteration: u64 },
}

/// Whether `event` carries nothing that `next` does not already say: both are
/// pointer moves holding the same button, or both are resizes.
pub open spec fn superseded<P, H, F>(event: RuntimeEvent<P, H, F>, next: RuntimeEvent<P, H, F>) -> bool {
    match (event, next) {
        (RuntimeEvent::MouseMove { held: from, .. }, RuntimeEvent::MouseMove { held: to, .. }) => from == to,
        (RuntimeEvent::Resize(_), RuntimeEvent::Resize(_)) => true,
        _ => false,
    }
}

/// The events of `batch` that survive coalescing, in order: each event not
/// superseded by the one right after it.
pub open spec fn survivors<P, H, F>(batch: Seq<RuntimeEvent<P, H, F>>) -> Seq<RuntimeEvent<P, H, F>>
    decreases batch.len(),
{
    if batch.len() == 0 {
        Seq::empty()
    } else {
        let front = batch.drop_last();
        let last = batch.last();
        let kept = survivors(front);
        if front.len() > 0 && superseded(front.last(), last) {
            kept.drop_last().push(last)
        } else {
            kept.push(last)
        }
    }
}

/// The last event of a batch always survives.
pub proof fn lemma_last_survives<P, H, F>(batch: Seq<RuntimeEvent<P, H, F>>)
    requires
        batch.len() > 0,
    ensures
        survivors(batch).len() > 0,
        survivors(batch).last() == batch.last(),
{
}

/// Only pointer moves and resizes are ever dropped: every other event of a batch
/// survives coalescing.
pub proof fn lemma_only_runs_collapse<P, H, F>(batch: Seq<RuntimeEvent<P, H, F>>, i: int)
    requires
        0 <= i < batch.len(),
        !(batch[i] is MouseMove),
        !(batch[i] is Resize),
    ensures
        survivors(batch).contains(batch[i]),
    decreases batch.len(),
{
    let front = batch.drop_last();
    let last = batch.last();
    if i == batch.len() - 1 {
        lemma_last_survives(batch);
        assert(survivors(batch)[survivors(batch).len() - 1] == batch[i]);
    } else {
        assert(front[i] == batch[i]);
        lemma_only_runs_collapse(front, i);
        let kept = survivors(front);
        let j = choose|j: int| 0 <= j < kept.len() && kept[j] == batch[i];
        if front.len() > 0 && superseded(front.last(), last) {
            lemma_last_survives(front);
            assert(j != kept.len() - 1);
            assert(kept.drop_last().push(last)[j] == batch[i]);
        } else {
            assert(kept.push(last)[j] == batch[i]);
        }
    }
}

/// Only an event of the same kind supersedes another: a pointer move is superseded by
/// a pointer move holding the same button, a resize by a resize, and nothing else by
/// anything.
pub proof fn lemma_superseded_only_by_same_kind<P, H, F>(event: RuntimeEvent<P, H, F>, next: RuntimeEvent<P, H, F>)
    ensures
        superseded(event, next) ==> {
            ||| event matches RuntimeEvent::MouseMove { held: a, .. } && next matches RuntimeEvent::MouseMove {
                held: b,
                ..
            } && a == b
            ||| event is Resize && next is Resize
        },
        event is Resize && next is Resize ==> superseded(event, next),
{
}

/// A batch in which no event is followed by one of its own kind — no two pointer
/// moves, no two resizes in a row — survives coalescing whole, in order.
pub proof fn lemma_mixed_batch_survives<P, H, F>(batch: Seq<RuntimeEvent<P, H, F>>)
    requires
        forall|i: int|
            0 <= i < batch.len() - 1 ==> !((#[trigger] batch[i] is MouseMove && batch[i + 1] is MouseMove) || (
            batch[i] is Resize && batch[i + 1] is Resize)),
    ensures
        survivors(batch) == batch,
    decreases batch.len(),
{
    if batch.len() > 0 {
        let front = batch.drop_last();
        assert forall|i: int|
            0 <= i < front.len() - 1 implies !((#[trigger] front[i] is MouseMove && front[i + 1] is MouseMove) || (
            front[i] is Resize && front[i + 1] is Resize)) by {
            assert(front[i] == batch[i] && front[i + 1] == batch[i + 1]);
        }
        lemma_mixed_batch_survives(front);
        if front.len() > 0 {
            assert(front.last() == batch[batch.len() - 2]);
            lemma_superseded_only_by_same_kind(front.last(), batch.last());
        }
        assert(front.push(batch.last()) == batch);
    }
}

/// Coalescing never grows a batch.
pub proof fn lemma_survivors_shrink<P, H, F>(batch: Seq<RuntimeEvent<P, H, F>>)
    ensures
        survivors(batch).len() <= batch.len(),
    decreases batch.len(),
{
    if batch.len() > 0 {
        lemma_survivors_shrink(batch.drop_last());
    }
}

/// Whether `event` carries nothing that `next` does not already say.
pub fn superseded_by<P, H, F>(event: &RuntimeEvent<P, H, F>, next: &RuntimeEvent<P, H, F>) -> (gone: bool)
    ensures
        gone == superseded(*event, *next),
{
    match (event, next) {
        (RuntimeEvent::MouseMove { held: from, .. }, RuntimeEvent::MouseMove { held: to, .. }) => {
            match (from, to) {
                (None, None) => true,
                (Some(a), Some(b)) => *a == *b,
                _ => false,
            }
        },
        (RuntimeEvent::Resize(_), RuntimeEvent::Resize(_)) => true,
        _ => false,
    }
}

/// Collapse redundant runs in a drained batch, leaving order otherwise intact.
///
/// Only adjacent events merge, and only pointer movement (holding the same button)
/// and resizes, where every value but the last is dead weight. Everything else —
/// keys, presses, releases, wheel ticks, frame and animation events — passes through.
pub fn coalesce<P, H, F>(batch: &mut Vec<RuntimeEvent<P, H, F>>)
    ensures
        final(batch)@ == survivors(old(batch)@),
{
    let ghost orig = batch@;
    let n = batch.len();
    let mut reversed: Vec<RuntimeEvent<P, H, F>> = Vec::new();
    while batch.len() > 0
        invariant
            orig.len() == n,
            batch@.len() + reversed@.len() == n,
            batch@ == orig.take(batch@.len() as int),
            forall|j: int| 0 <= j < reversed@.len() ==> #[trigger] reversed@[j] == orig[n - 1 - j],
        decreases batch@.len(),
    {
        let ghost before = batch@;
        let event = batch.pop().unwrap();
        assert(batch@ =~= orig.take(batch@.len() as int));
        reversed.push(event);
    }
    let mut kept: Vec<RuntimeEvent<P, H, F>> = Vec::new();
    let mut taken: usize = 0;
    while reversed.len() > 0
        invariant
            orig.len() == n,
            taken + reversed@.len() == n,
            forall|j: int| 0 <= j < reversed@.len() ==> #[trigger] reversed@[j] == orig[n - 1 - j],
            kept@ == survivors(orig.take(taken as int)),
        decreases reversed@.len(),
    {
        let event = reversed.pop().unwrap();
        assert(event == orig[taken as int]);
        let ghost prefix = orig.take(taken as int);
        assert(orig.take(taken + 1) =~= prefix.push(event));
        assert(orig.take(taken + 1).drop_last() =~= prefix);
        if kept.len() > 0 {
            proof {
                lemma_last_survives(prefix);
                assert(prefix.last() == orig[taken - 1]);
            }
            let last = kept.len() - 1;
            if superseded_by(&kept[last], &event) {
                kept.pop();
            }
        }
        kept.push(event);
        taken += 1;
    }
    assert(orig.take(n as int) =~= orig);
    *batch = kept;
}

/// The press a release may complete into a click.
#[derive(Debug, Clone, Copy, PartialEq, Eq, Structural)]
pub struct ClickCandidate {
    /// The node the press targeted.
    pub target: NodeId,
    /// Column of the press.
    pub x: i32,
    /// Row of the press.
    pub y: i32,
    /// The pressed button.
    pub button: MouseButton,
}

/// Whether a release of `button` at `(x, y)` on `target` completes the pending press
/// into a click: same node, same cell, same button.
pub fn completes_click(pending: Option<ClickCandidate>, target: NodeId, x: i32, y: i32, button: MouseButton) -> (click: bool)
    ensures
        click == (pending == Some(ClickCandidate { target, x, y, button })),
{
    match pending {
        Some(down) => down.target == target && down.x == x && down.y == y && down.button == button,
        None => false,
    }
}

/// An in-flight scrollbar drag: which bar is grabbed and where within the thumb.
#[derive(Debug, Clone, Copy, PartialEq, Eq, Structural)]
pub struct ScrollbarDrag {
    /// The scroll container whose bar is grabbed.
    pub container: NodeId,
    /// Whether the vertical bar is grabbed.
    pub vertical: bool,
    /// Cells from the thumb's start to where the press grabbed it.
    pub grab: u16,
}

/// Stateful runtime-event processing data shared by terminal and headless runtimes.
///
/// `S` is the anchor of a text selection a left press armed.
#[derive(Debug, Clone, Copy, PartialEq, Eq)]
pub struct RuntimeEventState<S> {
    /// The press a release may complete into a click.
    pub pending_click: Option<ClickCandidate>,
    /// The selection drag a left press armed, while the button is held.
    pub pending_selection: Option<S>,
    /// The grabbed scrollbar, while a drag holds one.
    pub scrollbar_drag: Option<ScrollbarDrag>,
}

impl<S> RuntimeEventState<S> {
    /// Nothing pressed, selected or grabbed.
    pub fn new() -> (state: Self)
        ensures
            state.pending_click is None,
            state.pending_selection is None,
            state.scrollbar_drag is None,
    {
        Self { pending_click: None, pending_selection: None, scrollbar_drag: None }
    }
}

impl<S> Default for RuntimeEventState<S> {
    fn default() -> (state: Self)
        ensures
            state.pending_click is None,
            state.pending_selection is None,
            state.scrollbar_drag is None,
    {
        Self::new()
    }
}

/// The cursor's position along a strip, measured from the strip's start.
pub fn strip_position(layout: &LayoutRect, vertical: bool, x: i32, y: i32) -> (pos: i64)
    ensures
        pos == if vertical { y - layout.y } else { x - layout.x },
{
    if vertical {
        y as i64 - layout.y as i64
    } else {
        x as i64 - layout.x as i64
    }
}

/// A strip's length along its axis.
pub fn strip_span(layout: &LayoutRect, vertical: bool) -> (span: u16)
    ensures
        span == if vertical { layout.height } else { layout.width },
{
    if vertical {
        layout.height
    } else {
        layout.width
    }
}

/// `value` clamped into `[low, high]` (`low <= high`).
pub open spec fn clamp(value: int, low: int, high: int) -> int {
    if value < low { low } else if value > high { high } else { value }
}

/// The positions the thumb's start can take on a strip of `span` cells: `0..=range`.
pub open spec fn thumb_range(span: u16, thumb_len: u16) -> int {
    if span >= thumb_len { span - thumb_len } else { 0 }
}

/// Where a press at `pos` along the strip grabs the thumb, and whether the thumb jumps.
///
/// A press on the thumb grabs it in place without scrolling. A press on the track
/// jumps the thumb's center under the cursor and continues grabbed there. `None` when
/// the grab point would not fit a `u16`.
pub open spec fn spec_grab(pos: int, thumb_start: u16, thumb_len: u16, span: u16) -> Option<(u16, bool)> {
    let on_thumb = thumb_start <= pos < thumb_start + thumb_len;
    let grab = if on_thumb {
        pos - thumb_start
    } else {
        pos - clamp(pos - thumb_len / 2, 0, thumb_range(span, thumb_len))
    };
    if 0 <= grab <= u16::MAX {
        Some((grab as u16, !on_thumb))
    } else {
        None
    }
}

/// Where a press at `pos` along the strip grabs the thumb, and whether the thumb jumps.
pub fn scrollbar_grab(pos: i64, thumb_start: u16, thumb_len: u16, span: u16) -> (grab: Option<(u16, bool)>)
    requires
        i32::MIN - i32::MAX <= pos <= i32::MAX - i32::MIN,
    ensures
        grab == spec_grab(pos as int, thumb_start, thumb_len, span),
{
    let range: i64 = if span >= thumb_len { (span - thumb_len) as i64 } else { 0 };
    let start = thumb_start as i64;
    let on_thumb = pos >= start && pos < start + thumb_len as i64;
    let grab = if on_thumb {
        pos - start
    } else {
        let wanted = pos - (thumb_len / 2) as i64;
        let new_start = if wanted < 0 { 0 } else if wanted > range { range } else { wanted };
        pos - new_start
    };
    if grab >= 0 && grab <= u16::MAX as i64 {
        Some((grab as u16, !on_thumb))
    } else {
        None
    }
}

/// The thumb start that keeps the grab point under a cursor at `pos`, clamped to the
/// strip.
pub fn dragged_thumb_start(pos: i64, grab: u16, thumb_len: u16, span: u16) -> (start: u16)
    requires
        i32::MIN - i32::MAX <= pos <= i32::MAX - i32::MIN,
    ensures
        start == clamp(pos - grab, 0, thumb_range(span, thumb_len)),
{
    let range: i64 = if span >= thumb_len { (span - thumb_len) as i64 } else { 0 };
    let wanted = pos - grab as i64;
    let clamped = if wanted < 0 { 0 } else if wanted > range { range } else { wanted };
    clamped as u16
}

/// A scrollbar strip a press landed on, as paint order drew it.
#[derive(Debug, Clone, Copy, PartialEq, Eq, Structural)]
pub struct StripHit {
    /// The scroll container the strip belongs to.
    pub container: NodeId,
    /// Whether it is the vertical bar.
    pub vertical: bool,
    /// The strip's rectangle on screen.
    pub layout: LayoutRect,
    /// Cells from the strip start to the thumb.
    pub thumb_start: u16,
    /// Thumb length in cells.
    pub thumb_len: u16,
}

/// What a left press on a strip does: the drag it starts, and whether the thumb
/// first jumps under the cursor. `None` when the press cannot grab the bar.
pub open spec fn spec_begin_grab(strip: StripHit, x: i32, y: i32) -> Option<(ScrollbarDrag, bool)> {
    let pos = if strip.vertical { y - strip.layout.y } else { x - strip.layout.x };
    let span = if strip.vertical { strip.layout.height } else { strip.layout.width };
    match spec_grab(pos, strip.thumb_start, strip.thumb_len, span) {
        Some((grab, jump)) => Some((ScrollbarDrag { container: strip.container, vertical: strip.vertical, grab }, jump)),
        None => None,
    }
}

/// Start a scrollbar drag from a press at `(x, y)` on a strip.
///
/// A press on the thumb grabs it in place without scrolling, so an unmoved press never
/// perturbs the offset through rounding. A press on the track jumps the thumb's center
/// under the cursor and continues grabbed there.
pub fn begin_scrollbar_grab(strip: StripHit, x: i32, y: i32) -> (grab: Option<(ScrollbarDrag, bool)>)
    ensures
        grab == spec_begin_grab(strip, x, y),
{
    let pos = strip_position(&strip.layout, strip.vertical, x, y);
    let span = strip_span(&strip.layout, strip.vertical);
    match scrollbar_grab(pos, strip.thumb_start, strip.thumb_len, span) {
        Some((grab, jump)) => Some((ScrollbarDrag { container: strip.container, vertical: strip.vertical, grab }, jump)),
        None => None,
    }
}

/// The scroll offset a grabbed bar moves its container to when the cursor is at
/// `(x, y)`: the thumb start that keeps the grab point under the cursor, mapped back to
/// an offset along the bar's axis; the other axis keeps `current`.
pub open spec fn spec_drag_target(
    drag: ScrollbarDrag,
    strip: LayoutRect,
    thumb_len: u16,
    viewport: u16,
    max_scroll: u16,
    current: ScrollOffset,
    x: i32,
    y: i32,
) -> ScrollOffset {
    let pos = if drag.vertical { y - strip.y } else { x - strip.x };
    let span = if drag.vertical { strip.height } else { strip.width };
    let start = clamp(pos - drag.grab, 0, thumb_range(span, thumb_len)) as u16;
    let offset = spec_offset_for_thumb(span, viewport, max_scroll, start) as u16;
    if drag.vertical {
        ScrollOffset { x: current.x, y: offset }
    } else {
        ScrollOffset { x: offset, y: current.y }
    }
}

/// Move a grabbed scrollbar to follow the cursor: the offset its container scrolls to.
///
/// Only the cursor's position along the strip axis matters; cross-axis movement is
/// ignored.
pub fn drag_target(
    drag: ScrollbarDrag,
    strip: LayoutRect,
    thumb_len: u16,
    viewport: u16,
    max_scroll: u16,
    current: ScrollOffset,
    x: i32,
    y: i32,
) -> (target: ScrollOffset)
    ensures
        target == spec_drag_target(drag, strip, thumb_len, viewport, max_scroll, current, x, y),
{
    let span = strip_span(&strip, drag.vertical);
    let pos = strip_position(&strip, drag.vertical, x, y);
    let start = dragged_thumb_start(pos, drag.grab, thumb_len, span);
    let offset = offset_for_thumb(span, viewport, max_scroll, start);
    if drag.vertical {
        ScrollOffset { x: current.x, y: offset }
    } else {
        ScrollOffset { x: offset, y: current.y }
    }
}

/// A drag scrolls only its own axis: a horizontal bar moves the horizontal offset to
/// what the thumb under the cursor maps to and keeps the vertical one, a vertical bar
/// the other way round. The cursor's cross-axis coordinate plays no part, and moving
/// the cursor further along the bar never scrolls back.
pub proof fn lemma_drag_moves_its_own_axis(
    drag: ScrollbarDrag,
    strip: LayoutRect,
    thumb_len: u16,
    viewport: u16,
    max_scroll: u16,
    current: ScrollOffset,
    x: i32,
    y: i32,
    x2: i32,
    y2: i32,
)
    ensures
        ({
            let target = spec_drag_target(drag, strip, thumb_len, viewport, max_scroll, current, x, y);
            let moved = spec_drag_target(drag, strip, thumb_len, viewport, max_scroll, current, x2, y2);
            &&& !drag.vertical ==> {
                &&& target.y == current.y
                &&& target.x == spec_offset_for_thumb(
                    strip.width,
                    viewport,
                    max_scroll,
                    clamp(x - strip.x - drag.grab, 0, thumb_range(strip.width, thumb_len)) as u16,
                )
                &&& target.x <= max_scroll
                &&& x == x2 ==> moved.x == target.x
                &&& x <= x2 ==> target.x <= moved.x
            }
            &&& drag.vertical ==> {
                &&& target.x == current.x
                &&& target.y == spec_offset_for_thumb(
                    strip.height,
                    viewport,
                    max_scroll,
                    clamp(y - strip.y - drag.grab, 0, thumb_range(strip.height, thumb_len)) as u16,
                )
                &&& target.y <= max_scroll
                &&& y == y2 ==> moved.y == target.y
                &&& y <= y2 ==> target.y <= moved.y
            }
        }),
{
    let vertical = drag.vertical;
    let span = if vertical { strip.height } else { strip.width };
    let range = thumb_range(span, thumb_len);
    let p1 = if vertical { y - strip.y } else { x - strip.x };
    let p2 = if vertical { y2 - strip.y } else { x2 - strip.x };
    let s1 = clamp(p1 - drag.grab, 0, range);
    let s2 = clamp(p2 - drag.grab, 0, range);
    assert(0 <= range <= u16::MAX);
    lemma_offset_for_thumb_bounded(span, viewport, max_scroll, s1 as u16);
    lemma_offset_for_thumb_bounded(span, viewport, max_scroll, s2 as u16);
    if p1 <= p2 {
        assert(s1 <= s2);
        lemma_offset_for_thumb_monotone(span, viewport, max_scroll, s1 as u16, s2 as u16);
    }
}

/// What a mouse press leads to once its listeners have run.
#[derive(Debug, Clone, Copy, PartialEq, Eq, Structural)]
pub enum PressOutcome {
    /// A left press grabbed a scrollbar; `jump` moves the thumb under the cursor first.
    Grab { drag: ScrollbarDrag, jump: bool },
    /// The press may become a click; a left press whose default was not prevented also
    /// clears the selection and arms a new selection drag from here.
    Arm { begin_selection: bool },
}

/// The state after a press on `target` (and, when it hit one, the scrollbar strip
/// `strip`) whose listeners have run, and what the press leads to.
///
/// Any earlier drag or selection ends. A left press on a strip whose default was not
/// prevented grabs the bar instead of arming a click; otherwise the press is the
/// pending click, and a left press whose default was not prevented starts a selection.
pub open spec fn spec_press<S>(
    state: RuntimeEventState<S>,
    target: NodeId,
    mouse: MouseEvent,
    strip: Option<StripHit>,
) -> (RuntimeEventState<S>, PressOutcome) {
    let primary = mouse.button == MouseButton::Left && !mouse.default_prevented;
    let grab = if primary {
        match strip {
            Some(s) => spec_begin_grab(s, mouse.x, mouse.y),
            None => None,
        }
    } else {
        None
    };
    match grab {
        Some((drag, jump)) => (
            RuntimeEventState { pending_click: None, pending_selection: None, scrollbar_drag: Some(drag) },
            PressOutcome::Grab { drag, jump },
        ),
        None => (
            RuntimeEventState {
                pending_click: Some(ClickCandidate { target, x: mouse.x, y: mouse.y, button: mouse.button }),
                pending_selection: None,
                scrollbar_drag: None,
            },
            PressOutcome::Arm { begin_selection: primary },
        ),
    }
}

/// Decide what a press does once its listeners have run.
pub fn on_mouse_down<S>(state: RuntimeEventState<S>, target: NodeId, mouse: &MouseEvent, strip: Option<StripHit>) -> (next: (
    RuntimeEventState<S>,
    PressOutcome,
))
    ensures
        next == spec_press(state, target, *mouse, strip),
{
    let primary = match mouse.button {
        MouseButton::Left => !mouse.default_prevented(),
        _ => false,
    };
    let grab = if primary {
        match strip {
            Some(s) => begin_scrollbar_grab(s, mouse.x, mouse.y),
            None => None,
        }
    } else {
        None
    };
    match grab {
        Some((drag, jump)) => (
            RuntimeEventState { pending_click: None, pending_selection: None, scrollbar_drag: Some(drag) },
            PressOutcome::Grab { drag, jump },
        ),
        None => (
            RuntimeEventState {
                pending_click: Some(ClickCandidate { target, x: mouse.x, y: mouse.y, button: mouse.button }),
                pending_selection: None,
                scrollbar_drag: None,
            },
            PressOutcome::Arm { begin_selection: primary },
        ),
    }
}

/// What a pointer move does.
#[derive(Debug, Clone, Copy, PartialEq, Eq, Structural)]
pub enum MoveOutcome {
    /// An unpressed move: the node under the pointer may take focus.
    FocusHover,
    /// A left drag holding a scrollbar moves the bar.
    DragScrollbar(ScrollbarDrag),
    /// A left drag after a press that armed a selection extends the selection.
    ExtendSelection,
    /// Nothing happens.
    Nothing,
}

/// What a pointer move holding `held` does. A drag never moves hover focus.
pub open spec fn spec_move<S>(state: RuntimeEventState<S>, held: Option<MouseButton>) -> MoveOutcome {
    match held {
        None => MoveOutcome::FocusHover,
        Some(MouseButton::Left) => match state.scrollbar_drag {
            Some(drag) => MoveOutcome::DragScrollbar(drag),
            None => if state.pending_selection is Some {
                MoveOutcome::ExtendSelection
            } else {
                MoveOutcome::Nothing
            },
        },
        Some(_) => MoveOutcome::Nothing,
    }
}

/// Decide what a pointer move holding `held` does.
pub fn on_mouse_move<S>(state: &RuntimeEventState<S>, held: Option<MouseButton>) -> (outcome: MoveOutcome)
    ensures
        outcome == spec_move(*state, held),
{
    match held {
        None => MoveOutcome::FocusHover,
        Some(MouseButton::Left) => match state.scrollbar_drag {
            Some(drag) => MoveOutcome::DragScrollbar(drag),
            None => match &state.pending_selection {
                Some(_) => MoveOutcome::ExtendSelection,
                None => MoveOutcome::Nothing,
            },
        },
        Some(_) => MoveOutcome::Nothing,
    }
}

/// A release of `mouse` over `target` ends every drag and the pending press; it is a
/// click when it completes that press.
pub fn on_mouse_up<S>(state: RuntimeEventState<S>, target: NodeId, mouse: &MouseEvent) -> (next: (
    RuntimeEventState<S>,
    bool,
))
    ensures
        next.0.pending_click is None,
        next.0.pending_selection is None,
        next.0.scrollbar_drag is None,
        next.1 == (state.pending_click == Some(
            ClickCandidate { target, x: mouse.x, y: mouse.y, button: mouse.button },
        )),
{
    let click = completes_click(state.pending_click, target, mouse.x, mouse.y, mouse.button);
    (RuntimeEventState { pending_click: None, pending_selection: None, scrollbar_drag: None }, click)
}

/// A wheel tick cancels the pending press: a click needs an undisturbed press and
/// release. Drags and selections are untouched.
pub fn on_wheel<S>(state: RuntimeEventState<S>) -> (next: RuntimeEventState<S>)
    ensures
        next.pending_click is None,
        next.pending_selection == state.pending_selection,
        next.scrollbar_drag == state.scrollbar_drag,
{
    RuntimeEventState { pending_click: None, ..state }
}

/// A press and its release on the same node, cell and button make exactly one click,
/// whatever moves came between them — and a wheel tick in between cancels it.
pub proof fn lemma_press_release_clicks<S>(state: RuntimeEventState<S>, target: NodeId, down: MouseEvent, strip: Option<StripHit>, up: MouseEvent)
    requires
        spec_press(state, target, down, strip).1 is Arm,
        up.x == down.x,
        up.y == down.y,
        up.button == down.button,
    ensures
        spec_press(state, target, down, strip).0.pending_click == Some(
            ClickCandidate { target, x: up.x, y: up.y, button: up.button },
        ),
{
}

} // verus!
