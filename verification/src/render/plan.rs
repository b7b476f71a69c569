//! What painting one node does, and in which order, before any color is blended.
//!
//! A node paints in layers: its background fill, then its half-block edges (which
//! compose over what lies under the node, so the fill must not cover them first), then
//! its content, then its border. Selection highlights and the cursor belong to the
//! content: a text node's selection whenever it has one, an input's selection and
//! cursor only while it has focus.

use std::ops::Range;
use vstd::prelude::*;

use crate::id::NodeId;
use crate::node::LayoutRect;
use crate::render::grid::{ClipRect, GridRect};
use crate::style::scrollbar::ScrollbarCharset;
use crate::render::RenderCursor;
use crate::style::color::Rgb;
use crate::style::CursorShape;
use crate::node::{
    input_display_content, input_scrolled_display_content, spec_input_display, spec_scrolled_display,
    NodeKindView,
};
use crate::render::paint::{
    bar_text, spec_bar_text, thumb_rect,
    clamp_to_grapheme_boundary, grapheme_spans, input_cursor_position, last_boundary, spec_cursor_position,
};

verus! {

/// One layer of a node's paint.
#[derive(Debug)]
pub enum PaintStep {
    /// Fill the node's rect with its background.
    Fill,
    /// Draw the node's half-block edges.
    HalfBlockEdges,
    /// Write `text` into the content rect in the node's foreground.
    Text {
        /// The text to write, one line per row.
        text: String,
    },
    /// Recolor the cells of the text just written whose bytes lie in `[from, to)`.
    TextSelection {
        /// First selected byte.
        from: usize,
        /// End of the selected bytes.
        to: usize,
    },
    /// Recolor the cells of the input's selected value bytes `[from, to)`, as its
    /// display shows them.
    InputSelection {
        /// First selected byte of the value.
        from: usize,
        /// End of the selected bytes of the value.
        to: usize,
    },
    /// Place the input cursor at `(x, y)` of the content rect, scrolling already taken
    /// off.
    Cursor {
        /// Column within the content rect.
        x: i64,
        /// Row within the content rect.
        y: i64,
    },
    /// Draw the border in the border color, or in the foreground when none is set.
    Border,
}

/// A paint step as the proofs see it: text by its characters.
pub enum StepView {
    /// Fill the background.
    Fill,
    /// Draw the half-block edges.
    HalfBlockEdges,
    /// Write this text.
    Text(Seq<char>),
    /// Recolor the selected bytes of the text.
    TextSelection(usize, usize),
    /// Recolor the selected value bytes of an input.
    InputSelection(usize, usize),
    /// Place the cursor.
    Cursor(i64, i64),
    /// Draw the border.
    Border,
}

impl View for PaintStep {
    type V = StepView;

    open spec fn view(&self) -> StepView {
        match self {
            PaintStep::Fill => StepView::Fill,
            PaintStep::HalfBlockEdges => StepView::HalfBlockEdges,
            PaintStep::Text { text } => StepView::Text(text@),
            PaintStep::TextSelection { from, to } => StepView::TextSelection(*from, *to),
            PaintStep::InputSelection { from, to } => StepView::InputSelection(*from, *to),
            PaintStep::Cursor { x, y } => StepView::Cursor(*x, *y),
            PaintStep::Border => StepView::Border,
        }
    }
}

/// `offset` of `value` moved back onto the start of its grapheme cluster; an offset at
/// or past the end stays at the end.
pub open spec fn spec_clamp_to_grapheme(value: Seq<char>, offset: usize) -> usize {
    let len = vstd::utf8::encode_utf8(value).len() as usize;
    if offset >= len {
        len
    } else {
        last_boundary(grapheme_spans(value), offset as int, 0, 0) as usize
    }
}

/// The text a node of kind `kind` writes: a text node's content, the current frame,
/// or what an input displays after scrolling.
pub open spec fn text_steps(kind: NodeKindView) -> Seq<StepView> {
    match kind {
        NodeKindView::Box => Seq::empty(),
        NodeKindView::Text { content } => seq![StepView::Text(content@)],
        NodeKindView::Frames { frames, current, .. } => if current < frames@.len() {
            seq![StepView::Text(frames@[current as int]@)]
        } else {
            Seq::empty()
        },
        NodeKindView::Input { value, multiline, mask, scroll_x, scroll_y, .. } => seq![
            StepView::Text(spec_scrolled_display(spec_input_display(value@, multiline, mask), scroll_x, scroll_y)),
        ],
    }
}

/// What follows the text: a text node's selection; a focused input's selection and
/// cursor.
pub open spec fn extra_steps(kind: NodeKindView, focused: bool, selected: Option<Range<usize>>) -> Seq<StepView> {
    match kind {
        NodeKindView::Text { .. } => match selected {
            Some(range) => seq![StepView::TextSelection(range.start, range.end)],
            None => Seq::empty(),
        },
        NodeKindView::Input { value, cursor, selection, multiline, mask, scroll_x, scroll_y } => {
            let position = spec_cursor_position(value@, spec_clamp_to_grapheme(value@, cursor), multiline, mask);
            (if focused && selection is Some {
                seq![StepView::InputSelection(selection->0.start, selection->0.end)]
            } else {
                Seq::empty()
            }) + if focused {
                seq![StepView::Cursor((position.x - scroll_x) as i64, (position.y - scroll_y) as i64)]
            } else {
                Seq::empty()
            }
        },
        _ => Seq::empty(),
    }
}

/// The content layers of a node of kind `kind`.
pub open spec fn content_steps(kind: NodeKindView, focused: bool, selected: Option<Range<usize>>) -> Seq<StepView> {
    text_steps(kind) + extra_steps(kind, focused, selected)
}

/// The layers a node paints, in order: its background fill unless it has none or the
/// frame clear already painted it, its half-block edges, its content, its border.
pub open spec fn spec_entry_paint_plan(
    kind: NodeKindView,
    id: NodeId,
    focused: Option<NodeId>,
    selected: Option<Range<usize>>,
    skip_background: bool,
    has_background: bool,
    has_edges: bool,
    has_border: bool,
) -> Seq<StepView> {
    (if has_background && !skip_background {
        seq![StepView::Fill]
    } else {
        Seq::empty()
    }) + (if has_edges {
        seq![StepView::HalfBlockEdges]
    } else {
        Seq::empty()
    }) + content_steps(kind, focused == Some(id), selected) + if has_border {
        seq![StepView::Border]
    } else {
        Seq::empty()
    }
}

/// The text a node of kind `kind` writes, if any.
fn content_text(kind: &NodeKindView, steps: &mut Vec<PaintStep>)
    ensures
        final(steps)@.map_values(|s: PaintStep| s@) == old(steps)@.map_values(|s: PaintStep| s@) + text_steps(*kind),
{
    let ghost before = steps@.map_values(|s: PaintStep| s@);
    let text = match kind {
        NodeKindView::Box => None,
        NodeKindView::Text { content } => Some(content.clone()),
        NodeKindView::Frames { frames, current, .. } => if *current < frames.len() {
            Some(frames[*current].clone())
        } else {
            None
        },
        NodeKindView::Input { value, multiline, mask, scroll_x, scroll_y, .. } => {
            let display = input_display_content(value.as_str(), *multiline, *mask);
            Some(input_scrolled_display_content(display.as_str(), *scroll_x, *scroll_y))
        },
    };
    match text {
        Some(text) => {
            steps.push(PaintStep::Text { text });
            assert(steps@.map_values(|s: PaintStep| s@) == before.push(steps@.last()@));
        },
        None => {
            assert(steps@.map_values(|s: PaintStep| s@) == before);
        },
    }
}

/// Append what follows a node's text: a text node's selection; a focused input's
/// selection and cursor.
fn content_extras(kind: &NodeKindView, is_focused: bool, selected: &Option<Range<usize>>, plan: &mut Vec<PaintStep>)
    ensures
        final(plan)@.map_values(|s: PaintStep| s@) == old(plan)@.map_values(|s: PaintStep| s@) + extra_steps(
            *kind,
            is_focused,
            *selected,
        ),
{
    let ghost start = plan@.map_values(|s: PaintStep| s@);
    match kind {
        NodeKindView::Text { .. } => {
            match selected {
                Some(range) => {
                    let ghost before = plan@.map_values(|s: PaintStep| s@);
                    plan.push(PaintStep::TextSelection { from: range.start, to: range.end });
                    assert(plan@.map_values(|s: PaintStep| s@) == before.push(plan@.last()@));
                },
                None => {},
            }
        },
        NodeKindView::Input { value, cursor, selection, multiline, mask, scroll_x, scroll_y } => {
            if is_focused {
                match selection {
                    Some(range) => {
                        let ghost before = plan@.map_values(|s: PaintStep| s@);
                        plan.push(PaintStep::InputSelection { from: range.start, to: range.end });
                        assert(plan@.map_values(|s: PaintStep| s@) == before.push(plan@.last()@));
                    },
                    None => {},
                }
                let clamped = clamp_to_grapheme_boundary(value.as_str(), *cursor);
                let position = input_cursor_position(value.as_str(), clamped, *multiline, *mask);
                let ghost before = plan@.map_values(|s: PaintStep| s@);
                plan.push(
                    PaintStep::Cursor {
                        x: position.x as i64 - *scroll_x as i64,
                        y: position.y as i64 - *scroll_y as i64,
                    },
                );
                assert(plan@.map_values(|s: PaintStep| s@) == before.push(plan@.last()@));
            }
        },
        _ => {},
    }
    assert(plan@.map_values(|s: PaintStep| s@) == start + extra_steps(*kind, is_focused, *selected));
}

/// The layers painting a node takes, in order.
///
/// `skip_background` is set when the frame clear already painted this node's opaque
/// background; `has_background`, `has_edges` and `has_border` say whether the node's
/// resolved style draws each of them; `selected` is the selected byte range of a text
/// node.
pub fn entry_paint_plan(
    kind: &NodeKindView,
    id: NodeId,
    focused: Option<NodeId>,
    selected: Option<Range<usize>>,
    skip_background: bool,
    has_background: bool,
    has_edges: bool,
    has_border: bool,
) -> (plan: Vec<PaintStep>)
    ensures
        plan@.map_values(|s: PaintStep| s@) == spec_entry_paint_plan(
            *kind,
            id,
            focused,
            selected,
            skip_background,
            has_background,
            has_edges,
            has_border,
        ),
{
    let mut plan: Vec<PaintStep> = Vec::new();
    if has_background && !skip_background {
        plan.push(PaintStep::Fill);
    }
    if has_edges {
        plan.push(PaintStep::HalfBlockEdges);
    }
    let ghost layers = plan@.map_values(|s: PaintStep| s@);
    assert(layers == (if has_background && !skip_background {
        seq![StepView::Fill]
    } else {
        Seq::empty()
    }) + (if has_edges {
        seq![StepView::HalfBlockEdges]
    } else {
        Seq::empty()
    }));
    content_text(kind, &mut plan);
    let is_focused = match focused {
        Some(node) => node == id,
        None => false,
    };
    assert(is_focused == (focused == Some(id)));
    content_extras(kind, is_focused, &selected, &mut plan);
    assert(plan@.map_values(|s: PaintStep| s@) == layers + content_steps(*kind, is_focused, selected));
    if has_border {
        let ghost before = plan@.map_values(|s: PaintStep| s@);
        plan.push(PaintStep::Border);
        assert(plan@.map_values(|s: PaintStep| s@) == before.push(plan@.last()@));
    }
    plan
}


/// Where the cursor of an input with content rect `content` shows, the cursor sitting at
/// `(x, y)` of that rect: nowhere for an empty rect; otherwise on screen at the rect's
/// corner plus `(x, y)`, and visible when it lies inside the rect, on the grid and
/// inside the clip.
pub open spec fn spec_place_cursor(
    content: LayoutRect,
    x: i64,
    y: i64,
    grid_width: u16,
    grid_height: u16,
    clip: ClipRect,
    shape: CursorShape,
    color: Rgb,
) -> Option<RenderCursor> {
    if content.width == 0 || content.height == 0 {
        None
    } else {
        let sx = content.x + x;
        let sy = content.y + y;
        let inside = 0 <= x < content.width && 0 <= y < content.height;
        let shown = 0 <= sx < grid_width && 0 <= sy < grid_height && clip.left <= sx < clip.right && clip.top
            <= sy < clip.bottom;
        Some(RenderCursor { x: sx as i32, y: sy as i32, shape, color, visible: inside && shown })
    }
}

/// Where the cursor of an input shows, from its position `(x, y)` in the content rect
/// `content` (as a `Cursor` step gives it), the grid's size and the input's clip.
pub fn place_cursor(
    content: LayoutRect,
    x: i64,
    y: i64,
    grid_width: u16,
    grid_height: u16,
    clip: ClipRect,
    shape: CursorShape,
    color: Rgb,
) -> (cursor: Option<RenderCursor>)
    requires
        i32::MIN <= content.x + x <= i32::MAX,
        i32::MIN <= content.y + y <= i32::MAX,
    ensures
        cursor == spec_place_cursor(content, x, y, grid_width, grid_height, clip, shape, color),
{
    if content.width == 0 || content.height == 0 {
        return None;
    }
    let sx: i64 = content.x as i64 + x;
    let sy: i64 = content.y as i64 + y;
    let inside = x >= 0 && y >= 0 && x < content.width as i64 && y < content.height as i64;
    let shown = sx >= 0 && sy >= 0 && sx < grid_width as i64 && sy < grid_height as i64 && clip.contains(sx, sy);
    Some(RenderCursor { x: sx as i32, y: sy as i32, shape, color, visible: inside && shown })
}

/// Paint layers come in order: the fill first, the border last, and an input that does
/// not have focus shows neither a selection nor a cursor.
pub proof fn lemma_layers_in_order(
    kind: NodeKindView,
    id: NodeId,
    focused: Option<NodeId>,
    selected: Option<Range<usize>>,
    skip_background: bool,
    has_background: bool,
    has_edges: bool,
    has_border: bool,
)
    ensures
        ({
            let plan = spec_entry_paint_plan(kind, id, focused, selected, skip_background, has_background, has_edges, has_border);
            &&& has_background && !skip_background ==> plan[0] == StepView::Fill
            &&& has_border ==> plan.last() == StepView::Border
            &&& kind is Input && focused != Some(id) ==> forall|k: int|
                0 <= k < plan.len() ==> !(#[trigger] plan[k] is Cursor) && !(plan[k] is InputSelection)
        }),
{
    let plan = spec_entry_paint_plan(kind, id, focused, selected, skip_background, has_background, has_edges, has_border);
    if kind is Input && focused != Some(id) {
        assert(extra_steps(kind, false, selected) == Seq::<StepView>::empty());
    }
}


/// The two text layers of a scrollbar strip: the track along the whole strip, then the
/// thumb over its part of it.
#[derive(Debug)]
pub struct ScrollbarLayers {
    /// The strip: the scrollbar entry's whole rect.
    pub strip: GridRect,
    /// The track text, one track character per cell of the strip.
    pub track: String,
    /// Where the thumb goes.
    pub thumb: GridRect,
    /// The thumb text, one thumb character per cell of the thumb.
    pub thumb_text: String,
}

/// What a scrollbar strip laid out at `layout` paints: its track along the strip's
/// length in the track character, then its thumb of `thumb_len` cells from
/// `thumb_start` in the thumb character, each character chosen for the bar's axis.
pub fn scrollbar_layers(
    layout: LayoutRect,
    vertical: bool,
    charset: ScrollbarCharset,
    thumb_start: u16,
    thumb_len: u16,
) -> (layers: ScrollbarLayers)
    ensures
        layers.strip == (GridRect { x: layout.x, y: layout.y, width: layout.width, height: layout.height }),
        layers.track@ == spec_bar_text(
            if vertical { charset.vertical_track } else { charset.horizontal_track },
            if vertical { layout.height as int } else { layout.width as int },
            vertical,
        ),
        layers.thumb == thumb_rect_spec(layers.strip, vertical, thumb_start, thumb_len),
        layers.thumb_text@ == spec_bar_text(
            if vertical { charset.vertical_thumb } else { charset.horizontal_thumb },
            thumb_len as int,
            vertical,
        ),
{
    let (track_char, thumb_char) = if vertical {
        (charset.vertical_track, charset.vertical_thumb)
    } else {
        (charset.horizontal_track, charset.horizontal_thumb)
    };
    let span = if vertical {
        layout.height
    } else {
        layout.width
    };
    let strip = GridRect { x: layout.x, y: layout.y, width: layout.width, height: layout.height };
    let track = bar_text(track_char, span, vertical);
    let thumb = thumb_rect(strip, vertical, thumb_start, thumb_len);
    let thumb_text = bar_text(thumb_char, thumb_len, vertical);
    ScrollbarLayers { strip, track, thumb, thumb_text }
}

/// The thumb's rect inside `strip`, as `thumb_rect` computes it.
pub open spec fn thumb_rect_spec(strip: GridRect, vertical: bool, thumb_start: u16, thumb_len: u16) -> GridRect {
    if vertical {
        GridRect { x: strip.x, y: crate::node::sat_i32(strip.y + thumb_start) as i32, width: 1, height: thumb_len }
    } else {
        GridRect { x: crate::node::sat_i32(strip.x + thumb_start) as i32, y: strip.y, width: thumb_len, height: 1 }
    }
}

} // verus!
