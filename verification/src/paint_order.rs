//! Hit geometry and scrollbar thumb geometry used by paint order and dragging.

use vstd::prelude::*;

use crate::id::NodeId;
use crate::node::{border_insets, saturating_add_i32, sat_i32, spec_deflate, LayoutRect, ScrollOffset};
use crate::render::grid::{max_int, min_int, spec_excludes, unbounded, ClipRect};
use crate::style::scrollbar::ScrollbarShow;
use crate::style::{Border, Overflow};
use crate::time::{duration_as_nanos, nanos_of};
use std::time::Duration;

verus! {

/// Whether the screen cell `(x, y)` lies inside `layout`.
///
/// The far edges saturate, so a rect reaching past `i32::MAX` still contains every
/// cell up to the end of the coordinate space.
pub fn entry_contains(layout: &LayoutRect, x: i32, y: i32) -> (inside: bool)
    ensures
        inside == (layout.x <= x < sat_i32(layout.x + layout.width) && layout.y <= y < sat_i32(
            layout.y + layout.height,
        )),
{
    let right = saturating_add_i32(layout.x, layout.width as i32);
    let bottom = saturating_add_i32(layout.y, layout.height as i32);
    x >= layout.x && x < right && y >= layout.y && y < bottom
}

/// Division rounding half up.
pub open spec fn spec_rounded_div(numerator: int, denominator: int) -> int {
    (numerator + denominator / 2) / denominator
}

/// `value` clamped into `[low, high]`.
pub open spec fn clamp(value: int, low: int, high: int) -> int {
    if value < low { low } else if value > high { high } else { value }
}

/// Thumb length along a strip of `span` cells: the share of the content the viewport
/// covers, at least one cell and at most the whole strip.
pub open spec fn spec_thumb_len(span: u16, viewport: u16, max_scroll: u16) -> int {
    clamp(
        spec_rounded_div(span * viewport, viewport + max_scroll),
        1,
        span as int,
    )
}

/// Thumb start and length along a scrollbar strip.
pub open spec fn spec_thumb_geometry(span: u16, viewport: u16, max_scroll: u16, offset: u16) -> (u16, u16) {
    if span == 0 || viewport + max_scroll == 0 {
        (0, span)
    } else {
        let len = spec_thumb_len(span, viewport, max_scroll);
        let range = span - len;
        let start = if max_scroll == 0 {
            0
        } else {
            spec_rounded_div(offset * range, max_scroll as int)
        };
        (start as u16, len as u16)
    }
}

/// The scroll offset that puts the thumb at `thumb_start`.
pub open spec fn spec_offset_for_thumb(span: u16, viewport: u16, max_scroll: u16, thumb_start: u16) -> int {
    if span == 0 || viewport + max_scroll == 0 || max_scroll == 0 {
        0
    } else {
        let range = span - spec_thumb_len(span, viewport, max_scroll);
        if range == 0 {
            0
        } else {
            spec_rounded_div(clamp(thumb_start as int, 0, range) * max_scroll, range)
        }
    }
}

fn rounded_div(numerator: u32, denominator: u32) -> (quotient: u32)
    requires
        denominator > 0,
        numerator + denominator / 2 <= u32::MAX,
    ensures
        quotient == spec_rounded_div(numerator as int, denominator as int),
{
    (numerator + denominator / 2) / denominator
}

proof fn lemma_product_bound(a: u16, b: u16)
    ensures
        0 <= a * b <= 65535 * 65535,
{
    assert(0 <= a * b <= 65535 * 65535) by (nonlinear_arith)
        requires 0 <= a <= 65535, 0 <= b <= 65535;
}

/// Exact characterization of a half-up rounded quotient.
proof fn lemma_rounded_div_is(numerator: int, denominator: int, q: int)
    requires
        denominator > 0,
        numerator >= 0,
    ensures
        spec_rounded_div(numerator, denominator) == q <==> q * denominator <= numerator + denominator
            / 2 < q * denominator + denominator,
{
    let h = denominator / 2;
    let r = spec_rounded_div(numerator, denominator);
    assert(r * denominator <= numerator + h < r * denominator + denominator) by (nonlinear_arith)
        requires
            r == (numerator + h) / denominator,
            denominator > 0,
            numerator + h >= 0;
    if q < r {
        assert(q * denominator + denominator <= r * denominator) by (nonlinear_arith)
            requires q < r, denominator > 0;
    } else if q > r {
        assert(r * denominator + denominator <= q * denominator) by (nonlinear_arith)
            requires q > r, denominator > 0;
    }
}

/// A half-up rounded quotient never decreases with its numerator.
proof fn lemma_rounded_div_monotone(n1: int, n2: int, denominator: int)
    requires
        0 <= n1 <= n2,
        denominator > 0,
    ensures
        spec_rounded_div(n1, denominator) <= spec_rounded_div(n2, denominator),
{
    let h = denominator / 2;
    assert((n1 + h) / denominator <= (n2 + h) / denominator) by (nonlinear_arith)
        requires n1 + h <= n2 + h, denominator > 0, 0 <= n1 + h;
}

/// Thumb position and length along a scrollbar strip.
///
/// The thumb's length shows how much of the content the viewport covers; its position
/// shows where the scroll offset sits in its range. Both ends are exact: offset zero
/// puts the thumb at the strip start, and the maximum offset puts its far end at the
/// strip end.
pub fn thumb_geometry(span: u16, viewport: u16, max_scroll: u16, offset: u16) -> (geometry: (u16, u16))
    ensures
        geometry == spec_thumb_geometry(span, viewport, max_scroll, offset),
{
    let content = viewport as u32 + max_scroll as u32;
    if span == 0 || content == 0 {
        return (0, span);
    }
    proof {
        lemma_product_bound(span, viewport);
        lemma_product_bound(offset, span);
    }
    let raw = rounded_div(span as u32 * viewport as u32, content);
    let len: u32 = if raw < 1 { 1 } else if raw > span as u32 { span as u32 } else { raw };
    let range = span as u32 - len;
    proof {
        assert(offset * range <= 65535 * 65535) by (nonlinear_arith)
            requires offset <= 65535, range <= 65535;
    }
    let start = if max_scroll == 0 {
        0
    } else {
        rounded_div(offset as u32 * range, max_scroll as u32)
    };
    (start as u16, len as u16)
}

/// The scroll offset that puts the thumb at `thumb_start` — the inverse of
/// [`thumb_geometry`].
///
/// Both ends are exact in both directions: thumb at the strip start means offset
/// zero, thumb at the end of its range means the maximum offset. Between them the
/// two mappings agree up to rounding, which is what makes a grabbed thumb track
/// the cursor without drifting.
pub fn offset_for_thumb(span: u16, viewport: u16, max_scroll: u16, thumb_start: u16) -> (offset: u16)
    ensures
        offset == spec_offset_for_thumb(span, viewport, max_scroll, thumb_start),
{
    let content = viewport as u32 + max_scroll as u32;
    if span == 0 || content == 0 || max_scroll == 0 {
        return 0;
    }
    proof {
        lemma_product_bound(span, viewport);
    }
    let raw = rounded_div(span as u32 * viewport as u32, content);
    let len: u32 = if raw < 1 { 1 } else if raw > span as u32 { span as u32 } else { raw };
    let range = span as u32 - len;
    if range == 0 {
        return 0;
    }
    let start = if (thumb_start as u32) < range { thumb_start as u32 } else { range };
    proof {
        assert(start * max_scroll <= 65535 * 65535) by (nonlinear_arith)
            requires start <= 65535, max_scroll <= 65535;
        assert(start * max_scroll <= range * max_scroll) by (nonlinear_arith)
            requires start <= range;
        lemma_rounded_div_monotone(start * max_scroll, range * max_scroll, range as int);
        assert(range * max_scroll == max_scroll * range) by (nonlinear_arith);
        lemma_rounded_div_is(range * max_scroll, range as int, max_scroll as int);
        assert(spec_rounded_div(start * max_scroll, range as int) <= max_scroll);
    }
    rounded_div(start * max_scroll as u32, range) as u16
}

/// Exactness law: offset zero puts the thumb at the strip start and a thumb at the
/// strip start means offset zero; the maximum offset puts the thumb's far end at the
/// strip end and a thumb at the end of its range means the maximum offset — whenever
/// the thumb has room to move or there is nothing to scroll.
pub proof fn lemma_thumb_ends_exact(span: u16, viewport: u16, max_scroll: u16)
    requires
        span > 0,
        viewport + max_scroll > 0,
        max_scroll == 0 || span - spec_thumb_len(span, viewport, max_scroll) > 0,
    ensures
        spec_thumb_geometry(span, viewport, max_scroll, 0).0 == 0,
        spec_offset_for_thumb(span, viewport, max_scroll, 0) == 0,
        spec_thumb_geometry(span, viewport, max_scroll, max_scroll).0 == span - spec_thumb_geometry(
            span,
            viewport,
            max_scroll,
            max_scroll,
        ).1,
        spec_offset_for_thumb(
            span,
            viewport,
            max_scroll,
            (span - spec_thumb_geometry(span, viewport, max_scroll, max_scroll).1) as u16,
        ) == max_scroll,
{
    let content = viewport + max_scroll;
    lemma_product_bound(span, viewport);
    let len = spec_thumb_len(span, viewport, max_scroll);
    assert(1 <= len <= span);
    let range = span - len;
    if max_scroll == 0 {
        lemma_rounded_div_is(span * viewport, content as int, span as int);
        assert(span * viewport == span * content);
    } else {
        lemma_rounded_div_is(0, max_scroll as int, 0);
        lemma_rounded_div_is(0, range as int, 0);
        assert(0 * range == 0) by (nonlinear_arith);
        assert(0 * (max_scroll as int) == 0) by (nonlinear_arith);
        lemma_rounded_div_is(max_scroll * range, max_scroll as int, range as int);
        assert(range * max_scroll == max_scroll * range) by (nonlinear_arith);
        lemma_rounded_div_is(range * max_scroll, range as int, max_scroll as int);
    }
}

/// Clamping law: any thumb position at or past the end of its range maps to the
/// maximum offset.
pub proof fn lemma_offset_for_thumb_clamps(span: u16, viewport: u16, max_scroll: u16, thumb_start: u16)
    requires
        span > 0,
        max_scroll > 0,
        span - spec_thumb_len(span, viewport, max_scroll) > 0,
        thumb_start >= span - spec_thumb_len(span, viewport, max_scroll),
    ensures
        spec_offset_for_thumb(span, viewport, max_scroll, thumb_start) == max_scroll,
{
    let range = span - spec_thumb_len(span, viewport, max_scroll);
    assert(range * max_scroll == max_scroll * range) by (nonlinear_arith);
    lemma_rounded_div_is(range * max_scroll, range as int, max_scroll as int);
}

/// Range law: a thumb position maps to an offset in `[0, max_scroll]`.
pub proof fn lemma_offset_for_thumb_bounded(span: u16, viewport: u16, max_scroll: u16, thumb_start: u16)
    ensures
        0 <= spec_offset_for_thumb(span, viewport, max_scroll, thumb_start) <= max_scroll,
{
    if !(span == 0 || viewport + max_scroll == 0 || max_scroll == 0) {
        let range = span - spec_thumb_len(span, viewport, max_scroll);
        if range != 0 {
            let c = clamp(thumb_start as int, 0, range);
            let m = max_scroll as int;
            assert(0 <= c * m <= range * m) by (nonlinear_arith)
                requires
                    0 <= c <= range,
                    0 <= m,
            ;
            lemma_rounded_div_monotone(c * m, range * m, range);
            assert(range * m == m * range) by (nonlinear_arith);
            lemma_rounded_div_is(range * m, range, m);
            assert(spec_rounded_div(c * m, range) >= 0) by (nonlinear_arith)
                requires
                    c * m >= 0,
                    range > 0,
            ;
        }
    }
}

/// Monotonicity law: moving the thumb further along never lowers the offset.
pub proof fn lemma_offset_for_thumb_monotone(
    span: u16,
    viewport: u16,
    max_scroll: u16,
    a: u16,
    b: u16,
)
    requires
        a <= b,
    ensures
        spec_offset_for_thumb(span, viewport, max_scroll, a) <= spec_offset_for_thumb(
            span,
            viewport,
            max_scroll,
            b,
        ),
{
    if !(span == 0 || viewport + max_scroll == 0 || max_scroll == 0) {
        let range = span - spec_thumb_len(span, viewport, max_scroll);
        if range != 0 {
            let ca = clamp(a as int, 0, range);
            let cb = clamp(b as int, 0, range);
            assert(ca * max_scroll <= cb * max_scroll) by (nonlinear_arith)
                requires ca <= cb, max_scroll >= 0;
            assert(0 <= ca * max_scroll) by (nonlinear_arith)
                requires ca >= 0, max_scroll >= 0;
            lemma_rounded_div_monotone(ca * max_scroll, cb * max_scroll, range);
        }
    }
}

/// Round-trip law: with at least as many thumb positions as offsets, mapping an
/// offset to its thumb position and back returns the offset unchanged.
pub proof fn lemma_thumb_round_trip(span: u16, viewport: u16, max_scroll: u16, offset: u16)
    requires
        span > 0,
        max_scroll > 0,
        offset <= max_scroll,
        span - spec_thumb_len(span, viewport, max_scroll) >= max_scroll,
    ensures
        spec_offset_for_thumb(
            span,
            viewport,
            max_scroll,
            spec_thumb_geometry(span, viewport, max_scroll, offset).0,
        ) == offset,
{
    let m = max_scroll as int;
    let o = offset as int;
    let range = span - spec_thumb_len(span, viewport, max_scroll);
    let s = spec_rounded_div(o * range, m);
    assert(0 <= o * range) by (nonlinear_arith)
        requires o >= 0, range >= 0;
    assert(o * range <= m * range) by (nonlinear_arith)
        requires o <= m, range >= 0;
    lemma_rounded_div_monotone(o * range, m * range, m);
    lemma_rounded_div_is(m * range, m, range);
    assert(m * range == range * m) by (nonlinear_arith);
    assert(0 <= s <= range);
    lemma_rounded_div_is(o * range, m, s);
    assert(s * m <= o * range + m / 2 < s * m + m);
    assert(0 <= s * m) by (nonlinear_arith)
        requires s >= 0, m >= 0;
    if m == range {
        lemma_rounded_div_is(o * range, m, o);
        assert(o * m == o * range);
        assert(o * range <= o * range + m / 2 < o * range + m) by (nonlinear_arith)
            requires m > 0;
        assert(s == o);
        assert(s * m == o * range);
        lemma_rounded_div_is(s * m, range, o);
        assert(o * range <= s * m + range / 2 < o * range + range) by (nonlinear_arith)
            requires s * m == o * range, range > 0;
    } else {
        assert(o * range <= s * m + range / 2 < o * range + range) by (nonlinear_arith)
            requires
                s * m <= o * range + m / 2,
                o * range + m / 2 < s * m + m,
                0 < m < range;
        lemma_rounded_div_is(s * m, range, o);
    }
}

/// What the paint walk reads of one node.
#[derive(Debug, Clone)]
pub struct PaintNode {
    /// The node's handle.
    pub id: NodeId,
    /// Whether the node paints at all: it exists, is displayed, is not fully
    /// transparent, and has a layout. A node that does not paint hides its subtree.
    pub painted: bool,
    /// The node's screen rectangle before scrolling.
    pub layout: LayoutRect,
    /// The node's resolved border.
    pub border: Border,
    /// Horizontal overflow.
    pub overflow_x: Overflow,
    /// Vertical overflow.
    pub overflow_y: Overflow,
    /// Stacking order among siblings.
    pub z_index: i32,
    /// The node's scroll offset.
    pub scroll: ScrollOffset,
    /// Maximum horizontal scroll offset of the node's content.
    pub max_scroll_x: u16,
    /// Maximum vertical scroll offset of the node's content.
    pub max_scroll_y: u16,
    /// Whether the node's scrollbars are showing: its `bar_visibility` is not
    /// `Hidden`.
    pub bars_shown: bool,
    /// The node's children, by index into the tree, in DOM order.
    pub children: Vec<usize>,
}

/// How a scroll container's bars show right now.
#[derive(Debug, Clone, Copy, PartialEq, Eq, Structural)]
pub enum BarVisibility {
    /// No bar.
    Hidden,
    /// Fully shown.
    Shown,
    /// Fading out: past the hide delay, within the fade duration.
    Fading,
}

/// How the bars of a container with show policy `show` look: `in_focus_path` says
/// whether it or a descendant holds focus, `grabbed` whether its bar is being dragged,
/// and `since_activity` how long ago it last scrolled (`None` if it never did).
///
/// A bar shown when scrolling stays fully shown while grabbed and for `delay` after
/// the last activity, fades for `fade` after that, and is gone afterwards.
pub open spec fn spec_bar_visibility(
    show: ScrollbarShow,
    in_focus_path: bool,
    grabbed: bool,
    since_activity: Option<Duration>,
    delay: Duration,
    fade: Duration,
) -> BarVisibility {
    match show {
        ScrollbarShow::Always => BarVisibility::Shown,
        ScrollbarShow::Never => BarVisibility::Hidden,
        ScrollbarShow::WhenFocused => if in_focus_path {
            BarVisibility::Shown
        } else {
            BarVisibility::Hidden
        },
        ScrollbarShow::WhenScrolling => if grabbed {
            BarVisibility::Shown
        } else {
            match since_activity {
                None => BarVisibility::Hidden,
                Some(elapsed) => if nanos_of(elapsed) <= nanos_of(delay) {
                    BarVisibility::Shown
                } else if nanos_of(elapsed) - nanos_of(delay) >= nanos_of(fade) {
                    BarVisibility::Hidden
                } else {
                    BarVisibility::Fading
                },
            }
        },
    }
}

/// How the bars of a scroll container show right now (see `spec_bar_visibility`); a
/// node's `bars_shown` is whether this is not `Hidden`.
pub fn bar_visibility(
    show: ScrollbarShow,
    in_focus_path: bool,
    grabbed: bool,
    since_activity: Option<Duration>,
    delay: Duration,
    fade: Duration,
) -> (visibility: BarVisibility)
    ensures
        visibility == spec_bar_visibility(show, in_focus_path, grabbed, since_activity, delay, fade),
{
    match show {
        ScrollbarShow::Always => BarVisibility::Shown,
        ScrollbarShow::Never => BarVisibility::Hidden,
        ScrollbarShow::WhenFocused => if in_focus_path {
            BarVisibility::Shown
        } else {
            BarVisibility::Hidden
        },
        ScrollbarShow::WhenScrolling => {
            if grabbed {
                return BarVisibility::Shown;
            }
            let elapsed = match since_activity {
                None => return BarVisibility::Hidden,
                Some(elapsed) => duration_as_nanos(&elapsed),
            };
            let delay = duration_as_nanos(&delay);
            if elapsed <= delay {
                BarVisibility::Shown
            } else if elapsed - delay >= duration_as_nanos(&fade) {
                BarVisibility::Hidden
            } else {
                BarVisibility::Fading
            }
        },
    }
}

/// Geometry of one scrollbar strip, computed against the container's viewport.
#[derive(Debug, Clone, Copy, PartialEq, Eq, Structural)]
pub struct ScrollbarPaint {
    /// Whether this is the vertical bar (right column) or the horizontal one (bottom row).
    pub vertical: bool,
    /// Cells from the strip start to the thumb.
    pub thumb_start: u16,
    /// Thumb length in cells.
    pub thumb_len: u16,
}

/// One entry of paint order: a node, or one of its scrollbar strips.
#[derive(Debug, Clone, Copy, PartialEq, Eq, Structural)]
pub struct PaintEntry {
    /// The node the entry paints (for a strip, its scroll container).
    pub id: NodeId,
    /// The node's screen rectangle, translated by every scrolling ancestor's offset; for
    /// a strip, the strip.
    pub layout: LayoutRect,
    /// The intersection of every scrolling or clipping ancestor's viewport.
    pub clip: ClipRect,
    /// Set when the entry is a scrollbar strip rather than the node itself.
    pub scrollbar: Option<ScrollbarPaint>,
}

/// The first position in `order` whose child has a z-index above `z`.
pub open spec fn first_above(order: Seq<int>, zs: Seq<i32>, z: i32, i: int) -> int
    decreases order.len() - i,
{
    if i >= order.len() || i < 0 {
        order.len() as int
    } else if zs[order[i]] > z {
        i
    } else {
        first_above(order, zs, z, i + 1)
    }
}

/// The first `k` children ordered for painting: by z-index, ties in DOM order. Each
/// child goes after every earlier child whose z-index is not above its own.
pub open spec fn paint_sequence(zs: Seq<i32>, k: int) -> Seq<int>
    decreases k,
{
    if k <= 0 {
        Seq::empty()
    } else {
        let before = paint_sequence(zs, k - 1);
        let at = first_above(before, zs, zs[k - 1], 0);
        before.take(at).push(k - 1) + before.skip(at)
    }
}

/// `first_above` stays inside the order.
proof fn lemma_first_above_bounds(order: Seq<int>, zs: Seq<i32>, z: i32, i: int)
    requires
        0 <= i <= order.len(),
    ensures
        i <= first_above(order, zs, z, i) <= order.len(),
    decreases order.len() - i,
{
    if i < order.len() && zs[order[i]] <= z {
        lemma_first_above_bounds(order, zs, z, i + 1);
    }
}

/// The paint sequence of `k` children lists each of `0..k` once.
proof fn lemma_paint_sequence_len(zs: Seq<i32>, k: int)
    requires
        0 <= k,
    ensures
        paint_sequence(zs, k).len() == k,
        forall|i: int| 0 <= i < k ==> 0 <= #[trigger] paint_sequence(zs, k)[i] < k,
    decreases k,
{
    if k > 0 {
        lemma_paint_sequence_len(zs, k - 1);
        let before = paint_sequence(zs, k - 1);
        let at = first_above(before, zs, zs[k - 1], 0);
        lemma_first_above_bounds(before, zs, zs[k - 1], 0);
        let out = before.take(at).push(k - 1) + before.skip(at);
        assert forall|i: int| 0 <= i < k implies 0 <= #[trigger] out[i] < k by {
            if i < at {
                assert(out[i] == before[i]);
            } else if i > at {
                assert(out[i] == before[i - 1]);
            }
        }
    }
}

/// Everything before `first_above` is not above `z`, and the child there is.
proof fn lemma_first_above(order: Seq<int>, zs: Seq<i32>, z: i32, i: int)
    requires
        0 <= i <= order.len(),
    ensures
        forall|j: int| i <= j < first_above(order, zs, z, i) ==> zs[#[trigger] order[j]] <= z,
        first_above(order, zs, z, i) < order.len() ==> zs[order[first_above(order, zs, z, i)]] > z,
    decreases order.len() - i,
{
    if i < order.len() && zs[order[i]] <= z {
        lemma_first_above(order, zs, z, i + 1);
    }
}

/// Whether child `a` paints before child `b`: a lower z-index, or the same z-index and
/// earlier in DOM order.
pub open spec fn paints_before(zs: Seq<i32>, a: int, b: int) -> bool {
    zs[a] < zs[b] || (zs[a] == zs[b] && a < b)
}

/// Paint order among siblings: children paint by z-index, and children with the same
/// z-index paint in DOM order.
pub proof fn lemma_paint_sequence_sorted(zs: Seq<i32>, k: int)
    requires
        0 <= k <= zs.len(),
    ensures
        paint_sequence(zs, k).len() == k,
        forall|i: int, j: int|
            0 <= i < j < k ==> paints_before(zs, #[trigger] paint_sequence(zs, k)[i], #[trigger] paint_sequence(zs, k)[j]),
    decreases k,
{
    lemma_paint_sequence_len(zs, k);
    if k > 0 {
        lemma_paint_sequence_sorted(zs, k - 1);
        lemma_paint_sequence_len(zs, k - 1);
        let before = paint_sequence(zs, k - 1);
        let z = zs[k - 1];
        let at = first_above(before, zs, z, 0);
        lemma_first_above_bounds(before, zs, z, 0);
        lemma_first_above(before, zs, z, 0);
        let out = paint_sequence(zs, k);
        assert(out == before.take(at).push(k - 1) + before.skip(at));
        assert forall|i: int, j: int| 0 <= i < j < k implies paints_before(zs, #[trigger] out[i], #[trigger] out[j]) by {
            if j < at {
                assert(out[i] == before[i] && out[j] == before[j]);
            } else if j == at {
                assert(out[j] == k - 1);
                assert(out[i] == before[i]);
                assert(zs[before[i]] <= z);
            } else if i < at {
                assert(out[i] == before[i] && out[j] == before[j - 1]);
            } else if i == at {
                assert(out[i] == k - 1);
                assert(out[j] == before[j - 1]);
                assert(zs[before[at]] > z);
                if j - 1 > at {
                    assert(paints_before(zs, before[at], before[j - 1]));
                }
            } else {
                assert(out[i] == before[i - 1] && out[j] == before[j - 1]);
            }
        }
    }
}

/// Order children for painting: by z-index, ties in DOM order.
fn order_children(zs: &Vec<i32>) -> (order: Vec<usize>)
    ensures
        order@.len() == zs@.len(),
        forall|i: int| 0 <= i < order@.len() ==> #[trigger] (order@[i] as int) == paint_sequence(zs@, zs@.len() as int)[i],
        forall|i: int| 0 <= i < order@.len() ==> #[trigger] order@[i] < zs@.len(),
{
    let mut order: Vec<usize> = Vec::new();
    let mut k: usize = 0;
    while k < zs.len()
        invariant
            k <= zs@.len(),
            order@.len() == k,
            forall|i: int| 0 <= i < k ==> #[trigger] (order@[i] as int) == paint_sequence(zs@, k as int)[i],
        decreases zs.len() - k,
    {
        proof {
            lemma_paint_sequence_len(zs@, k as int);
        }
        let ghost before = paint_sequence(zs@, k as int);
        let z = zs[k];
        let mut at: usize = 0;
        while at < order.len() && zs[order[at]] <= z
            invariant
                order@.len() == k,
                k < zs@.len(),
                z == zs@[k as int],
                before == paint_sequence(zs@, k as int),
                before.len() == k,
                forall|i: int| 0 <= i < k ==> #[trigger] (order@[i] as int) == before[i],
                forall|i: int| 0 <= i < k ==> 0 <= #[trigger] before[i] < k,
                at <= k,
                first_above(before, zs@, z, 0) == first_above(before, zs@, z, at as int),
            decreases k - at,
        {
            at += 1;
        }
        assert(first_above(before, zs@, z, at as int) == at);
        order.insert(at, k);
        proof {
            let next = paint_sequence(zs@, k + 1);
            assert(next == before.take(at as int).push(k as int) + before.skip(at as int));
            assert forall|i: int| 0 <= i < k + 1 implies #[trigger] (order@[i] as int) == next[i] by {
                if i < at {
                    assert(next[i] == before[i]);
                } else if i == at {
                    assert(next[i] == k);
                } else {
                    assert(next[i] == before[i - 1]);
                }
            }
        }
        k += 1;
    }
    proof {
        lemma_paint_sequence_len(zs@, zs@.len() as int);
    }
    order
}

/// The z-indices of a node's children, in DOM order; a child missing from the tree
/// counts as zero (it paints nothing anyway).
pub open spec fn child_zs(tree: Seq<PaintNode>, children: Seq<usize>) -> Seq<i32> {
    Seq::new(children.len(), |i: int| if children[i] < tree.len() { tree[children[i] as int].z_index } else { 0 })
}

/// `layout` moved back by the translation `(tx, ty)`, saturating at the bounds of `i32`.
pub open spec fn translated(layout: LayoutRect, tx: i32, ty: i32) -> LayoutRect {
    LayoutRect { x: sat_i32(layout.x - tx) as i32, y: sat_i32(layout.y - ty) as i32, ..layout }
}

/// The clip a node's children paint under: a clipping or scrolling axis bounds them to
/// the node's padding box.
pub open spec fn child_clip(node: PaintNode, viewport: LayoutRect, clip: ClipRect) -> ClipRect {
    let cx = if node.overflow_x != Overflow::Visible {
        ClipRect {
            left: max_int(clip.left as int, viewport.x as int) as i64,
            right: min_int(clip.right as int, viewport.x + viewport.width) as i64,
            ..clip
        }
    } else {
        clip
    };
    if node.overflow_y != Overflow::Visible {
        ClipRect {
            top: max_int(cx.top as int, viewport.y as int) as i64,
            bottom: min_int(cx.bottom as int, viewport.y + viewport.height) as i64,
            ..cx
        }
    } else {
        cx
    }
}

/// Whether `layout` lies entirely outside `clip`, or the clip is empty: nothing of it
/// can paint.
pub open spec fn culled(clip: ClipRect, layout: LayoutRect) -> bool {
    spec_excludes(clip, layout.x as int, layout.y as int, layout.width as int, layout.height as int)
}

/// The scrollbar strips a scroll container shows: a vertical bar down the viewport's
/// right column when it scrolls vertically with room to scroll, then a horizontal bar
/// along its bottom row (stopping short of the vertical bar's corner cell).
pub open spec fn scrollbar_strips(node: PaintNode, viewport: LayoutRect, clip: ClipRect) -> Seq<PaintEntry> {
    let sx = node.overflow_x == Overflow::Scroll;
    let sy = node.overflow_y == Overflow::Scroll;
    if !(sx || sy) || !node.bars_shown || viewport.width == 0 || viewport.height == 0 {
        Seq::empty()
    } else {
        let vertical = sy && node.max_scroll_y > 0;
        let horizontal = sx && node.max_scroll_x > 0;
        let v = if vertical {
            let g = spec_thumb_geometry(viewport.height, viewport.height, node.max_scroll_y, node.scroll.y);
            seq![PaintEntry {
                id: node.id,
                layout: LayoutRect {
                    x: sat_i32(viewport.x + viewport.width - 1) as i32,
                    y: viewport.y,
                    width: 1,
                    height: viewport.height,
                },
                clip,
                scrollbar: Some(ScrollbarPaint { vertical: true, thumb_start: g.0, thumb_len: g.1 }),
            }]
        } else {
            Seq::empty()
        };
        let span = (viewport.width - if vertical { 1int } else { 0int }) as u16;
        let h = if horizontal {
            let g = spec_thumb_geometry(span, viewport.width, node.max_scroll_x, node.scroll.x);
            seq![PaintEntry {
                id: node.id,
                layout: LayoutRect {
                    x: viewport.x,
                    y: sat_i32(viewport.y + viewport.height - 1) as i32,
                    width: span,
                    height: 1,
                },
                clip,
                scrollbar: Some(ScrollbarPaint { vertical: false, thumb_start: g.0, thumb_len: g.1 }),
            }]
        } else {
            Seq::empty()
        };
        v + h
    }
}

/// A node's own entry, unless it lies wholly outside its clip.
pub open spec fn own_entries(n: PaintNode, layout: LayoutRect, clip: ClipRect) -> Seq<PaintEntry> {
    if culled(clip, layout) {
        Seq::empty()
    } else {
        seq![PaintEntry { id: n.id, layout, clip, scrollbar: None }]
    }
}

/// A node's scrollbar strips, unless the node lies wholly outside its clip.
pub open spec fn bar_entries(n: PaintNode, layout: LayoutRect, viewport: LayoutRect, clip: ClipRect) -> Seq<PaintEntry> {
    if culled(clip, layout) {
        Seq::empty()
    } else {
        scrollbar_strips(n, viewport, clip)
    }
}

/// The entries of a node's children in paint order, unless their clip is empty.
pub open spec fn kid_entries(tree: Seq<PaintNode>, n: PaintNode, inner: ClipRect, tx: i32, ty: i32, fuel: nat) -> Seq<PaintEntry>
    decreases fuel, 2int, 0int,
{
    if inner.left >= inner.right || inner.top >= inner.bottom {
        Seq::empty()
    } else {
        walk_children(
            tree,
            n.children@,
            paint_sequence(child_zs(tree, n.children@), n.children@.len() as int),
            0,
            tx,
            ty,
            inner,
            fuel,
        )
    }
}

/// The paint entries of the subtree at `node`, translated by `(tx, ty)` and clipped
/// to `clip`, in paint order: the node itself (unless it lies wholly outside the
/// clip), its children by z-index (ties in DOM order) under the clip and translation
/// its overflow sets, then its scrollbar strips over them. `fuel` bounds the depth
/// walked; a tree's node count is always enough.
pub open spec fn walk(tree: Seq<PaintNode>, node: int, tx: i32, ty: i32, clip: ClipRect, fuel: nat) -> Seq<PaintEntry>
    decreases fuel, 0int, 0int,
{
    if fuel == 0 || node < 0 || node >= tree.len() || !tree[node].painted {
        Seq::empty()
    } else {
        let n = tree[node];
        let layout = translated(n.layout, tx, ty);
        let viewport = spec_deflate(layout, border_insets(n.border));
        let inner = child_clip(n, viewport, clip);
        let ctx = if n.overflow_x == Overflow::Scroll { sat_i32(tx + n.scroll.x) as i32 } else { tx };
        let cty = if n.overflow_y == Overflow::Scroll { sat_i32(ty + n.scroll.y) as i32 } else { ty };
        own_entries(n, layout, clip) + kid_entries(tree, n, inner, ctx, cty, (fuel - 1) as nat) + bar_entries(
            n,
            layout,
            viewport,
            clip,
        )
    }
}

/// The paint entries of the children `order[i..]` (positions into `children`).
pub open spec fn walk_children(
    tree: Seq<PaintNode>,
    children: Seq<usize>,
    order: Seq<int>,
    i: int,
    tx: i32,
    ty: i32,
    clip: ClipRect,
    fuel: nat,
) -> Seq<PaintEntry>
    decreases fuel, 1int, order.len() - i,
{
    if i < 0 || i >= order.len() {
        Seq::empty()
    } else {
        let child = if 0 <= order[i] < children.len() { children[order[i]] as int } else { -1 };
        walk(tree, child, tx, ty, clip, fuel) + walk_children(tree, children, order, i + 1, tx, ty, clip, fuel)
    }
}

/// The paint entries of a whole tree rooted at `root`: nothing translated, nothing
/// clipped.
pub open spec fn paint_order_of(tree: Seq<PaintNode>, root: int) -> Seq<PaintEntry> {
    walk(tree, root, 0, 0, unbounded(), tree.len() as nat)
}

fn strip_entries(node: &PaintNode, viewport: LayoutRect, clip: ClipRect, entries: &mut Vec<PaintEntry>)
    ensures
        final(entries)@ == old(entries)@ + scrollbar_strips(*node, viewport, clip),
{
    let sx = match node.overflow_x {
        Overflow::Scroll => true,
        _ => false,
    };
    let sy = match node.overflow_y {
        Overflow::Scroll => true,
        _ => false,
    };
    if !(sx || sy) || !node.bars_shown || viewport.width == 0 || viewport.height == 0 {
        assert(old(entries)@ + Seq::<PaintEntry>::empty() =~= old(entries)@);
        return;
    }
    let vertical = sy && node.max_scroll_y > 0;
    let horizontal = sx && node.max_scroll_x > 0;
    if vertical {
        let (start, len) = thumb_geometry(viewport.height, viewport.height, node.max_scroll_y, node.scroll.y);
        let right = saturating_add_i32(viewport.x, viewport.width as i32 - 1);
        entries.push(
            PaintEntry {
                id: node.id,
                layout: LayoutRect { x: right, y: viewport.y, width: 1, height: viewport.height },
                clip,
                scrollbar: Some(ScrollbarPaint { vertical: true, thumb_start: start, thumb_len: len }),
            },
        );
    }
    let span: u16 = if vertical { viewport.width - 1 } else { viewport.width };
    if horizontal {
        let (start, len) = thumb_geometry(span, viewport.width, node.max_scroll_x, node.scroll.x);
        let bottom = saturating_add_i32(viewport.y, viewport.height as i32 - 1);
        entries.push(
            PaintEntry {
                id: node.id,
                layout: LayoutRect { x: viewport.x, y: bottom, width: span, height: 1 },
                clip,
                scrollbar: Some(ScrollbarPaint { vertical: false, thumb_start: start, thumb_len: len }),
            },
        );
    }
    assert(entries@ =~= old(entries)@ + scrollbar_strips(*node, viewport, clip));
}

fn saturating_sub_i32(a: i32, b: i32) -> (diff: i32)
    ensures
        diff == sat_i32(a - b),
{
    let wide = a as i64 - b as i64;
    if wide > i32::MAX as i64 {
        i32::MAX
    } else if wide < i32::MIN as i64 {
        i32::MIN
    } else {
        wide as i32
    }
}

/// The translated rectangle, viewport, child clip and child translation of a node.
fn node_frame(n: &PaintNode, tx: i32, ty: i32, clip: ClipRect) -> (frame: (LayoutRect, LayoutRect, ClipRect, i32, i32))
    ensures
        frame.0 == translated(n.layout, tx, ty),
        frame.1 == spec_deflate(frame.0, border_insets(n.border)),
        frame.2 == child_clip(*n, frame.1, clip),
        frame.3 == if n.overflow_x == Overflow::Scroll { sat_i32(tx + n.scroll.x) as i32 } else { tx },
        frame.4 == if n.overflow_y == Overflow::Scroll { sat_i32(ty + n.scroll.y) as i32 } else { ty },
{
    let layout = LayoutRect {
        x: saturating_sub_i32(n.layout.x, tx),
        y: saturating_sub_i32(n.layout.y, ty),
        width: n.layout.width,
        height: n.layout.height,
    };
    let viewport = layout.padding_box(n.border);
    let mut inner = clip;
    match n.overflow_x {
        Overflow::Visible => {},
        _ => {
            inner = inner.bound_x(viewport.x as i64, viewport.x as i64 + viewport.width as i64);
        },
    }
    match n.overflow_y {
        Overflow::Visible => {},
        _ => {
            inner = inner.bound_y(viewport.y as i64, viewport.y as i64 + viewport.height as i64);
        },
    }
    let ctx = match n.overflow_x {
        Overflow::Scroll => saturating_add_i32(tx, n.scroll.x as i32),
        _ => tx,
    };
    let cty = match n.overflow_y {
        Overflow::Scroll => saturating_add_i32(ty, n.scroll.y as i32),
        _ => ty,
    };
    (layout, viewport, inner, ctx, cty)
}

fn append_all(entries: &mut Vec<PaintEntry>, more: &Vec<PaintEntry>)
    ensures
        final(entries)@ == old(entries)@ + more@,
{
    let mut b: usize = 0;
    while b < more.len()
        invariant
            b <= more@.len(),
            entries@ == old(entries)@ + more@.take(b as int),
        decreases more.len() - b,
    {
        entries.push(more[b]);
        assert(more@.take(b + 1) =~= more@.take(b as int).push(more@[b as int]));
        b += 1;
    }
    assert(more@.take(more@.len() as int) =~= more@);
}

fn child_z_list(tree: &Vec<PaintNode>, children: &Vec<usize>) -> (zs: Vec<i32>)
    ensures
        zs@ == child_zs(tree@, children@),
{
    let mut zs: Vec<i32> = Vec::new();
    let mut i: usize = 0;
    while i < children.len()
        invariant
            i <= children@.len(),
            zs@.len() == i,
            forall|j: int| 0 <= j < i ==> #[trigger] zs@[j] == child_zs(tree@, children@)[j],
        decreases children.len() - i,
    {
        let child = children[i];
        let z = if child < tree.len() { tree[child].z_index } else { 0 };
        zs.push(z);
        i += 1;
    }
    assert(zs@ =~= child_zs(tree@, children@));
    zs
}

/// Walk a node's children in paint order, appending their entries.
fn collect_children(
    tree: &Vec<PaintNode>,
    children: &Vec<usize>,
    tx: i32,
    ty: i32,
    clip: ClipRect,
    fuel: usize,
    entries: &mut Vec<PaintEntry>,
)
    ensures
        final(entries)@ == old(entries)@ + walk_children(
            tree@,
            children@,
            paint_sequence(child_zs(tree@, children@), children@.len() as int),
            0,
            tx,
            ty,
            clip,
            fuel as nat,
        ),
    decreases fuel, 1int,
{
    let zs = child_z_list(tree, children);
    let order = order_children(&zs);
    let ghost order_spec = paint_sequence(child_zs(tree@, children@), children@.len() as int);
    proof {
        lemma_paint_sequence_len(child_zs(tree@, children@), children@.len() as int);
    }
    let mut k: usize = 0;
    while k < order.len()
        invariant
            k <= order@.len(),
            order@.len() == order_spec.len(),
            order_spec.len() == children@.len(),
            order_spec == paint_sequence(child_zs(tree@, children@), children@.len() as int),
            forall|j: int| 0 <= j < order@.len() ==> #[trigger] (order@[j] as int) == order_spec[j],
            forall|j: int| 0 <= j < order@.len() ==> #[trigger] order@[j] < children@.len(),
            entries@ + walk_children(tree@, children@, order_spec, k as int, tx, ty, clip, fuel as nat)
                == old(entries)@ + walk_children(tree@, children@, order_spec, 0, tx, ty, clip, fuel as nat),
        decreases order.len() - k,
    {
        let child = children[order[k]];
        let ghost before = entries@;
        collect_ordered_entries(tree, child, tx, ty, clip, fuel, entries);
        assert(entries@ + walk_children(tree@, children@, order_spec, k + 1, tx, ty, clip, fuel as nat)
            =~= before + walk_children(tree@, children@, order_spec, k as int, tx, ty, clip, fuel as nat));
        k += 1;
    }
    assert(entries@ + walk_children(tree@, children@, order_spec, k as int, tx, ty, clip, fuel as nat) =~= entries@);
}

/// One step of the walk: a painted node's entries are its own entry, its children's,
/// then its strips.
proof fn lemma_walk_step(tree: Seq<PaintNode>, node: int, tx: i32, ty: i32, clip: ClipRect, fuel: nat)
    requires
        fuel > 0,
        0 <= node < tree.len(),
        tree[node].painted,
    ensures
        ({
            let n = tree[node];
            let layout = translated(n.layout, tx, ty);
            let viewport = spec_deflate(layout, border_insets(n.border));
            let inner = child_clip(n, viewport, clip);
            let ctx = if n.overflow_x == Overflow::Scroll { sat_i32(tx + n.scroll.x) as i32 } else { tx };
            let cty = if n.overflow_y == Overflow::Scroll { sat_i32(ty + n.scroll.y) as i32 } else { ty };
            walk(tree, node, tx, ty, clip, fuel) == own_entries(n, layout, clip) + kid_entries(
                tree,
                n,
                inner,
                ctx,
                cty,
                (fuel - 1) as nat,
            ) + bar_entries(n, layout, viewport, clip)
        }),
{
}

/// Walk the subtree at `node`, appending its paint entries.
#[verifier::spinoff_prover]
#[verifier::rlimit(40)]
fn collect_ordered_entries(
    tree: &Vec<PaintNode>,
    node: usize,
    tx: i32,
    ty: i32,
    clip: ClipRect,
    fuel: usize,
    entries: &mut Vec<PaintEntry>,
)
    ensures
        final(entries)@ == old(entries)@ + walk(tree@, node as int, tx, ty, clip, fuel as nat),
    decreases fuel, 0int,
{
    if fuel == 0 || node >= tree.len() || !tree[node].painted {
        assert(old(entries)@ + Seq::<PaintEntry>::empty() =~= old(entries)@);
        return;
    }
    let n = &tree[node];
    let (layout, viewport, inner, ctx, cty) = node_frame(n, tx, ty, clip);
    proof {
        lemma_walk_step(tree@, node as int, tx, ty, clip, fuel as nat);
    }
    let out = clip.excludes(layout.x, layout.y, layout.width, layout.height);
    let mut bars: Vec<PaintEntry> = Vec::new();
    if !out {
        strip_entries(n, viewport, clip, &mut bars);
        entries.push(PaintEntry { id: n.id, layout, clip, scrollbar: None });
    }
    assert(bars@ =~= bar_entries(*n, layout, viewport, clip));
    assert(entries@ =~= old(entries)@ + own_entries(*n, layout, clip));
    let ghost with_own = entries@;
    if !inner.is_empty() {
        collect_children(tree, &n.children, ctx, cty, inner, fuel - 1, entries);
    } else {
        assert(entries@ =~= with_own + Seq::<PaintEntry>::empty());
    }
    assert(entries@ == with_own + kid_entries(tree@, *n, inner, ctx, cty, (fuel - 1) as nat));
    let ghost with_kids = entries@;
    append_all(entries, &bars);
    assert(entries@ =~= old(entries)@ + own_entries(*n, layout, clip) + kid_entries(tree@, *n, inner, ctx, cty, (fuel - 1) as nat)
        + bar_entries(*n, layout, viewport, clip));
}

/// The paint entries of the tree rooted at `root`, bottom to top: whatever paints a
/// cell last is what the cell shows and what a hit there resolves to.
pub fn paint_order(tree: &Vec<PaintNode>, root: usize) -> (entries: Vec<PaintEntry>)
    ensures
        entries@ == paint_order_of(tree@, root as int),
{
    let mut entries: Vec<PaintEntry> = Vec::new();
    collect_ordered_entries(tree, root, 0, 0, ClipRect::unbounded(), tree.len(), &mut entries);
    assert(entries@ =~= paint_order_of(tree@, root as int));
    entries
}

/// Whether the entry covers the screen cell `(x, y)`: inside its rectangle and its clip.
pub open spec fn hits(entry: PaintEntry, x: i32, y: i32) -> bool {
    &&& entry.layout.x <= x < sat_i32(entry.layout.x + entry.layout.width)
    &&& entry.layout.y <= y < sat_i32(entry.layout.y + entry.layout.height)
    &&& entry.clip.left <= x < entry.clip.right
    &&& entry.clip.top <= y < entry.clip.bottom
}

/// The topmost paint entry at a screen coordinate, scrollbar strips included: whatever
/// entry would have painted the cell last.
pub fn entry_at(entries: &Vec<PaintEntry>, x: i32, y: i32) -> (found: Option<PaintEntry>)
    ensures
        match found {
            Some(e) => exists|i: int|
                0 <= i < entries@.len() && entries@[i] == e && hits(e, x, y) && forall|j: int|
                    i < j < entries@.len() ==> !hits(#[trigger] entries@[j], x, y),
            None => forall|j: int| 0 <= j < entries@.len() ==> !hits(#[trigger] entries@[j], x, y),
        },
{
    let mut i = entries.len();
    while i > 0
        invariant
            i <= entries@.len(),
            forall|j: int| i <= j < entries@.len() ==> !hits(#[trigger] entries@[j], x, y),
        decreases i,
    {
        i -= 1;
        let entry = entries[i];
        if entry_contains(&entry.layout, x, y) && entry.clip.contains(x as i64, y as i64) {
            assert(entries@[i as int] == entry);
            return Some(entry);
        }
    }
    None
}

/// Whether `entry` is the strip of `container`'s vertical (or horizontal) scrollbar.
pub open spec fn is_strip_of(entry: PaintEntry, container: NodeId, vertical: bool) -> bool {
    &&& entry.id == container
    &&& entry.scrollbar matches Some(bar)
    &&& bar.vertical == vertical
}

/// The strip entry of one of a container's scrollbars, if that bar is shown.
pub fn scrollbar_strip_of(entries: &Vec<PaintEntry>, container: NodeId, vertical: bool) -> (found: Option<PaintEntry>)
    ensures
        match found {
            Some(e) => exists|i: int|
                0 <= i < entries@.len() && entries@[i] == e && is_strip_of(e, container, vertical) && forall|j: int|
                    0 <= j < i ==> !is_strip_of(#[trigger] entries@[j], container, vertical),
            None => forall|j: int| 0 <= j < entries@.len() ==> !is_strip_of(#[trigger] entries@[j], container, vertical),
        },
{
    let mut i: usize = 0;
    while i < entries.len()
        invariant
            i <= entries@.len(),
            forall|j: int| 0 <= j < i ==> !is_strip_of(#[trigger] entries@[j], container, vertical),
        decreases entries.len() - i,
    {
        let entry = entries[i];
        let matches_bar = match entry.scrollbar {
            Some(bar) => bar.vertical == vertical,
            None => false,
        };
        if entry.id == container && matches_bar {
            assert(entries@[i as int] == entry);
            return Some(entry);
        }
        i += 1;
    }
    None
}


/// A thumb moves with its offset: further scrolled never puts it further back, and it
/// stays within its range; its length does not depend on the offset.
pub proof fn lemma_thumb_start_monotone(span: u16, viewport: u16, max_scroll: u16, a: u16, b: u16)
    requires
        a <= b <= max_scroll,
    ensures
        spec_thumb_geometry(span, viewport, max_scroll, a).0 <= spec_thumb_geometry(span, viewport, max_scroll, b).0,
        spec_thumb_geometry(span, viewport, max_scroll, a).1 == spec_thumb_geometry(span, viewport, max_scroll, b).1,
        spec_thumb_geometry(span, viewport, max_scroll, b).0 + spec_thumb_geometry(span, viewport, max_scroll, b).1
            <= span,
{
    if !(span == 0 || viewport + max_scroll == 0) && max_scroll != 0 {
        lemma_product_bound(span, viewport);
        let len = spec_thumb_len(span, viewport, max_scroll);
        let range = span - len;
        let m = max_scroll as int;
        assert(0 <= a * range <= b * range <= m * range) by (nonlinear_arith)
            requires
                0 <= a <= b <= m,
                0 <= range,
        ;
        lemma_rounded_div_monotone(a * range, b * range, m);
        lemma_rounded_div_monotone(b * range, m * range, m);
        lemma_rounded_div_is(m * range, m, range);
        assert(spec_rounded_div(a * range, m) >= 0) by (nonlinear_arith)
            requires
                a * range >= 0,
                m > 0,
        ;
    }
}

/// Whether `entry` is a scrollbar strip, vertical or not as `vertical` says.
pub open spec fn is_bar(entry: PaintEntry, vertical: bool) -> bool {
    entry.scrollbar is Some && entry.scrollbar->0.vertical == vertical
}

/// Each scrollbar thumb follows its own axis: the horizontal strip is the same
/// whatever the vertical offset, and the vertical strip whatever the horizontal one.
/// The horizontal thumb sits at the strip start when nothing is scrolled, ends at the
/// strip end when scrolled all the way (if it has room to move), and scrolling further
/// never moves it back.
pub proof fn lemma_strip_thumbs_follow_their_axis(node: PaintNode, viewport: LayoutRect, clip: ClipRect, other: u16)
    ensures
        ({
            let strips = scrollbar_strips(node, viewport, clip);
            let y_moved = scrollbar_strips(
                PaintNode { scroll: ScrollOffset { x: node.scroll.x, y: other }, ..node },
                viewport,
                clip,
            );
            let x_moved = scrollbar_strips(
                PaintNode { scroll: ScrollOffset { x: other, y: node.scroll.y }, ..node },
                viewport,
                clip,
            );
            &&& y_moved.len() == strips.len()
            &&& x_moved.len() == strips.len()
            &&& forall|k: int| 0 <= k < strips.len() && is_bar(#[trigger] strips[k], false) ==> y_moved[k] == strips[k]
            &&& forall|k: int| 0 <= k < strips.len() && is_bar(#[trigger] strips[k], true) ==> x_moved[k] == strips[k]
            &&& forall|k: int|
                0 <= k < strips.len() && is_bar(#[trigger] strips[k], false) ==> {
                    let bar = strips[k].scrollbar->0;
                    &&& node.scroll.x == 0 ==> bar.thumb_start == 0
                    &&& node.scroll.x == node.max_scroll_x && bar.thumb_len < strips[k].layout.width
                        ==> bar.thumb_start + bar.thumb_len == strips[k].layout.width
                    &&& node.scroll.x <= other <= node.max_scroll_x ==> is_bar(x_moved[k], false)
                        && bar.thumb_start <= x_moved[k].scrollbar->0.thumb_start
                }
        }),
{
    let strips = scrollbar_strips(node, viewport, clip);
    let sx = node.overflow_x == Overflow::Scroll;
    let sy = node.overflow_y == Overflow::Scroll;
    if !(!(sx || sy) || !node.bars_shown || viewport.width == 0 || viewport.height == 0) {
        let vertical = sy && node.max_scroll_y > 0;
        let horizontal = sx && node.max_scroll_x > 0;
        let span = (viewport.width - if vertical { 1int } else { 0int }) as u16;
        if horizontal {
            let g = spec_thumb_geometry(span, viewport.width, node.max_scroll_x, node.scroll.x);
            if node.scroll.x == 0 {
                lemma_rounded_div_is(0, node.max_scroll_x as int, 0);
                let r = span - spec_thumb_len(span, viewport.width, node.max_scroll_x);
                assert(node.scroll.x * r == 0) by (nonlinear_arith)
                    requires
                        node.scroll.x == 0,
                ;
            }
            if node.scroll.x == node.max_scroll_x && g.1 < span {
                lemma_thumb_ends_exact(span, viewport.width, node.max_scroll_x);
            }
            if node.scroll.x <= other <= node.max_scroll_x {
                lemma_thumb_start_monotone(span, viewport.width, node.max_scroll_x, node.scroll.x, other);
            }
        }
    }
}

} // verus!
