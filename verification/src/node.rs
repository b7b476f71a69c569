//! Node layout and public view types.

use std::collections::HashMap;
use std::ops::Range;
use std::time::{Duration, Instant};
use vstd::prelude::*;

use crate::id::NodeId;
use crate::style::{Border, EdgeInsets};
use crate::render::text::{
    cell_width, char_string, cluster_widths, display_width, grapheme_clusters, graphemes, width_of,
};
use crate::time::{duration_as_nanos, nanos_of, saturating_duration_since, span_between};
use vstd::string::StringExecFns;

verus! {

/// Computed layout for a node — position and size in terminal cells.
#[derive(Debug, Clone, Copy, Default, PartialEq, Eq, Structural)]
pub struct LayoutRect {
    /// X position in terminal cells. May be negative when content is offscreen.
    pub x: i32,
    /// Y position in terminal cells. May be negative when content is offscreen.
    pub y: i32,
    /// Width in terminal cells.
    pub width: u16,
    /// Height in terminal cells.
    pub height: u16,
}

/// A node's computed layout: the border-box rect, the scrollport it bounds
/// descendants to, and how far its content can actually scroll.
#[derive(Debug, Clone, Copy, PartialEq, Eq, Structural)]
pub struct LayoutView {
    /// The node's screen rectangle (border box). May be negative when offscreen.
    pub rect: LayoutRect,
    /// The scrollport: the padding box a scrolling or clipping node bounds its
    /// descendants to.
    pub scrollport: LayoutRect,
    /// Maximum horizontal scroll offset in terminal cells.
    pub max_scroll_x: u16,
    /// Maximum vertical scroll offset in terminal cells.
    pub max_scroll_y: u16,
}

/// A scroll container's current offset in terminal cells.
#[derive(Debug, Clone, Copy, Default, PartialEq, Eq, Structural)]
pub struct ScrollOffset {
    /// Horizontal offset: how many cells of content are scrolled off the left edge.
    pub x: u16,
    /// Vertical offset: how many cells of content are scrolled off the top edge.
    pub y: u16,
}

/// `value` clamped into the `i32` range.
pub open spec fn sat_i32(value: int) -> int {
    if value > i32::MAX { i32::MAX as int } else if value < i32::MIN { i32::MIN as int } else { value }
}

/// `value` clamped into the `u16` range.
pub open spec fn sat_u16(value: int) -> int {
    if value > u16::MAX { u16::MAX as int } else if value < 0 { 0 } else { value }
}

/// `a + b`, saturating at the bounds of `i32`.
pub fn saturating_add_i32(a: i32, b: i32) -> (sum: i32)
    ensures
        sum == sat_i32(a + b),
{
    let wide = a as i64 + b as i64;
    if wide > i32::MAX as i64 {
        i32::MAX
    } else if wide < i32::MIN as i64 {
        i32::MIN
    } else {
        wide as i32
    }
}

/// `rect` with `insets` taken off each side, keeping the size from going negative.
pub open spec fn spec_deflate(rect: LayoutRect, insets: EdgeInsets) -> LayoutRect {
    LayoutRect {
        x: sat_i32(rect.x + insets.left) as i32,
        y: sat_i32(rect.y + insets.top) as i32,
        width: sat_u16(rect.width - sat_u16(insets.left + insets.right)) as u16,
        height: sat_u16(rect.height - sat_u16(insets.top + insets.bottom)) as u16,
    }
}

/// One cell on each side a border draws.
pub open spec fn border_insets(border: Border) -> EdgeInsets {
    EdgeInsets {
        top: if border.sides.top { 1 } else { 0 },
        right: if border.sides.right { 1 } else { 0 },
        bottom: if border.sides.bottom { 1 } else { 0 },
        left: if border.sides.left { 1 } else { 0 },
    }
}

impl LayoutRect {
    /// The rect with `insets` taken off each side.
    ///
    /// The origin moves in by the left and top insets; the size shrinks by both insets
    /// of an axis and stops at zero.
    pub fn deflate(self, insets: EdgeInsets) -> (rect: Self)
        ensures
            rect == spec_deflate(self, insets),
    {
        Self {
            x: saturating_add_i32(self.x, insets.left as i32),
            y: saturating_add_i32(self.y, insets.top as i32),
            width: self.width.saturating_sub(insets.left.saturating_add(insets.right)),
            height: self.height.saturating_sub(insets.top.saturating_add(insets.bottom)),
        }
    }

    /// The rect a scrolling or clipping node bounds its descendants' painting to: the
    /// layout rect deflated by the border.
    pub fn padding_box(self, border: Border) -> (rect: Self)
        ensures
            rect == spec_deflate(self, border_insets(border)),
    {
        self.deflate(border.insets())
    }

    /// The rect a node paints its own content into: deflated by the border and then by
    /// padding.
    pub fn content_rect(self, border: Border, padding: EdgeInsets) -> (rect: Self)
        ensures
            rect == spec_deflate(spec_deflate(self, border_insets(border)), padding),
    {
        self.padding_box(border).deflate(padding)
    }
}

/// Read-only snapshot of a node's public state.
#[derive(Debug)]
pub struct NodeView {
    /// The node's ID.
    pub id: NodeId,
    /// The node kind (public-facing).
    pub kind: NodeKindView,
    /// Parent node, if any.
    pub parent: Option<NodeId>,
    /// Ordered list of child node IDs.
    pub children: Vec<NodeId>,
    /// Computed layout, if layout has been run.
    pub layout: Option<LayoutView>,
    /// Arbitrary string attributes.
    pub attrs: HashMap<String, String>,
}

/// Public-facing node kind.
#[derive(Debug)]
pub enum NodeKindView {
    /// Generic container.
    Box,
    /// Static text content.
    Text {
        /// The text content.
        content: String,
    },
    /// Editable text input state snapshot.
    Input {
        /// Stored input value.
        value: String,
        /// Cursor byte offset into `value`.
        cursor: usize,
        /// Selected byte range in `value`, if any.
        selection: Option<Range<usize>>,
        /// Whether the input accepts newlines.
        multiline: bool,
        /// Optional display mask for password-like fields.
        mask: Option<char>,
        /// Horizontal scroll offset in terminal cells.
        scroll_x: u16,
        /// Vertical scroll offset in terminal rows.
        scroll_y: u16,
    },
    /// Timed frame-cycling content snapshot.
    Frames {
        /// The frame contents, cycled in order.
        frames: Vec<String>,
        /// Time each frame is shown.
        interval: Duration,
        /// Index of the frame showing at the time of this snapshot.
        current: usize,
    },
}

/// Editable text input state.
#[derive(Debug)]
pub struct InputState {
    /// Stored input content. Rendering may mask this, but storage remains unmasked.
    pub content: String,
    /// Cursor byte offset into `content`.
    pub cursor: usize,
    /// Selected byte range in `content`.
    pub selection: Option<Range<usize>>,
    /// Whether Enter inserts newlines.
    pub multiline: bool,
    /// Optional display mask for password-like fields.
    pub mask: Option<char>,
    /// Horizontal scroll offset in terminal cells.
    pub scroll_x: u16,
    /// Vertical scroll offset in terminal rows.
    pub scroll_y: u16,
    /// Display column a run of vertical motion is trying to hold, in terminal cells.
    pub goal_column: Option<u16>,
}

impl InputState {
    /// Create input state with the cursor at the end of the initial content.
    pub fn new(content: String) -> (state: Self)
        ensures
            state.content@ == content@,
            state.cursor == vstd::utf8::encode_utf8(content@).len() as usize,
            state.selection is None,
            !state.multiline,
            state.mask is None,
            state.scroll_x == 0,
            state.scroll_y == 0,
            state.goal_column is None,
    {
        let cursor = content.as_str().len();
        Self {
            content,
            cursor,
            selection: None,
            multiline: false,
            mask: None,
            scroll_x: 0,
            scroll_y: 0,
            goal_column: None,
        }
    }
}

/// The kind of a DOM node.
#[derive(Debug)]
pub enum NodeKind {
    /// Generic container.
    Box,
    /// Static text content.
    Text {
        /// The text content.
        content: String,
    },
    /// Editable text input.
    Input {
        /// The input's editing state.
        state: InputState,
    },
    /// Text content cycling on a timer.
    Frames {
        /// The frame contents, cycled in order.
        frames: Vec<String>,
        /// Time each frame is shown.
        interval: Duration,
        /// When the cycle started.
        started: Instant,
    },
}

/// Which frame of `count` shows after `elapsed` nanoseconds of frames lasting
/// `interval` nanoseconds each: the number of whole intervals elapsed, wrapped around
/// the frame count. No frames, or a zero interval, pins the index at zero.
pub open spec fn spec_frame_at(count: usize, interval: u128, elapsed: u128) -> usize {
    if count == 0 || interval == 0 {
        0
    } else {
        (((elapsed / interval) as usize) as int % (count as int)) as usize
    }
}

/// The frame index a frames node shows after `elapsed` nanoseconds.
pub fn frame_at(count: usize, interval: u128, elapsed: u128) -> (index: usize)
    ensures
        index == spec_frame_at(count, interval, elapsed),
        count > 0 ==> index < count,
        count == 0 ==> index == 0,
{
    if count == 0 || interval == 0 {
        return 0;
    }
    (elapsed / interval) as usize % count
}

/// The frame index a frames node shows at `now`.
///
/// Computed from elapsed time rather than stored, so a flip is nothing but the clock
/// passing a boundary. An empty frame list, or a zero interval, pins the index at zero.
pub fn frames_index(count: usize, interval: Duration, started: Instant, now: Instant) -> (index: usize)
    ensures
        index == spec_frame_at(count, nanos_of(interval), nanos_of(span_between(now, started))),
        count > 0 ==> index < count,
        count == 0 ==> index == 0,
{
    let interval_nanos = duration_as_nanos(&interval);
    let elapsed = saturating_duration_since(&now, &started);
    frame_at(count, interval_nanos, duration_as_nanos(&elapsed))
}

/// A copy of a list of strings.
fn copy_strings(strings: &Vec<String>) -> (copy: Vec<String>)
    ensures
        copy@.len() == strings@.len(),
        forall|i: int| 0 <= i < strings@.len() ==> #[trigger] copy@[i]@ == strings@[i]@,
{
    let mut copy: Vec<String> = Vec::new();
    let mut i: usize = 0;
    while i < strings.len()
        invariant
            i <= strings@.len(),
            copy@.len() == i,
            forall|j: int| 0 <= j < i ==> #[trigger] copy@[j]@ == strings@[j]@,
        decreases strings@.len() - i,
    {
        copy.push(strings[i].clone());
        i += 1;
    }
    copy
}

/// Whether `view` shows exactly what `kind` holds, frames showing some frame index in
/// range.
pub open spec fn shows(kind: NodeKind, view: NodeKindView) -> bool {
    match kind {
        NodeKind::Box => view is Box,
        NodeKind::Text { content } => view matches NodeKindView::Text { content: c } && c@ == content@,
        NodeKind::Input { state } => view matches NodeKindView::Input {
            value,
            cursor,
            selection,
            multiline,
            mask,
            scroll_x,
            scroll_y,
        } && value@ == state.content@ && cursor == state.cursor && selection == state.selection
            && multiline == state.multiline && mask == state.mask && scroll_x == state.scroll_x
            && scroll_y == state.scroll_y,
        NodeKind::Frames { frames, interval, .. } => view matches NodeKindView::Frames {
            frames: shown,
            interval: shown_interval,
            current,
        } && shown@.len() == frames@.len() && (forall|i: int|
            0 <= i < frames@.len() ==> #[trigger] shown@[i]@ == frames@[i]@) && shown_interval
            == interval && (frames@.len() > 0 ==> current < frames@.len()) && (frames@.len() == 0
            ==> current == 0),
    }
}

impl NodeKind {
    /// Convert to the public-facing view, as of `now`.
    ///
    /// The instant matters only to frames nodes, whose current frame is a function of
    /// elapsed time.
    pub fn to_view(&self, now: Instant) -> (view: NodeKindView)
        ensures
            shows(*self, view),
            self matches NodeKind::Frames { frames, interval, started } ==> view matches NodeKindView::Frames {
                current,
                ..
            } && current == spec_frame_at(frames@.len() as usize, nanos_of(*interval), nanos_of(span_between(now, *started))),
    {
        match self {
            NodeKind::Box => NodeKindView::Box,
            NodeKind::Text { content } => NodeKindView::Text { content: content.clone() },
            NodeKind::Input { state } => NodeKindView::Input {
                value: state.content.clone(),
                cursor: state.cursor,
                selection: match &state.selection {
                    Some(range) => Some(range.start..range.end),
                    None => None,
                },
                multiline: state.multiline,
                mask: state.mask,
                scroll_x: state.scroll_x,
                scroll_y: state.scroll_y,
            },
            NodeKind::Frames { frames, interval, started } => NodeKindView::Frames {
                frames: copy_strings(frames),
                interval: *interval,
                current: frames_index(frames.len(), *interval, *started, now),
            },
        }
    }
}

/// `value` with every newline read as a space.
pub open spec fn newlines_as_spaces(value: Seq<char>) -> Seq<char> {
    value.map_values(|c: char| if c == '\n' { ' ' } else { c })
}

/// What a mask shows of the clusters `clusters`: one mask character for each cluster,
/// but a cluster that is a lone newline stays a newline.
pub open spec fn masked(clusters: Seq<Seq<char>>, mask: char) -> Seq<char>
    decreases clusters.len(),
{
    if clusters.len() == 0 {
        Seq::empty()
    } else {
        masked(clusters.drop_last(), mask) + if clusters.last() == seq!['\n'] {
            seq!['\n']
        } else {
            seq![mask]
        }
    }
}

/// The text an input displays for `value`: a single-line input shows newlines as
/// spaces, and a masked input shows the mask character for every grapheme cluster
/// but newlines.
pub open spec fn spec_input_display(value: Seq<char>, multiline: bool, mask: Option<char>) -> Seq<char> {
    let shown = if multiline {
        value
    } else {
        newlines_as_spaces(value)
    };
    match mask {
        None => shown,
        Some(m) => masked(grapheme_clusters(shown), m),
    }
}

/// `value` with every newline replaced by a space.
fn spaces_for_newlines(value: &str) -> (shown: String)
    ensures
        shown@ == newlines_as_spaces(value@),
{
    let mut shown = String::new();
    let space = char_string(' ');
    let n = value.unicode_len();
    let mut i: usize = 0;
    while i < n
        invariant
            n == value@.len(),
            i <= n,
            space@ == seq![' '],
            shown@ == newlines_as_spaces(value@.take(i as int)),
        decreases n - i,
    {
        let c = value.get_char(i);
        if c == '\n' {
            shown.append(space.as_str());
        } else {
            let one = char_string(c);
            shown.append(one.as_str());
        }
        assert(value@.take(i + 1) == value@.take(i as int).push(c));
        i += 1;
    }
    assert(value@.take(n as int) == value@);
    shown
}

/// Build the text displayed for an input value.
pub fn input_display_content(value: &str, multiline: bool, mask: Option<char>) -> (text: String)
    ensures
        text@ == spec_input_display(value@, multiline, mask),
{
    let shown = if multiline {
        value.to_owned()
    } else {
        spaces_for_newlines(value)
    };
    let mask = match mask {
        None => return shown,
        Some(m) => m,
    };
    let clusters = graphemes(shown.as_str());
    let newline = char_string('\n');
    let symbol = char_string(mask);
    let mut text = String::new();
    let mut i: usize = 0;
    while i < clusters.len()
        invariant
            i <= clusters@.len(),
            clusters@.len() == grapheme_clusters(shown@).len(),
            forall|k: int| 0 <= k < clusters@.len() ==> #[trigger] clusters@[k]@ == grapheme_clusters(shown@)[k],
            newline@ == seq!['\n'],
            symbol@ == seq![mask],
            text@ == masked(grapheme_clusters(shown@).take(i as int), mask),
        decreases clusters@.len() - i,
    {
        let ghost before = grapheme_clusters(shown@).take(i as int);
        let ghost after = grapheme_clusters(shown@).take(i + 1);
        assert(after.drop_last() == before);
        assert(after.last() == clusters@[i as int]@);
        if clusters[i] == newline {
            text.append(newline.as_str());
        } else {
            text.append(symbol.as_str());
        }
        i += 1;
    }
    assert(grapheme_clusters(shown@).take(clusters@.len() as int) == grapheme_clusters(shown@));
    text
}

impl InputState {
    /// The content that is measured and painted: the stored content as the input
    /// displays it.
    pub fn display_content(&self) -> (text: String)
        ensures
            text@ == spec_input_display(self.content@, self.multiline, self.mask),
    {
        input_display_content(self.content.as_str(), self.multiline, self.mask)
    }
}

/// `line` without the carriage return it ends with, if it ends with one.
pub open spec fn without_cr(line: Seq<char>) -> Seq<char> {
    if line.len() > 0 && line.last() == '\r' {
        line.drop_last()
    } else {
        line
    }
}

/// The lines of `text` from position `i` on, `current` holding what the line in
/// progress has so far. A newline ends a line, together with a carriage return just
/// before it; after the last newline, what is left is a line if it is not empty.
pub open spec fn lines_from(text: Seq<char>, i: int, current: Seq<char>) -> Seq<Seq<char>>
    decreases text.len() - i,
{
    if i >= text.len() {
        if current.len() == 0 {
            Seq::empty()
        } else {
            seq![current]
        }
    } else if text[i] == '\n' {
        seq![without_cr(current)] + lines_from(text, i + 1, Seq::empty())
    } else {
        lines_from(text, i + 1, current.push(text[i]))
    }
}

/// The lines of `text`, as `str::lines` splits them.
pub open spec fn text_lines(text: Seq<char>) -> Seq<Seq<char>> {
    lines_from(text, 0, Seq::empty())
}

/// One step of `lines_from`: a newline closes the line in progress, any other
/// character extends it.
proof fn lemma_lines_step(text: Seq<char>, i: int, current: Seq<char>)
    requires
        0 <= i < text.len(),
    ensures
        text[i] == '\n' ==> lines_from(text, i, current) == seq![without_cr(current)] + lines_from(text, i + 1, Seq::empty()),
        text[i] != '\n' ==> lines_from(text, i, current) == lines_from(text, i + 1, current.push(text[i])),
{
}

/// The lines of `text`, as `str::lines` splits them.
pub fn split_lines(text: &str) -> (lines: Vec<String>)
    ensures
        lines@.len() == text_lines(text@).len(),
        forall|k: int| 0 <= k < lines@.len() ==> #[trigger] lines@[k]@ == text_lines(text@)[k],
{
    let n = text.unicode_len();
    let mut lines: Vec<String> = Vec::new();
    let mut current = String::new();
    let mut i: usize = 0;
    while i < n
        invariant
            n == text@.len(),
            i <= n,
            lines@.map_values(|l: String| l@) + lines_from(text@, i as int, current@) == text_lines(text@),
        decreases n - i,
    {
        let c = text.get_char(i);
        proof {
            lemma_lines_step(text@, i as int, current@);
        }
        let ghost before = lines@.map_values(|l: String| l@);
        let ghost progress = current@;
        if c == '\n' {
            let len = current.as_str().unicode_len();
            let line = if len > 0 && current.as_str().get_char(len - 1) == '\r' {
                current.as_str().substring_char(0, len - 1).to_owned()
            } else {
                current
            };
            assert(line@ == without_cr(progress));
            lines.push(line);
            assert(lines@.map_values(|l: String| l@) == before.push(line@));
            current = String::new();
            assert(before.push(line@) + lines_from(text@, i + 1, current@) == before + (seq![without_cr(progress)]
                + lines_from(text@, i + 1, Seq::empty())));
        } else {
            let one = char_string(c);
            current.append(one.as_str());
            assert(current@ == progress.push(c));
        }
        i += 1;
    }
    let ghost before = lines@.map_values(|l: String| l@);
    if current.as_str().unicode_len() > 0 {
        lines.push(current);
        assert(lines@.map_values(|l: String| l@) == before + lines_from(text@, n as int, current@));
    } else {
        assert(before + lines_from(text@, n as int, current@) == before);
    }
    assert(lines@.map_values(|l: String| l@) == text_lines(text@));
    proof {
        assert forall|k: int| 0 <= k < lines@.len() implies #[trigger] lines@[k]@ == text_lines(text@)[k] by {
            assert(lines@.map_values(|l: String| l@)[k] == lines@[k]@);
        }
    }
    lines
}

/// Index of the first cluster a line scrolled by `scroll_x` cells shows, scanning from
/// cluster `i` with `cells` cells passed, the clusters taking `widths` columns.
///
/// Zero-width clusters are passed over. The first cluster that reaches past
/// `scroll_x` is shown if it starts at or after the scroll offset, and dropped with
/// what came before it if it straddles the offset.
pub open spec fn first_shown(widths: Seq<usize>, i: int, cells: int, scroll_x: int) -> int
    decreases widths.len() - i,
{
    if i < 0 || i >= widths.len() {
        widths.len() as int
    } else {
        let w = cell_width(widths[i] as int);
        let next = if cells + w > u16::MAX {
            u16::MAX as int
        } else {
            cells + w
        };
        if w == 0 {
            first_shown(widths, i + 1, cells, scroll_x)
        } else if next > scroll_x {
            if cells < scroll_x {
                i + 1
            } else {
                i
            }
        } else {
            first_shown(widths, i + 1, next, scroll_x)
        }
    }
}

/// What a line shows scrolled `scroll_x` cells to the right: the line from its first
/// shown cluster on.
pub open spec fn spec_scroll_line(line: Seq<char>, scroll_x: u16) -> Seq<char> {
    if scroll_x == 0 {
        line
    } else {
        let clusters = grapheme_clusters(line);
        clusters.subrange(first_shown(cluster_widths(line), 0, 0, scroll_x as int), clusters.len() as int).flatten()
    }
}

/// Index of the first cluster shown when the clusters `clusters` are scrolled by
/// `scroll_x` cells.
fn first_shown_cluster(clusters: &Vec<String>, scroll_x: u16, widths: Ghost<Seq<usize>>) -> (first: usize)
    requires
        widths@.len() == clusters@.len(),
        forall|k: int| 0 <= k < clusters@.len() ==> #[trigger] widths@[k] == display_width(clusters@[k]@),
    ensures
        first == first_shown(widths@, 0, 0, scroll_x as int),
        first <= clusters@.len(),
{
    let mut cells: u16 = 0;
    let mut i: usize = 0;
    while i < clusters.len()
        invariant
            i <= clusters@.len(),
            widths@.len() == clusters@.len(),
            forall|k: int| 0 <= k < clusters@.len() ==> #[trigger] widths@[k] == display_width(clusters@[k]@),
            first_shown(widths@, i as int, cells as int, scroll_x as int) == first_shown(widths@, 0, 0, scroll_x as int),
        decreases clusters@.len() - i,
    {
        let raw = width_of(clusters[i].as_str());
        let width: u16 = if raw >= 2 {
            2
        } else {
            raw as u16
        };
        if width == 0 {
            i += 1;
            continue;
        }
        let next = cells.saturating_add(width);
        if next > scroll_x {
            return if cells < scroll_x {
                i + 1
            } else {
                i
            };
        }
        cells = next;
        i += 1;
    }
    i
}

/// A line scrolled `scroll_x` cells to the right: the clusters left of the scroll
/// offset are cut, and so is a wide cluster straddling it.
pub fn scroll_line(line: &str, scroll_x: u16) -> (text: String)
    ensures
        text@ == spec_scroll_line(line@, scroll_x),
{
    if scroll_x == 0 {
        return line.to_owned();
    }
    let clusters = graphemes(line);
    let ghost all = grapheme_clusters(line@);
    proof {
        assert forall|k: int| 0 <= k < clusters@.len() implies #[trigger] cluster_widths(line@)[k]
            == display_width(clusters@[k]@) by {}
    }
    let first = first_shown_cluster(&clusters, scroll_x, Ghost(cluster_widths(line@)));
    let mut text = String::new();
    let mut i: usize = first;
    while i < clusters.len()
        invariant
            first <= i <= clusters@.len(),
            clusters@.len() == all.len(),
            all == grapheme_clusters(line@),
            forall|k: int| 0 <= k < clusters@.len() ==> #[trigger] clusters@[k]@ == all[k],
            text@ == all.subrange(first as int, i as int).flatten(),
        decreases clusters@.len() - i,
    {
        proof {
            all.subrange(first as int, i as int).lemma_flatten_push(all[i as int]);
            assert(all.subrange(first as int, i + 1) == all.subrange(first as int, i as int).push(all[i as int]));
        }
        text.append(clusters[i].as_str());
        i += 1;
    }
    text
}

/// `parts` joined with a newline between each two.
pub open spec fn joined_lines(parts: Seq<Seq<char>>) -> Seq<char>
    decreases parts.len(),
{
    if parts.len() == 0 {
        Seq::empty()
    } else if parts.len() == 1 {
        parts[0]
    } else {
        joined_lines(parts.drop_last()) + seq!['\n'] + parts.last()
    }
}

/// What an input shows of its display content `content` scrolled to `(scroll_x,
/// scroll_y)`: its lines from line `scroll_y` on, each scrolled `scroll_x` cells, one
/// per row.
pub open spec fn spec_scrolled_display(content: Seq<char>, scroll_x: u16, scroll_y: u16) -> Seq<char> {
    let lines = text_lines(content);
    if scroll_y as int >= lines.len() {
        Seq::empty()
    } else {
        joined_lines(
            lines.subrange(scroll_y as int, lines.len() as int).map_values(
                |line: Seq<char>| spec_scroll_line(line, scroll_x),
            ),
        )
    }
}

/// Apply input scroll offsets to display content.
pub fn input_scrolled_display_content(content: &str, scroll_x: u16, scroll_y: u16) -> (text: String)
    ensures
        text@ == spec_scrolled_display(content@, scroll_x, scroll_y),
{
    let lines = split_lines(content);
    let ghost all = text_lines(content@);
    let mut text = String::new();
    if scroll_y as usize >= lines.len() {
        return text;
    }
    let newline = char_string('\n');
    let start = scroll_y as usize;
    let ghost shown = all.subrange(start as int, all.len() as int).map_values(
        |line: Seq<char>| spec_scroll_line(line, scroll_x),
    );
    let mut i: usize = start;
    while i < lines.len()
        invariant
            start <= i <= lines@.len(),
            start < lines@.len(),
            lines@.len() == all.len(),
            forall|k: int| 0 <= k < lines@.len() ==> #[trigger] lines@[k]@ == all[k],
            newline@ == seq!['\n'],
            shown == all.subrange(start as int, all.len() as int).map_values(
                |line: Seq<char>| spec_scroll_line(line, scroll_x),
            ),
            text@ == joined_lines(shown.take(i - start)),
        decreases lines@.len() - i,
    {
        if i > start {
            text.append(newline.as_str());
        }
        let line = scroll_line(lines[i].as_str(), scroll_x);
        text.append(line.as_str());
        proof {
            let upto = shown.take(i + 1 - start);
            assert(upto.drop_last() == shown.take(i - start));
            assert(upto.last() == spec_scroll_line(all[i as int], scroll_x));
        }
        i += 1;
    }
    assert(shown.take(lines@.len() - start) == shown);
    text
}

} // verus!
