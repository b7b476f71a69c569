//! Cell buffer — the 2D grid representing the virtual screen.

use vstd::prelude::*;

use crate::style::color::Rgb;
use crate::style::{Border, Sides};

verus! {

/// Text content stored in a single terminal cell.
#[derive(Debug, Clone, PartialEq, Eq)]
pub enum CellContent {
    /// Empty cell content. Rendered as a space.
    Empty,
    /// A grapheme cluster starting at this cell.
    Glyph {
        /// Grapheme cluster text.
        text: String,
        /// Terminal cell width: 1 or 2.
        width: u8,
    },
    /// Second cell occupied by a width-2 glyph.
    WideContinuation,
}

impl CellContent {
    /// Text to print for this content when flushing to the terminal.
    pub fn terminal_text(&self) -> (text: &str)
        ensures
            text@ == spec_terminal_text(*self),
    {
        match self {
            Self::Empty => {
                proof {
                    reveal_strlit(" ");
                }
                " "
            },
            Self::Glyph { text, .. } => text.as_str(),
            Self::WideContinuation => {
                proof {
                    reveal_strlit("");
                }
                ""
            },
        }
    }

    /// Width occupied by this content's terminal text.
    pub fn width(&self) -> (width: u8)
        ensures
            width == spec_content_width(*self),
    {
        match self {
            Self::Glyph { width, .. } => *width,
            _ => 1,
        }
    }
}

/// What a cell prints: a space when empty, its glyph, or nothing for the second
/// half of a wide glyph.
pub open spec fn spec_terminal_text(content: CellContent) -> Seq<char> {
    match content {
        CellContent::Empty => seq![' '],
        CellContent::Glyph { text, .. } => text@,
        CellContent::WideContinuation => Seq::empty(),
    }
}

/// The width a cell's content reports: its glyph's width, else one.
pub open spec fn spec_content_width(content: CellContent) -> u8 {
    match content {
        CellContent::Glyph { width, .. } => width,
        _ => 1,
    }
}

/// A rectangular region in the grid.
#[derive(Debug, Clone, Copy, PartialEq, Eq, Structural)]
pub struct GridRect {
    /// Left edge in terminal cells. May be negative when the region starts offscreen.
    pub x: i32,
    /// Top edge in terminal cells. May be negative when the region starts offscreen.
    pub y: i32,
    /// Width in terminal cells.
    pub width: u16,
    /// Height in terminal cells.
    pub height: u16,
}

/// A paint clip region with independently bounded axes.
///
/// Scroll and clip containers bound their descendants' painting per axis, so the
/// identity element is "unbounded on both axes", not a grid-sized rectangle.
#[derive(Debug, Clone, Copy, PartialEq, Eq, Structural)]
pub struct ClipRect {
    /// Leftmost paintable column (inclusive).
    pub left: i64,
    /// Topmost paintable row (inclusive).
    pub top: i64,
    /// Rightmost paintable column (exclusive).
    pub right: i64,
    /// Bottommost paintable row (exclusive).
    pub bottom: i64,
}

/// Whether the rectangle at `(x, y)` of `width` × `height` cells lies entirely outside
/// `clip`: the clip is empty, or the rectangle ends before it or starts after it on
/// either axis.
pub open spec fn spec_excludes(clip: ClipRect, x: int, y: int, width: int, height: int) -> bool {
    ||| clip.left >= clip.right
    ||| clip.top >= clip.bottom
    ||| x + width <= clip.left
    ||| x >= clip.right
    ||| y + height <= clip.top
    ||| y >= clip.bottom
}

/// Clip law: a non-empty rectangle is excluded exactly when none of its cells lies
/// inside the clip, so nothing of it can paint.
pub proof fn lemma_excludes_means_nothing_paints(clip: ClipRect, x: int, y: int, width: int, height: int)
    requires
        width > 0,
        height > 0,
    ensures
        spec_excludes(clip, x, y, width, height) <==> !exists|px: int, py: int|
            x <= px < x + width && y <= py < y + height && #[trigger] cell_in_clip(clip, px, py),
{
    if !spec_excludes(clip, x, y, width, height) {
        let px = if x >= clip.left { x } else { clip.left as int };
        let py = if y >= clip.top { y } else { clip.top as int };
        assert(cell_in_clip(clip, px, py));
    }
}

/// Whether the cell `(px, py)` lies inside `clip`.
pub open spec fn cell_in_clip(clip: ClipRect, px: int, py: int) -> bool {
    clip.left <= px < clip.right && clip.top <= py < clip.bottom
}

/// The identity clip: nothing is clipped.
pub open spec fn unbounded() -> ClipRect {
    ClipRect { left: i64::MIN, top: i64::MIN, right: i64::MAX, bottom: i64::MAX }
}

/// The larger of two integers.
pub open spec fn max_int(a: int, b: int) -> int {
    if a >= b { a } else { b }
}

/// The smaller of two integers.
pub open spec fn min_int(a: int, b: int) -> int {
    if a <= b { a } else { b }
}

impl ClipRect {
    /// The identity clip: nothing is clipped.
    pub fn unbounded() -> (clip: Self)
        ensures
            clip == unbounded(),
    {
        Self { left: i64::MIN, top: i64::MIN, right: i64::MAX, bottom: i64::MAX }
    }

    /// Whether nothing can paint inside this clip.
    pub fn is_empty(&self) -> (empty: bool)
        ensures
            empty == (self.left >= self.right || self.top >= self.bottom),
    {
        self.left >= self.right || self.top >= self.bottom
    }

    /// Bound the horizontal axis to `[left, right)`, keeping the tighter of the two.
    pub fn bound_x(self, left: i64, right: i64) -> (clip: Self)
        ensures
            clip == (ClipRect {
                left: max_int(self.left as int, left as int) as i64,
                right: min_int(self.right as int, right as int) as i64,
                ..self
            }),
    {
        Self {
            left: if self.left >= left { self.left } else { left },
            right: if self.right <= right { self.right } else { right },
            ..self
        }
    }

    /// Bound the vertical axis to `[top, bottom)`, keeping the tighter of the two.
    pub fn bound_y(self, top: i64, bottom: i64) -> (clip: Self)
        ensures
            clip == (ClipRect {
                top: max_int(self.top as int, top as int) as i64,
                bottom: min_int(self.bottom as int, bottom as int) as i64,
                ..self
            }),
    {
        Self {
            top: if self.top >= top { self.top } else { top },
            bottom: if self.bottom <= bottom { self.bottom } else { bottom },
            ..self
        }
    }

    /// Whether a point lies inside the clip.
    pub fn contains(&self, x: i64, y: i64) -> (inside: bool)
        ensures
            inside == (self.left <= x < self.right && self.top <= y < self.bottom),
    {
        x >= self.left && x < self.right && y >= self.top && y < self.bottom
    }

    /// Whether a rectangle lies entirely outside the clip, so nothing of it can paint.
    pub fn excludes(&self, x: i32, y: i32, width: u16, height: u16) -> (outside: bool)
        ensures
            outside == spec_excludes(*self, x as int, y as int, width as int, height as int),
    {
        let left = x as i64;
        let top = y as i64;
        let right = left + width as i64;
        let bottom = top + height as i64;
        self.is_empty() || right <= self.left || left >= self.right || bottom <= self.top || top >= self.bottom
    }

    /// Whether the clip covers an entire `width` × `height` grid.
    pub fn covers_grid(&self, width: u16, height: u16) -> (covers: bool)
        ensures
            covers == (self.left <= 0 && self.top <= 0 && self.right >= width && self.bottom
                >= height),
    {
        self.left <= 0 && self.top <= 0 && self.right >= width as i64 && self.bottom
            >= height as i64
    }
}

/// Clip law: bounding a clip only ever shrinks it — every point inside the bounded
/// clip was inside the clip it came from and inside the new bounds.
pub proof fn lemma_bound_shrinks(clip: ClipRect, left: i64, right: i64, x: i64, y: i64)
    ensures
        ({
            let bounded = ClipRect {
                left: max_int(clip.left as int, left as int) as i64,
                right: min_int(clip.right as int, right as int) as i64,
                ..clip
            };
            (bounded.left <= x < bounded.right && bounded.top <= y < bounded.bottom) <==> (clip.left
                <= x < clip.right && clip.top <= y < clip.bottom && left <= x < right)
        }),
{
}

/// Terminal text attributes carried by a cell's glyph.
#[derive(Debug, Clone, Copy, PartialEq, Eq, Default, Structural)]
pub struct CellAttrs {
    /// Bold / increased intensity.
    pub bold: bool,
    /// Italic.
    pub italic: bool,
    /// Underline.
    pub underline: bool,
}

/// No attributes.
pub open spec fn plain() -> CellAttrs {
    CellAttrs { bold: false, italic: false, underline: false }
}

/// A single terminal character position.
#[derive(Debug, Clone, PartialEq, Eq)]
pub struct Cell {
    /// Display content occupying this terminal cell.
    pub content: CellContent,
    /// Foreground color. `None` means terminal default.
    pub fg: Option<Rgb>,
    /// Background color. `None` means terminal default.
    pub bg: Option<Rgb>,
    /// Terminal attributes for this cell's glyph.
    pub attrs: CellAttrs,
}

/// An empty cell with the given background.
pub open spec fn blank(bg: Option<Rgb>) -> Cell {
    Cell { content: CellContent::Empty, fg: None, bg, attrs: plain() }
}

/// `cell` with its text removed: the background stays, glyph, color and attributes go.
pub open spec fn text_cleared(cell: Cell) -> Cell {
    Cell { content: CellContent::Empty, fg: None, bg: cell.bg, attrs: plain() }
}

impl Cell {
    /// Create an empty cell (space, no colors).
    pub fn empty() -> (cell: Self)
        ensures
            cell == blank(None),
    {
        Self { content: CellContent::Empty, fg: None, bg: None, attrs: CellAttrs { bold: false, italic: false, underline: false } }
    }

    /// Create an empty cell with a background color.
    pub fn empty_with_bg(bg: Rgb) -> (cell: Self)
        ensures
            cell == blank(Some(bg)),
    {
        Self { content: CellContent::Empty, fg: None, bg: Some(bg), attrs: CellAttrs { bold: false, italic: false, underline: false } }
    }

    /// Text to print for this cell when flushing to the terminal.
    pub fn terminal_text(&self) -> (text: &str)
        ensures
            text@ == spec_terminal_text(self.content),
    {
        self.content.terminal_text()
    }

    /// Whether this cell is the continuation of a wide glyph.
    pub fn is_wide_continuation(&self) -> (continuation: bool)
        ensures
            continuation == (self.content is WideContinuation),
    {
        match self.content {
            CellContent::WideContinuation => true,
            _ => false,
        }
    }

    /// An exact copy of this cell.
    pub fn duplicate(&self) -> (copy: Self)
        ensures
            copy == *self,
    {
        let content = match &self.content {
            CellContent::Empty => CellContent::Empty,
            CellContent::Glyph { text, width } => CellContent::Glyph { text: text.clone(), width: *width },
            CellContent::WideContinuation => CellContent::WideContinuation,
        };
        Cell { content, fg: self.fg, bg: self.bg, attrs: self.attrs }
    }

    /// Width occupied by this cell's terminal text.
    pub fn content_width(&self) -> (width: u8)
        ensures
            width == spec_content_width(self.content),
    {
        self.content.width()
    }
}

/// Whether `cell` starts a width-2 glyph.
pub open spec fn is_head(cell: Cell) -> bool {
    cell.content matches CellContent::Glyph { width, .. } && width == 2
}

/// Whether `cell` is the second half of a width-2 glyph.
pub open spec fn is_cont(cell: Cell) -> bool {
    cell.content is WideContinuation
}

/// Every wide glyph in `row` owns the cell after it, and every continuation cell
/// belongs to the glyph before it.
pub open spec fn row_consistent(row: Seq<Cell>) -> bool {
    &&& forall|c: int|
        0 <= c < row.len() ==> ((#[trigger] row[c]).content matches CellContent::Glyph {
            width,
            ..
        } ==> width == 1 || width == 2)
    &&& forall|c: int| 0 <= c < row.len() && is_head(#[trigger] row[c]) ==> c + 1 < row.len() && is_cont(row[c + 1])
    &&& forall|c: int| 0 <= c < row.len() && is_cont(#[trigger] row[c]) ==> c >= 1 && is_head(row[c - 1])
}

/// The cells a text clear at `col` removes: the whole wide glyph the cell belongs to,
/// or just the cell.
pub open spec fn span_start(row: Seq<Cell>, col: int) -> int {
    if is_cont(row[col]) && col > 0 { col - 1 } else { col }
}

/// One past the last cell a text clear at `col` removes.
pub open spec fn span_end(row: Seq<Cell>, col: int) -> int {
    if is_head(row[col]) && col + 1 < row.len() { col + 2 } else { col + 1 }
}

/// Horizontal cell span touched in one grid row.
#[derive(Debug, Clone, Copy, PartialEq, Eq, Structural)]
pub struct TouchedSpan {
    /// First touched cell, inclusive.
    pub start: usize,
    /// Last touched cell, exclusive.
    pub end: usize,
}

impl TouchedSpan {
    /// Widen this span to also span `[start, end)`.
    pub fn widen(&mut self, start: usize, end: usize)
        ensures
            final(self).start == min_int(old(self).start as int, start as int),
            final(self).end == max_int(old(self).end as int, end as int),
    {
        if start < self.start {
            self.start = start;
        }
        if end > self.end {
            self.end = end;
        }
    }
}

/// A 2D buffer of [`Cell`]s representing a single frame's screen state.
#[derive(Debug, Clone)]
pub struct Grid {
    /// Row-major cell storage: cells[row][col].
    pub cells: Vec<Vec<Cell>>,
    /// Width in cells.
    pub width: u16,
    /// Height in cells.
    pub height: u16,
    /// Horizontal spans touched by paint operations after the frame base clear.
    pub touched_spans: Vec<Option<TouchedSpan>>,
    /// The terminal background color assumed when blending onto an unpainted cell.
    pub default_bg: Rgb,
    /// The active clip: writes outside it are dropped.
    pub clip: ClipRect,
}

/// The terminal background a grid assumes until the document declares otherwise.
pub open spec fn black() -> Rgb {
    Rgb { r: 0, g: 0, b: 0, a: 255 }
}

impl Grid {
    /// The cells, row by row.
    pub open spec fn rows(&self) -> Seq<Seq<Cell>> {
        Seq::new(self.cells@.len(), |r: int| self.cells@[r]@)
    }

    /// The cell at `(row, col)`.
    pub open spec fn cell(&self, row: int, col: int) -> Cell {
        self.cells@[row]@[col]
    }

    /// Whether the cell storage is `height` rows of `width` cells.
    pub open spec fn shaped(&self) -> bool {
        &&& self.cells@.len() == self.height
        &&& forall|r: int| 0 <= r < self.height ==> (#[trigger] self.cells@[r])@.len() == self.width
    }

    /// Whether every row keeps its wide glyphs whole.
    pub open spec fn consistent(&self) -> bool {
        forall|r: int| 0 <= r < self.height ==> row_consistent((#[trigger] self.cells@[r])@)
    }

    /// The touched span of each row.
    pub open spec fn spans(&self) -> Seq<Option<TouchedSpan>> {
        self.touched_spans@
    }

    /// Whether every touched span is a non-empty range inside the row.
    pub open spec fn spans_in_bounds(&self) -> bool {
        forall|r: int|
            0 <= r < self.touched_spans@.len() && (#[trigger] self.touched_spans@[r]) is Some ==> {
                let span = self.touched_spans@[r]->0;
                span.start < span.end <= self.width
            }
    }

    /// The grid invariant: `height` rows of `width` cells, wide glyphs kept whole, and
    /// one touched span slot per row, each inside the row.
    pub open spec fn wf(&self) -> bool {
        &&& self.shaped()
        &&& self.consistent()
        &&& self.touched_spans@.len() == self.height
        &&& self.spans_in_bounds()
    }

    /// Create a new grid filled with empty cells.
    pub fn new(width: u16, height: u16) -> (grid: Self)
        ensures
            grid.wf(),
            grid.width == width,
            grid.height == height,
            forall|r: int, c: int| 0 <= r < height && 0 <= c < width ==> #[trigger] grid.cell(r, c) == blank(None),
            forall|r: int| 0 <= r < height ==> #[trigger] grid.spans()[r] is None,
            grid.clip == unbounded(),
            grid.default_bg == black(),
    {
        let mut cells: Vec<Vec<Cell>> = Vec::new();
        let mut spans: Vec<Option<TouchedSpan>> = Vec::new();
        let mut r: u16 = 0;
        while r < height
            invariant
                r <= height,
                cells@.len() == r,
                spans@.len() == r,
                forall|i: int| 0 <= i < r ==> (#[trigger] spans@[i]) is None,
                forall|i: int| 0 <= i < r ==> (#[trigger] cells@[i])@.len() == width,
                forall|i: int, c: int| 0 <= i < r && 0 <= c < width ==> #[trigger] cells@[i]@[c] == blank(None),
            decreases height - r,
        {
            let mut row: Vec<Cell> = Vec::new();
            let mut c: u16 = 0;
            while c < width
                invariant
                    c <= width,
                    row@.len() == c,
                    forall|j: int| 0 <= j < c ==> #[trigger] row@[j] == blank(None),
                decreases width - c,
            {
                row.push(Cell::empty());
                c += 1;
            }
            cells.push(row);
            spans.push(None);
            r += 1;
        }
        let grid = Self {
            cells,
            width,
            height,
            touched_spans: spans,
            default_bg: Rgb { r: 0, g: 0, b: 0, a: 255 },
            clip: ClipRect::unbounded(),
        };
        proof {
            assert forall|i: int| 0 <= i < height implies row_consistent((#[trigger] grid.cells@[i])@) by {
                assert forall|c: int| 0 <= c < grid.cells@[i]@.len() implies !is_cont(#[trigger] grid.cells@[i]@[c]) && !is_head(grid.cells@[i]@[c]) by {}
            }
        }
        grid
    }

    /// The width and height of the grid, its clip and its default background.
    pub open spec fn same_frame(&self, other: &Grid) -> bool {
        &&& self.width == other.width
        &&& self.height == other.height
        &&& self.clip == other.clip
        &&& self.default_bg == other.default_bg
    }

    /// The rows of `self` equal the rows of `other`, cell for cell.
    pub open spec fn same_cells(&self, other: &Grid) -> bool {
        &&& self.cells@.len() == other.cells@.len()
        &&& forall|r: int| 0 <= r < self.cells@.len() ==> (#[trigger] self.cells@[r])@ == other.cells@[r]@
    }

    /// Replace one cell.
    fn set_cell(&mut self, row: usize, col: usize, cell: Cell)
        requires
            row < old(self).cells@.len(),
            col < old(self).cells@[row as int]@.len(),
        ensures
            final(self).same_frame(old(self)),
            final(self).touched_spans == old(self).touched_spans,
            final(self).cells@.len() == old(self).cells@.len(),
            forall|r: int|
                0 <= r < final(self).cells@.len() ==> (#[trigger] final(self).cells@[r])@ == if r == row {
                    old(self).cells@[r]@.update(col as int, cell)
                } else {
                    old(self).cells@[r]@
                },
    {
        self.cells[row][col] = cell;
    }

    /// The writable cell bounds: the grid intersected with the active clip, as
    /// `(left, top, right, bottom)` with exclusive right/bottom.
    pub open spec fn writable(&self) -> (int, int, int, int) {
        (
            max_int(self.clip.left as int, 0),
            max_int(self.clip.top as int, 0),
            min_int(self.clip.right as int, self.width as int),
            min_int(self.clip.bottom as int, self.height as int),
        )
    }

    /// The writable cell bounds: the grid intersected with the active clip, as
    /// `(left, top, right, bottom)` with exclusive right/bottom.
    pub fn writable_bounds(&self) -> (bounds: (i64, i64, i64, i64))
        ensures
            (bounds.0 as int, bounds.1 as int, bounds.2 as int, bounds.3 as int) == self.writable(),
    {
        let w = self.width as i64;
        let h = self.height as i64;
        (
            if self.clip.left >= 0 { self.clip.left } else { 0 },
            if self.clip.top >= 0 { self.clip.top } else { 0 },
            if self.clip.right <= w { self.clip.right } else { w },
            if self.clip.bottom <= h { self.clip.bottom } else { h },
        )
    }

    /// Set the clip for subsequent writes. Painting outside it is dropped.
    pub fn set_clip(&mut self, clip: ClipRect)
        ensures
            *final(self) == (Grid { clip, ..*old(self) }),
    {
        self.clip = clip;
    }

    /// Reset the clip so writes are bounded only by the grid.
    pub fn clear_clip(&mut self)
        ensures
            *final(self) == (Grid { clip: unbounded(), ..*old(self) }),
    {
        self.clip = ClipRect::unbounded();
    }

    /// Set the terminal background color assumed when blending.
    ///
    /// This only feeds the blending math: an unpainted cell still emits the terminal
    /// default.
    pub fn set_default_background(&mut self, bg: Rgb)
        ensures
            *final(self) == (Grid { default_bg: bg, ..*old(self) }),
    {
        self.default_bg = bg;
    }

    /// The rectangle `(x, y, width, height)` clipped to the writable bounds, as
    /// `(left, top, right, bottom)`, or `None` when nothing of it can be written.
    pub open spec fn clipped(&self, x: int, y: int, width: int, height: int) -> Option<(int, int, int, int)> {
        let (bl, bt, br, bb) = self.writable();
        let left = max_int(x, bl);
        let top = max_int(y, bt);
        let right = min_int(x + width, br);
        let bottom = min_int(y + height, bb);
        if width == 0 || height == 0 || left >= right || top >= bottom {
            None
        } else {
            Some((left, top, right, bottom))
        }
    }

    /// Clip a rectangle to the writable bounds, as `(left, top, right, bottom)` cell
    /// indices with exclusive right/bottom.
    pub fn clip_rect(&self, x: i32, y: i32, width: u16, height: u16) -> (clipped: Option<
        (usize, usize, usize, usize),
    >)
        ensures
            clipped is None <==> self.clipped(x as int, y as int, width as int, height as int) is None,
            clipped matches Some((l, t, r, b)) ==> {
                &&& self.clipped(x as int, y as int, width as int, height as int) == Some(
                    (l as int, t as int, r as int, b as int),
                )
                &&& l < r <= self.width
                &&& t < b <= self.height
            },
    {
        if width == 0 || height == 0 {
            return None;
        }
        let left = x as i64;
        let top = y as i64;
        let right = left + width as i64;
        let bottom = top + height as i64;
        let (bound_left, bound_top, bound_right, bound_bottom) = self.writable_bounds();

        let clipped_left = if left >= bound_left { left } else { bound_left };
        let clipped_top = if top >= bound_top { top } else { bound_top };
        let clipped_right = if right <= bound_right { right } else { bound_right };
        let clipped_bottom = if bottom <= bound_bottom { bottom } else { bound_bottom };

        if clipped_left >= clipped_right || clipped_top >= clipped_bottom {
            return None;
        }
        Some((
            clipped_left as usize,
            clipped_top as usize,
            clipped_right as usize,
            clipped_bottom as usize,
        ))
    }

    /// Horizontal spans touched by paint operations after the frame base clear.
    pub fn touched_spans(&self) -> (spans: &[Option<TouchedSpan>])
        ensures
            spans@ == self.spans(),
    {
        self.touched_spans.as_slice()
    }

    /// Mark one row span as touched by direct grid mutation.
    pub fn touch_span(&mut self, row: usize, start: usize, end: usize)
        requires
            old(self).wf(),
        ensures
            final(self).wf(),
            final(self).same_frame(old(self)),
            final(self).cells == old(self).cells,
            final(self).spans() == spans_after_touch(old(self).spans(), old(self).width as int, row as int, start as int, end as int),
    {
        if row >= self.touched_spans.len() || start >= end {
            return;
        }
        let w = self.width as usize;
        let s = if start <= w { start } else { w };
        let e = if end <= w { end } else { w };
        if s >= e {
            return;
        }
        let merged = match self.touched_spans[row] {
            Some(existing) => {
                let mut span = existing;
                span.widen(s, e);
                span
            },
            None => TouchedSpan { start: s, end: e },
        };
        self.touched_spans.set(row, Some(merged));
    }

    /// Mark the rows `[y_start, y_end)` as touched over `[x_start, x_end)`.
    pub fn touch_rect(&mut self, x_start: usize, x_end: usize, y_start: usize, y_end: usize)
        requires
            old(self).wf(),
        ensures
            final(self).wf(),
            final(self).same_frame(old(self)),
            final(self).cells == old(self).cells,
            final(self).spans().len() == old(self).spans().len(),
            forall|r: int|
                0 <= r < final(self).spans().len() ==> #[trigger] final(self).spans()[r] == if y_start <= r < y_end {
                    touched(old(self).spans()[r], old(self).width as int, x_start as int, x_end as int)
                } else {
                    old(self).spans()[r]
                },
    {
        let end = if y_end <= self.touched_spans.len() { y_end } else { self.touched_spans.len() };
        let mut row = y_start;
        while row < end
            invariant
                self.wf(),
                self.same_frame(old(self)),
                self.cells == old(self).cells,
                self.spans().len() == old(self).spans().len(),
                end <= self.spans().len(),
                end == min_int(y_end as int, self.spans().len() as int),
                y_start <= row,
                forall|r: int|
                    0 <= r < self.spans().len() ==> #[trigger] self.spans()[r] == if y_start <= r < row && r < end {
                        touched(old(self).spans()[r], old(self).width as int, x_start as int, x_end as int)
                    } else {
                        old(self).spans()[r]
                    },
            decreases end - row,
        {
            let ghost prev = self.spans();
            self.touch_span(row, x_start, x_end);
            assert(self.spans() == prev.update(
                row as int,
                touched(prev[row as int], old(self).width as int, x_start as int, x_end as int),
            ));
            assert forall|r: int| 0 <= r < self.spans().len() implies #[trigger] self.spans()[r] == if y_start <= r < row + 1 && r < end {
                touched(old(self).spans()[r], old(self).width as int, x_start as int, x_end as int)
            } else {
                old(self).spans()[r]
            } by {
                assert(prev[r] == if y_start <= r < row && r < end {
                    touched(old(self).spans()[r], old(self).width as int, x_start as int, x_end as int)
                } else {
                    old(self).spans()[r]
                });
            }
            row += 1;
        }
    }
}

/// A row's touched span after marking `[start, end)` in a row `width` cells wide; the
/// mark is clipped to the row and an empty mark changes nothing.
pub open spec fn touched(span: Option<TouchedSpan>, width: int, start: int, end: int) -> Option<TouchedSpan> {
    let s = min_int(start, width);
    let e = min_int(end, width);
    if start >= end || s >= e {
        span
    } else {
        match span {
            Some(old) => Some(TouchedSpan {
                start: min_int(old.start as int, s) as usize,
                end: max_int(old.end as int, e) as usize,
            }),
            None => Some(TouchedSpan { start: s as usize, end: e as usize }),
        }
    }
}

/// The touched spans after marking `[start, end)` of `row`; a row past the grid
/// changes nothing.
pub open spec fn spans_after_touch(spans: Seq<Option<TouchedSpan>>, width: int, row: int, start: int, end: int) -> Seq<Option<TouchedSpan>> {
    if 0 <= row < spans.len() {
        spans.update(row, touched(spans[row], width, start, end))
    } else {
        spans
    }
}

/// `row` with the text of the cells in `[start, end)` cleared.
pub open spec fn clear_range(row: Seq<Cell>, start: int, end: int) -> Seq<Cell> {
    Seq::new(row.len(), |c: int| if start <= c < end { text_cleared(row[c]) } else { row[c] })
}

/// `row` after a text clear at `col`: the whole wide glyph the cell belongs to loses
/// its text.
pub open spec fn cleared_at(row: Seq<Cell>, col: int) -> Seq<Cell> {
    clear_range(row, span_start(row, col), span_end(row, col))
}

/// A text clear at a cell keeps the row's wide glyphs whole.
pub proof fn lemma_cleared_at_consistent(row: Seq<Cell>, col: int)
    requires
        row_consistent(row),
        0 <= col < row.len(),
    ensures
        row_consistent(cleared_at(row, col)),
        cleared_at(row, col).len() == row.len(),
{
    let out = cleared_at(row, col);
    let s = span_start(row, col);
    let e = span_end(row, col);
    assert forall|c: int| 0 <= c < out.len() && is_head(#[trigger] out[c]) implies c + 1 < out.len() && is_cont(out[c + 1]) by {
        assert(!(s <= c < e));
        assert(is_head(row[c]));
        assert(is_cont(row[c + 1]));
        if s <= c + 1 < e {
            if is_cont(row[col]) && col > 0 {
                assert(is_head(row[col - 1]));
            }
        }
    }
    assert forall|c: int| 0 <= c < out.len() && is_cont(#[trigger] out[c]) implies c >= 1 && is_head(out[c - 1]) by {
        assert(!(s <= c < e));
        assert(is_cont(row[c]));
        assert(is_head(row[c - 1]));
        if s <= c - 1 < e {
            if is_head(row[col]) && col + 1 < row.len() {
                assert(is_cont(row[col + 1]));
            }
        }
    }
}

/// Placing a cell that is neither half of a wide glyph over a cell that is neither keeps
/// the row's wide glyphs whole.
pub proof fn lemma_put_narrow_consistent(row: Seq<Cell>, col: int, cell: Cell)
    requires
        row_consistent(row),
        0 <= col < row.len(),
        !is_head(row[col]),
        !is_cont(row[col]),
        !is_head(cell),
        !is_cont(cell),
        cell.content matches CellContent::Glyph { width, .. } ==> width == 1 || width == 2,
    ensures
        row_consistent(row.update(col, cell)),
{
    let out = row.update(col, cell);
    assert forall|c: int| 0 <= c < out.len() && is_head(#[trigger] out[c]) implies c + 1 < out.len() && is_cont(out[c + 1]) by {
        assert(c != col);
        assert(is_cont(row[c + 1]));
    }
    assert forall|c: int| 0 <= c < out.len() && is_cont(#[trigger] out[c]) implies c >= 1 && is_head(out[c - 1]) by {
        assert(c != col);
        assert(is_head(row[c - 1]));
    }
}

impl Grid {
    /// Remove the text of one cell, keeping its background.
    fn clear_one_cell_text(&mut self, row: usize, col: usize)
        requires
            row < old(self).cells@.len(),
            col < old(self).cells@[row as int]@.len(),
        ensures
            final(self).same_frame(old(self)),
            final(self).touched_spans == old(self).touched_spans,
            final(self).cells@.len() == old(self).cells@.len(),
            forall|r: int|
                0 <= r < final(self).cells@.len() ==> (#[trigger] final(self).cells@[r])@ == if r == row {
                    old(self).cells@[r]@.update(col as int, text_cleared(old(self).cells@[r]@[col as int]))
                } else {
                    old(self).cells@[r]@
                },
    {
        let bg = self.cells[row][col].bg;
        self.set_cell(
            row,
            col,
            Cell {
                content: CellContent::Empty,
                fg: None,
                bg,
                attrs: CellAttrs { bold: false, italic: false, underline: false },
            },
        );
    }

    /// Clear the text of the glyph covering `(row, col)`: both halves of a wide glyph go
    /// together. Backgrounds stay. Outside the grid nothing changes.
    pub fn clear_text_span_at(&mut self, row: usize, col: usize)
        requires
            old(self).wf(),
        ensures
            final(self).wf(),
            final(self).same_frame(old(self)),
            final(self).touched_spans == old(self).touched_spans,
            final(self).cells@.len() == old(self).cells@.len(),
            forall|r: int|
                0 <= r < final(self).cells@.len() ==> (#[trigger] final(self).cells@[r])@ == if r == row
                    && col < old(self).width {
                    cleared_at(old(self).cells@[r]@, col as int)
                } else {
                    old(self).cells@[r]@
                },
    {
        if row >= self.height as usize || col >= self.width as usize {
            return;
        }
        let ghost before = self.cells@[row as int]@;
        proof {
            lemma_cleared_at_consistent(before, col as int);
        }
        let head = match &self.cells[row][col].content {
            CellContent::Glyph { width, .. } => *width == 2,
            _ => false,
        };
        let cont = self.cells[row][col].is_wide_continuation();
        if head {
            self.clear_one_cell_text(row, col);
            if col + 1 < self.width as usize {
                self.clear_one_cell_text(row, col + 1);
            }
        } else if cont {
            if col > 0 {
                self.clear_one_cell_text(row, col - 1);
            }
            self.clear_one_cell_text(row, col);
        } else {
            self.clear_one_cell_text(row, col);
        }
        assert(self.cells@[row as int]@ =~= cleared_at(before, col as int));
    }

    /// Every cell of the grid is `cell`.
    pub open spec fn all_cells(&self, cell: Cell) -> bool {
        forall|r: int, c: int| 0 <= r < self.height && 0 <= c < self.width ==> #[trigger] self.cell(r, c) == cell
    }

    /// No row has a touched span.
    pub open spec fn untouched(&self) -> bool {
        forall|r: int| 0 <= r < self.spans().len() ==> #[trigger] self.spans()[r] is None
    }

    /// Reset every cell to `blank(bg)` and forget the touched spans.
    fn reset(&mut self, bg: Option<Rgb>)
        requires
            old(self).wf(),
        ensures
            final(self).wf(),
            final(self).same_frame(old(self)),
            final(self).all_cells(blank(bg)),
            final(self).untouched(),
    {
        let spans = self.touched_spans.len();
        let mut r: usize = 0;
        while r < spans
            invariant
                old(self).wf(),
                self.same_frame(old(self)),
                self.cells == old(self).cells,
                self.touched_spans@.len() == spans,
                spans == old(self).touched_spans@.len(),
                r <= spans,
                forall|i: int| 0 <= i < r ==> #[trigger] self.touched_spans@[i] is None,
            decreases spans - r,
        {
            self.touched_spans.set(r, None);
            r += 1;
        }
        let rows = self.cells.len();
        let width = self.width as usize;
        let mut r: usize = 0;
        while r < rows
            invariant
                old(self).wf(),
                self.same_frame(old(self)),
                width == self.width,
                self.touched_spans@.len() == self.height,
                forall|i: int| 0 <= i < self.height ==> #[trigger] self.touched_spans@[i] is None,
                rows == self.cells@.len(),
                rows == self.height,
                r <= rows,
                forall|i: int| 0 <= i < rows ==> (#[trigger] self.cells@[i])@.len() == width,
                forall|i: int, c: int| 0 <= i < r && 0 <= c < width ==> #[trigger] self.cells@[i]@[c] == blank(bg),
            decreases rows - r,
        {
            let mut c: usize = 0;
            while c < width
                invariant
                    old(self).wf(),
                    self.same_frame(old(self)),
                    width == self.width,
                        self.touched_spans@.len() == self.height,
                    forall|i: int| 0 <= i < self.height ==> #[trigger] self.touched_spans@[i] is None,
                    rows == self.cells@.len(),
                    rows == self.height,
                    r < rows,
                    c <= width,
                    forall|i: int| 0 <= i < rows ==> (#[trigger] self.cells@[i])@.len() == width,
                    forall|i: int, j: int| 0 <= i < r && 0 <= j < width ==> #[trigger] self.cells@[i]@[j] == blank(bg),
                    forall|j: int| 0 <= j < c ==> #[trigger] self.cells@[r as int]@[j] == blank(bg),
                decreases width - c,
            {
                self.set_cell(
                    r,
                    c,
                    Cell {
                        content: CellContent::Empty,
                        fg: None,
                        bg,
                        attrs: CellAttrs { bold: false, italic: false, underline: false },
                    },
                );
                c += 1;
            }
            r += 1;
        }
        assert forall|i: int| 0 <= i < self.height implies row_consistent((#[trigger] self.cells@[i])@) by {
            assert forall|c: int| 0 <= c < self.cells@[i]@.len() implies !is_cont(#[trigger] self.cells@[i]@[c]) && !is_head(self.cells@[i]@[c]) by {}
        }
    }

    /// Reset all cells to empty terminal-default state.
    pub fn clear(&mut self)
        requires
            old(self).wf(),
        ensures
            final(self).wf(),
            final(self).same_frame(old(self)),
            final(self).all_cells(blank(None)),
            final(self).untouched(),
    {
        self.reset(None);
    }

    /// Reset all cells to empty content with a shared opaque background.
    pub fn clear_with_bg(&mut self, bg: Rgb)
        requires
            old(self).wf(),
        ensures
            final(self).wf(),
            final(self).same_frame(old(self)),
            final(self).all_cells(blank(Some(bg))),
            final(self).untouched(),
    {
        self.reset(Some(bg));
    }

    /// Fill `[a, b)` of one row with empty cells on an opaque background.
    fn fill_row_opaque(&mut self, row: usize, a: usize, b: usize, bg: Rgb)
        requires
            old(self).wf(),
            row < old(self).height,
            a <= b <= old(self).width,
        ensures
            final(self).wf(),
            final(self).same_frame(old(self)),
            final(self).touched_spans == old(self).touched_spans,
            forall|r: int|
                0 <= r < final(self).cells@.len() ==> (#[trigger] final(self).cells@[r])@ == if r == row {
                    filled_row(old(self).cells@[r]@, a as int, b as int, bg)
                } else {
                    old(self).cells@[r]@
                },
    {
        let ghost orig = self.cells@[row as int]@;
        let mut j = a;
        while j < b
            invariant
                old(self).wf(),
                self.wf(),
                self.same_frame(old(self)),
                self.touched_spans == old(self).touched_spans,
                orig == old(self).cells@[row as int]@,
                row < self.height,
                a <= j <= b <= self.width,
                forall|r: int|
                    0 <= r < self.cells@.len() ==> (#[trigger] self.cells@[r])@ == if r == row {
                        partial_fill(orig, a as int, j as int, bg)
                    } else {
                        old(self).cells@[r]@
                    },
            decreases b - j,
        {
            let ghost cur = self.cells@[row as int]@;
            let empty = match self.cells[row][j].content {
                CellContent::Empty => true,
                _ => false,
            };
            if !empty {
                proof {
                    assert(cur[j as int] == orig[j as int]);
                    if is_cont(orig[j as int]) {
                        assert(is_head(orig[j - 1]));
                        assert(j == a);
                    }
                    if is_head(orig[j as int]) {
                        assert(is_cont(orig[j + 1]));
                    }
                }
                self.clear_text_span_at(row, j);
            }
            let ghost mid = self.cells@[row as int]@;
            proof {
                lemma_put_narrow_consistent(mid, j as int, blank(Some(bg)));
            }
            self.set_cell(
                row,
                j,
                Cell {
                    content: CellContent::Empty,
                    fg: None,
                    bg: Some(bg),
                    attrs: CellAttrs { bold: false, italic: false, underline: false },
                },
            );
            proof {
                let out = self.cells@[row as int]@;
                let next = partial_fill(orig, a as int, j + 1, bg);
                assert(out.len() == next.len());
                assert forall|c: int| 0 <= c < out.len() implies out[c] == next[c] by {
                    if c != j {
                        assert(out[c] == mid[c]);
                        if empty {
                            assert(mid[c] == cur[c]);
                        } else {
                            assert(mid == cleared_at(cur, j as int));
                            assert(cur[j as int] == orig[j as int]);
                            if is_head(orig[j as int]) {
                                assert(is_cont(orig[j + 1]));
                            }
                            if is_cont(orig[j as int]) {
                                assert(is_head(orig[j - 1]));
                            }
                        }
                    }
                }
                assert(out =~= next);
            }
            j += 1;
        }
        proof {
            assert forall|c: int| 0 <= c < orig.len() && c == b && b > a implies (is_cont(orig[c]) <==> is_head(orig[c - 1])) by {
                if is_head(orig[c - 1]) {
                    assert(is_cont(orig[c]));
                }
            }
            assert(partial_fill(orig, a as int, b as int, bg) =~= filled_row(orig, a as int, b as int, bg));
        }
    }

    /// Fill `[x_start, x_end) × [y_start, y_end)` with empty cells on an opaque
    /// background, clearing the text of any wide glyph the rectangle cuts. Returns the
    /// number of cells filled.
    pub fn fill_opaque_empty_bg_rect(
        &mut self,
        x_start: usize,
        y_start: usize,
        x_end: usize,
        y_end: usize,
        bg: Rgb,
    ) -> (filled: usize)
        requires
            old(self).wf(),
            x_start <= x_end <= old(self).width,
            y_start <= y_end <= old(self).height,
        ensures
            final(self).wf(),
            final(self).same_frame(old(self)),
            final(self).touched_spans == old(self).touched_spans,
            filled == (x_end - x_start) * (y_end - y_start),
            final(self).cells@.len() == old(self).cells@.len(),
            forall|r: int|
                0 <= r < final(self).cells@.len() ==> (#[trigger] final(self).cells@[r])@ == if y_start <= r < y_end {
                    filled_row(old(self).cells@[r]@, x_start as int, x_end as int, bg)
                } else {
                    old(self).cells@[r]@
                },
    {
        let mut row = y_start;
        while row < y_end
            invariant
                self.wf(),
                self.same_frame(old(self)),
                self.touched_spans == old(self).touched_spans,
                x_start <= x_end <= self.width,
                y_start <= row <= y_end <= self.height,
                self.cells@.len() == old(self).cells@.len(),
                forall|r: int|
                    0 <= r < self.cells@.len() ==> (#[trigger] self.cells@[r])@ == if y_start <= r < row {
                        filled_row(old(self).cells@[r]@, x_start as int, x_end as int, bg)
                    } else {
                        old(self).cells@[r]@
                    },
            decreases y_end - row,
        {
            self.fill_row_opaque(row, x_start, x_end, bg);
            row += 1;
        }
        let w = x_end - x_start;
        let h = y_end - y_start;
        assert(w * h <= 65535 * 65535) by (nonlinear_arith)
            requires
                w <= 65535,
                h <= 65535,
        ;
        w * h
    }
}

/// `row` with `[a, b)` filled with empty cells on `bg`; a wide glyph cut by either edge
/// loses the text of its half outside the fill.
pub open spec fn filled_row(row: Seq<Cell>, a: int, b: int, bg: Rgb) -> Seq<Cell> {
    Seq::new(
        row.len(),
        |c: int|
            if a <= c < b {
                blank(Some(bg))
            } else if a < b && ((c == a - 1 && is_head(row[c])) || (c == b && is_cont(row[c]))) {
                text_cleared(row[c])
            } else {
                row[c]
            },
    )
}

/// `row` part way through a fill of `[a, ..)` on `bg` that has reached column `j`.
pub open spec fn partial_fill(row: Seq<Cell>, a: int, j: int, bg: Rgb) -> Seq<Cell> {
    Seq::new(
        row.len(),
        |c: int|
            if a <= c < j {
                blank(Some(bg))
            } else if j > a && ((c == a - 1 && is_head(row[c])) || (c == j && is_head(row[j - 1]))) {
                text_cleared(row[c])
            } else {
                row[c]
            },
    )
}

/// Placing a wide glyph's two halves over two cells that are neither half of a wide
/// glyph keeps the row's wide glyphs whole.
pub proof fn lemma_put_wide_consistent(row: Seq<Cell>, col: int, head: Cell, cont: Cell)
    requires
        row_consistent(row),
        0 <= col,
        col + 1 < row.len(),
        !is_head(row[col]),
        !is_cont(row[col]),
        !is_head(row[col + 1]),
        !is_cont(row[col + 1]),
        is_head(head),
        is_cont(cont),
    ensures
        row_consistent(row.update(col, head).update(col + 1, cont)),
{
    let out = row.update(col, head).update(col + 1, cont);
    assert forall|c: int| 0 <= c < out.len() && is_head(#[trigger] out[c]) implies c + 1 < out.len() && is_cont(out[c + 1]) by {
        if c != col {
            assert(c != col + 1);
            assert(is_cont(row[c + 1]));
        }
    }
    assert forall|c: int| 0 <= c < out.len() && is_cont(#[trigger] out[c]) implies c >= 1 && is_head(out[c - 1]) by {
        if c != col + 1 {
            assert(c != col);
            assert(is_head(row[c - 1]));
        }
    }
}

/// `row` after writing a glyph `width` cells wide at `col`: whatever glyphs the new one
/// overlaps lose their text first, then the glyph (and, when wide, its continuation)
/// lands on the backgrounds already there.
pub open spec fn written_glyph(
    row: Seq<Cell>,
    col: int,
    text: String,
    width: u8,
    fg: Option<Rgb>,
    attrs: CellAttrs,
) -> Seq<Cell> {
    let once = cleared_at(row, col);
    let twice = if width == 2 { cleared_at(once, col + 1) } else { once };
    let head = Cell { content: CellContent::Glyph { text, width }, fg, bg: twice[col].bg, attrs };
    if width == 2 {
        twice.update(col, head).update(
            col + 1,
            Cell { content: CellContent::WideContinuation, fg: None, bg: twice[col + 1].bg, attrs },
        )
    } else {
        twice.update(col, head)
    }
}

impl Grid {
    /// Write one glyph `width` cells wide at `(row, col)` with foreground `fg`.
    ///
    /// Any glyph it overlaps loses its text first, so no half of a wide glyph is left
    /// behind. Backgrounds stay as painted.
    pub fn write_glyph(
        &mut self,
        row: usize,
        col: usize,
        text: String,
        width: u8,
        fg: Option<Rgb>,
        attrs: CellAttrs,
    )
        requires
            old(self).wf(),
            row < old(self).height,
            width == 1 || width == 2,
            col + width <= old(self).width,
        ensures
            final(self).wf(),
            final(self).same_frame(old(self)),
            final(self).touched_spans == old(self).touched_spans,
            final(self).cells@.len() == old(self).cells@.len(),
            forall|r: int|
                0 <= r < final(self).cells@.len() ==> (#[trigger] final(self).cells@[r])@ == if r == row {
                    written_glyph(old(self).cells@[r]@, col as int, text, width, fg, attrs)
                } else {
                    old(self).cells@[r]@
                },
    {
        let ghost orig = self.cells@[row as int]@;
        self.clear_text_span_at(row, col);
        let ghost once = self.cells@[row as int]@;
        if width == 2 {
            self.clear_text_span_at(row, col + 1);
        }
        let ghost twice = self.cells@[row as int]@;
        proof {
            assert(once == cleared_at(orig, col as int));
            assert(!is_head(twice[col as int]) && !is_cont(twice[col as int]));
        }
        let bg = self.cells[row][col].bg;
        let head = Cell { content: CellContent::Glyph { text, width }, fg, bg, attrs };
        if width == 2 {
            let next_bg = self.cells[row][col + 1].bg;
            let cont = Cell { content: CellContent::WideContinuation, fg: None, bg: next_bg, attrs };
            proof {
                lemma_put_wide_consistent(twice, col as int, head, cont);
            }
            self.set_cell(row, col, head);
            self.set_cell(row, col + 1, cont);
        } else {
            proof {
                lemma_put_narrow_consistent(twice, col as int, head);
            }
            self.set_cell(row, col, head);
        }
    }

    /// Recolor one cell, keeping its text and attributes.
    pub fn set_colors(&mut self, row: usize, col: usize, fg: Option<Rgb>, bg: Option<Rgb>)
        requires
            old(self).wf(),
            row < old(self).height,
            col < old(self).width,
        ensures
            final(self).wf(),
            final(self).same_frame(old(self)),
            final(self).touched_spans == old(self).touched_spans,
            final(self).cells@.len() == old(self).cells@.len(),
            forall|r: int|
                0 <= r < final(self).cells@.len() ==> (#[trigger] final(self).cells@[r])@ == if r == row {
                    old(self).cells@[r]@.update(col as int, Cell { fg, bg, ..old(self).cells@[r]@[col as int] })
                } else {
                    old(self).cells@[r]@
                },
    {
        let ghost orig = self.cells@[row as int]@;
        self.cells[row][col].fg = fg;
        self.cells[row][col].bg = bg;
        proof {
            let out = self.cells@[row as int]@;
            assert(out =~= orig.update(col as int, Cell { fg, bg, ..orig[col as int] }));
            assert forall|c: int| 0 <= c < out.len() && is_head(#[trigger] out[c]) implies c + 1 < out.len() && is_cont(out[c + 1]) by {
                assert(is_head(orig[c]));
            }
            assert forall|c: int| 0 <= c < out.len() && is_cont(#[trigger] out[c]) implies c >= 1 && is_head(out[c - 1]) by {
                assert(is_cont(orig[c]));
            }
        }
    }

    /// Show a block cursor at `(x, y)`: the cell swaps its colors, the cursor color
    /// standing in for a foreground the cell lacks, and its column is marked touched.
    /// A position off the grid changes nothing.
    pub fn invert_cursor_cell(&mut self, x: i32, y: i32, cursor_color: Rgb)
        requires
            old(self).wf(),
        ensures
            final(self).wf(),
            final(self).same_frame(old(self)),
            x < 0 || y < 0 || x >= old(self).width || y >= old(self).height ==> *final(self) == *old(self),
            0 <= x < old(self).width && 0 <= y < old(self).height ==> {
                let cell = old(self).cells@[y as int]@[x as int];
                &&& final(self).spans() == spans_after_touch(
                    old(self).spans(),
                    old(self).width as int,
                    y as int,
                    x as int,
                    x + 1,
                )
                &&& final(self).cells@.len() == old(self).cells@.len()
                &&& forall|r: int|
                    0 <= r < final(self).cells@.len() ==> (#[trigger] final(self).cells@[r])@ == if r == y {
                        old(self).cells@[r]@.update(
                            x as int,
                            Cell {
                                fg: cell.bg,
                                bg: if cell.fg is Some {
                                    cell.fg
                                } else {
                                    Some(cursor_color)
                                },
                                ..cell
                            },
                        )
                    } else {
                        old(self).cells@[r]@
                    }
            },
    {
        if x < 0 || y < 0 || x >= self.width as i32 || y >= self.height as i32 {
            return;
        }
        let (row, col) = (y as usize, x as usize);
        self.touch_span(row, col, col + 1);
        let fg = self.cells[row][col].fg;
        let bg = self.cells[row][col].bg;
        let new_bg = match fg {
            Some(color) => Some(color),
            None => Some(cursor_color),
        };
        self.set_colors(row, col, bg, new_bg);
    }

    /// Replace the text of one cell: whatever glyph covers it loses its text, then
    /// `cell` takes its place. `cell` holds no part of a wide glyph.
    pub fn replace_cell(&mut self, row: usize, col: usize, cell: Cell)
        requires
            old(self).wf(),
            row < old(self).height,
            col < old(self).width,
            !is_head(cell),
            !is_cont(cell),
            cell.content matches CellContent::Glyph { width, .. } ==> width == 1,
        ensures
            final(self).wf(),
            final(self).same_frame(old(self)),
            final(self).touched_spans == old(self).touched_spans,
            final(self).cells@.len() == old(self).cells@.len(),
            forall|r: int|
                0 <= r < final(self).cells@.len() ==> (#[trigger] final(self).cells@[r])@ == if r == row {
                    cleared_at(old(self).cells@[r]@, col as int).update(col as int, cell)
                } else {
                    old(self).cells@[r]@
                },
    {
        self.clear_text_span_at(row, col);
        let ghost mid = self.cells@[row as int]@;
        proof {
            lemma_put_narrow_consistent(mid, col as int, cell);
        }
        self.set_cell(row, col, cell);
    }
}

/// The edges of a box `[left, right] × [top, bottom]` a cell at `(row, col)` lies on,
/// among the drawn `sides`: `(top, bottom, left, right)`.
pub open spec fn edges_at(sides: Sides, row: int, col: int, left: int, right: int, top: int, bottom: int) -> (bool, bool, bool, bool) {
    (row == top && sides.top, row == bottom && sides.bottom, col == left && sides.left, col == right && sides.right)
}

/// The border character of the cell at `(row, col)` of the box `[left, right] ×
/// [top, bottom]`, or `None` when no drawn side passes through it.
///
/// A corner cell gets its corner character only when both adjacent sides are drawn;
/// otherwise the one side that is present runs straight through it.
pub open spec fn border_glyph(border: Border, row: int, col: int, left: int, right: int, top: int, bottom: int) -> Option<char> {
    let (t, b, l, r) = edges_at(border.sides, row, col, left, right, top, bottom);
    let set = border.charset;
    if t && l {
        Some(set.top_left)
    } else if t && r {
        Some(set.top_right)
    } else if b && l {
        Some(set.bottom_left)
    } else if b && r {
        Some(set.bottom_right)
    } else if t {
        Some(set.top)
    } else if b {
        Some(set.bottom)
    } else if l {
        Some(set.left)
    } else if r {
        Some(set.right)
    } else {
        None
    }
}

/// The border character of the cell at `(row, col)` of the box `[left, right] ×
/// [top, bottom]`, or `None` when no drawn side passes through it.
pub fn border_cell_glyph(
    border: Border,
    row: i64,
    col: i64,
    left: i64,
    right: i64,
    top: i64,
    bottom: i64,
) -> (glyph: Option<char>)
    ensures
        glyph == border_glyph(border, row as int, col as int, left as int, right as int, top as int, bottom as int),
{
    let sides = border.sides;
    let on_top = row == top && sides.top;
    let on_bottom = row == bottom && sides.bottom;
    let on_left = col == left && sides.left;
    let on_right = col == right && sides.right;
    let set = border.charset;
    if on_top && on_left {
        Some(set.top_left)
    } else if on_top && on_right {
        Some(set.top_right)
    } else if on_bottom && on_left {
        Some(set.bottom_left)
    } else if on_bottom && on_right {
        Some(set.bottom_right)
    } else if on_top {
        Some(set.top)
    } else if on_bottom {
        Some(set.bottom)
    } else if on_left {
        Some(set.left)
    } else if on_right {
        Some(set.right)
    } else {
        None
    }
}

/// The half-block character of the cell at `(row, col)` of the box `[left, right] ×
/// [top, bottom]` whose `sides` get a half-block edge, or `None` off those edges.
///
/// The glyph draws the half (or, at a corner, the quadrant) of the cell facing into
/// the box. When opposing sides land on one cell, the top and the left win.
pub open spec fn half_block_glyph(sides: Sides, row: int, col: int, left: int, right: int, top: int, bottom: int) -> Option<char> {
    let vertical_top = row == top && sides.top;
    let vertical_bottom = !vertical_top && row == bottom && sides.bottom;
    let horizontal_left = col == left && sides.left;
    let horizontal_right = !horizontal_left && col == right && sides.right;
    if vertical_top && horizontal_left {
        Some('\u{2597}')
    } else if vertical_top && horizontal_right {
        Some('\u{2596}')
    } else if vertical_bottom && horizontal_left {
        Some('\u{259d}')
    } else if vertical_bottom && horizontal_right {
        Some('\u{2598}')
    } else if vertical_top {
        Some('\u{2584}')
    } else if vertical_bottom {
        Some('\u{2580}')
    } else if horizontal_left {
        Some('\u{2590}')
    } else if horizontal_right {
        Some('\u{258c}')
    } else {
        None
    }
}

/// One side of a cell's edge treatment.
#[derive(Debug, Clone, Copy, PartialEq, Eq, Structural)]
enum Side {
    Top,
    Bottom,
    Left,
    Right,
}

/// The half-block character of the cell at `(row, col)` of the box `[left, right] ×
/// [top, bottom]` whose `sides` get a half-block edge, or `None` off those edges.
pub fn half_block_cell_glyph(
    sides: Sides,
    row: i64,
    col: i64,
    left: i64,
    right: i64,
    top: i64,
    bottom: i64,
) -> (glyph: Option<char>)
    ensures
        glyph == half_block_glyph(sides, row as int, col as int, left as int, right as int, top as int, bottom as int),
{
    let vertical = if row == top && sides.top {
        Some(Side::Top)
    } else if row == bottom && sides.bottom {
        Some(Side::Bottom)
    } else {
        None
    };
    let horizontal = if col == left && sides.left {
        Some(Side::Left)
    } else if col == right && sides.right {
        Some(Side::Right)
    } else {
        None
    };
    match (vertical, horizontal) {
        (Some(Side::Top), Some(Side::Left)) => Some('\u{2597}'),
        (Some(Side::Top), Some(Side::Right)) => Some('\u{2596}'),
        (Some(Side::Bottom), Some(Side::Left)) => Some('\u{259d}'),
        (Some(Side::Bottom), Some(Side::Right)) => Some('\u{2598}'),
        (Some(Side::Top), None) => Some('\u{2584}'),
        (Some(Side::Bottom), None) => Some('\u{2580}'),
        (None, Some(Side::Left)) => Some('\u{2590}'),
        (None, Some(Side::Right)) => Some('\u{258c}'),
        _ => None,
    }
}

} // verus!
