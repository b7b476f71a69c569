//! Snapshots of a rendered frame, for inspecting what a screen shows without a
//! terminal.

use vstd::prelude::*;

use crate::render::grid::{spec_content_width, spec_terminal_text, Cell, Grid};
use crate::render::RenderCursor;
use crate::style::color::Rgb;
use crate::style::CursorShape;

verus! {

/// RGBA color captured from a rendered screen cell.
#[derive(Debug, Clone, Copy, PartialEq, Eq, Structural)]
pub struct ScreenColor {
    /// Red channel.
    pub r: u8,
    /// Green channel.
    pub g: u8,
    /// Blue channel.
    pub b: u8,
    /// Alpha channel.
    pub a: u8,
}

/// The screen color of a terminal color, channel for channel.
pub open spec fn screen_color(c: Rgb) -> ScreenColor {
    ScreenColor { r: c.r, g: c.g, b: c.b, a: c.a }
}

/// The screen color of an optional terminal color.
pub open spec fn screen_color_opt(c: Option<Rgb>) -> Option<ScreenColor> {
    match c {
        Some(c) => Some(screen_color(c)),
        None => None,
    }
}

impl ScreenColor {
    /// Create an opaque RGB screen color.
    pub fn from_rgb(r: u8, g: u8, b: u8) -> (color: Self)
        ensures
            color == (ScreenColor { r, g, b, a: 255 }),
    {
        Self { r, g, b, a: 255 }
    }
}

impl From<Rgb> for ScreenColor {
    fn from(value: Rgb) -> (color: Self) {
        Self { r: value.r, g: value.g, b: value.b, a: value.a }
    }
}

impl vstd::std_specs::convert::FromSpecImpl<Rgb> for ScreenColor {
    open spec fn obeys_from_spec() -> bool {
        true
    }

    open spec fn from_spec(v: Rgb) -> Self {
        screen_color(v)
    }
}

fn screen_color_of(c: Option<Rgb>) -> (color: Option<ScreenColor>)
    ensures
        color == screen_color_opt(c),
{
    match c {
        Some(c) => Some(ScreenColor::from(c)),
        None => None,
    }
}

/// Cursor metadata captured from a rendered frame.
#[derive(Debug, Clone, Copy, PartialEq, Eq, Structural)]
pub struct ScreenCursor {
    /// Screen x coordinate in terminal cells.
    pub x: i32,
    /// Screen y coordinate in terminal cells.
    pub y: i32,
    /// Cursor shape requested by style.
    pub shape: CursorShape,
    /// Cursor color derived from the focused node's resolved foreground color.
    pub color: ScreenColor,
    /// Whether this cursor should be visible after layout/input clipping.
    pub visible: bool,
}

impl ScreenCursor {
    /// The snapshot of a rendered cursor.
    pub fn from_cursor(cursor: RenderCursor) -> (snapshot: Self)
        ensures
            snapshot == (ScreenCursor {
                x: cursor.x,
                y: cursor.y,
                shape: cursor.shape,
                color: screen_color(cursor.color),
                visible: cursor.visible,
            }),
    {
        Self {
            x: cursor.x,
            y: cursor.y,
            shape: cursor.shape,
            color: ScreenColor::from(cursor.color),
            visible: cursor.visible,
        }
    }
}

/// A rendered terminal cell snapshot.
#[derive(Debug, Clone, PartialEq, Eq)]
pub struct ScreenCell {
    /// Display text for this cell.
    pub text: String,
    /// Foreground color, if one was rendered.
    pub fg: Option<ScreenColor>,
    /// Background color, if one was rendered.
    pub bg: Option<ScreenColor>,
    /// Terminal cell width occupied by this cell's content.
    pub width: u8,
    /// Whether this cell is the continuation cell of a wide glyph.
    pub is_wide_continuation: bool,
    /// Whether this cell's glyph is bold.
    pub bold: bool,
    /// Whether this cell's glyph is italic.
    pub italic: bool,
    /// Whether this cell's glyph is underlined.
    pub underline: bool,
}

/// Whether `snapshot` records exactly what `cell` shows.
pub open spec fn snapshot_of(snapshot: ScreenCell, cell: Cell) -> bool {
    &&& snapshot.text@ == spec_terminal_text(cell.content)
    &&& snapshot.fg == screen_color_opt(cell.fg)
    &&& snapshot.bg == screen_color_opt(cell.bg)
    &&& snapshot.width == spec_content_width(cell.content)
    &&& snapshot.is_wide_continuation == (cell.content is WideContinuation)
    &&& snapshot.bold == cell.attrs.bold
    &&& snapshot.italic == cell.attrs.italic
    &&& snapshot.underline == cell.attrs.underline
}

/// The snapshot of an empty cell: a space, no colors, width one, no attributes.
pub open spec fn empty_snapshot(snapshot: ScreenCell) -> bool {
    &&& snapshot.text@ == seq![' ']
    &&& snapshot.fg is None
    &&& snapshot.bg is None
    &&& snapshot.width == 1
    &&& !snapshot.is_wide_continuation
    &&& !snapshot.bold
    &&& !snapshot.italic
    &&& !snapshot.underline
}

impl ScreenCell {
    /// The snapshot of an empty cell.
    pub fn empty() -> (snapshot: Self)
        ensures
            empty_snapshot(snapshot),
    {
        let snapshot = Self::from_cell(&Cell::empty());
        proof {
            reveal_strlit(" ");
        }
        snapshot
    }

    /// The snapshot of a rendered cell.
    pub fn from_cell(cell: &Cell) -> (snapshot: Self)
        ensures
            snapshot_of(snapshot, *cell),
    {
        Self {
            text: cell.terminal_text().to_owned(),
            fg: screen_color_of(cell.fg),
            bg: screen_color_of(cell.bg),
            width: cell.content_width(),
            is_wide_continuation: cell.is_wide_continuation(),
            bold: cell.attrs.bold,
            italic: cell.attrs.italic,
            underline: cell.attrs.underline,
        }
    }
}

/// Row-major snapshot of a rectangular rendered screen region.
#[derive(Debug, Clone, PartialEq, Eq)]
pub struct ScreenRegion {
    /// Requested region left edge.
    pub x: i32,
    /// Requested region top edge.
    pub y: i32,
    /// Requested region width.
    pub width: u16,
    /// Requested region height.
    pub height: u16,
    /// Row-major cells for the requested region.
    pub cells: Vec<ScreenCell>,
}

/// Whether `(x, y)` is a cell of the screen `grid` shows.
pub open spec fn on_screen(grid: &Grid, x: int, y: int) -> bool {
    0 <= x < grid.width && 0 <= y < grid.height
}

/// The cell of `grid` at screen coordinate `(x, y)`, or `None` off the screen.
pub fn grid_cell(grid: &Grid, x: i32, y: i32) -> (cell: Option<&Cell>)
    requires
        grid.wf(),
    ensures
        on_screen(grid, x as int, y as int) ==> cell == Some(&grid.cell(y as int, x as int)),
        !on_screen(grid, x as int, y as int) ==> cell is None,
{
    if x < 0 || y < 0 || x >= grid.width as i32 || y >= grid.height as i32 {
        return None;
    }
    Some(&grid.cells[y as usize][x as usize])
}

/// The snapshot of the cell at `(x, y)` of a rendered frame, or `None` before the first
/// render or off the screen.
pub fn cell_at(grid: Option<&Grid>, x: i32, y: i32) -> (snapshot: Option<ScreenCell>)
    requires
        grid matches Some(g) ==> g.wf(),
    ensures
        match grid {
            Some(g) => if on_screen(g, x as int, y as int) {
                snapshot matches Some(s) && snapshot_of(s, g.cell(y as int, x as int))
            } else {
                snapshot is None
            },
            None => snapshot is None,
        },
{
    match grid {
        Some(g) => match grid_cell(g, x, y) {
            Some(cell) => Some(ScreenCell::from_cell(cell)),
            None => None,
        },
        None => None,
    }
}

/// Whether `snapshot` is what a region read at `(x, y)` shows: the snapshot of the
/// rendered cell there, or an empty cell off the screen or before the first render.
pub open spec fn region_cell(grid: Option<&Grid>, x: int, y: int, snapshot: ScreenCell) -> bool {
    match grid {
        Some(g) => if on_screen(g, x, y) {
            snapshot_of(snapshot, g.cell(y, x))
        } else {
            empty_snapshot(snapshot)
        },
        None => empty_snapshot(snapshot),
    }
}

/// A row-major snapshot of the `width` × `height` region at `(x, y)`.
///
/// The region keeps the requested bounds: cells off the screen, or every cell before
/// the first render, are empty cells.
pub fn screen_region(grid: Option<&Grid>, x: i32, y: i32, width: u16, height: u16) -> (region: ScreenRegion)
    requires
        grid matches Some(g) ==> g.wf(),
        width > 0 ==> x + width - 1 <= i32::MAX,
        height > 0 ==> y + height - 1 <= i32::MAX,
    ensures
        region.x == x,
        region.y == y,
        region.width == width,
        region.height == height,
        region.cells@.len() == width * height,
        forall|row: int, col: int|
            0 <= row < height && 0 <= col < width ==> region_cell(
                grid,
                x + col,
                y + row,
                #[trigger] region.cells@[row * width + col],
            ),
{
    let mut cells: Vec<ScreenCell> = Vec::new();
    let mut row: u16 = 0;
    while row < height
        invariant
            grid matches Some(g) ==> g.wf(),
            width > 0 ==> x + width - 1 <= i32::MAX,
            height > 0 ==> y + height - 1 <= i32::MAX,
            row <= height,
            cells@.len() == row * width,
            forall|r: int, c: int|
                0 <= r < row && 0 <= c < width ==> region_cell(grid, x + c, y + r, #[trigger] cells@[r * width + c]),
        decreases height - row,
    {
        let mut col: u16 = 0;
        while col < width
            invariant
                grid matches Some(g) ==> g.wf(),
                width > 0 ==> x + width - 1 <= i32::MAX,
                y + row <= i32::MAX,
                row < height,
                col <= width,
                cells@.len() == row * width + col,
                forall|r: int, c: int|
                    0 <= r < row && 0 <= c < width ==> region_cell(grid, x + c, y + r, #[trigger] cells@[r * width + c]),
                forall|c: int| 0 <= c < col ==> region_cell(grid, x + c, y + row, #[trigger] cells@[row * width + c]),
            decreases width - col,
        {
            let cx = x + col as i32;
            let cy = y + row as i32;
            let found = cell_at(grid, cx, cy);
            let snapshot = match found {
                Some(s) => s,
                None => ScreenCell::empty(),
            };
            proof {
                assert(row * width + col + 1 == row * width + (col + 1));
            }
            cells.push(snapshot);
            proof {
                assert forall|r: int, c: int|
                    0 <= r < row && 0 <= c < width implies region_cell(grid, x + c, y + r, #[trigger] cells@[r * width + c]) by {
                    assert(r * width + c < row * width) by (nonlinear_arith)
                        requires
                            0 <= r < row,
                            0 <= c < width,
                    ;
                }
            }
            col += 1;
        }
        proof {
            assert(row * width + width == (row + 1) * width) by (nonlinear_arith);
        }
        row += 1;
    }
    proof {
        assert(height * width == width * height) by (nonlinear_arith);
    }
    ScreenRegion { x, y, width, height, cells }
}

} // verus!
