//! Rendering: the cell grid, text layout, and frame diffing.

pub mod diff;
pub mod grid;
pub mod selection;
pub mod text;

use vstd::prelude::*;

use crate::style::color::Rgb;
use crate::style::CursorShape;

verus! {

/// Cursor metadata produced by rendering a focused input node.
#[derive(Debug, Clone, Copy, PartialEq, Eq, Structural)]
pub struct RenderCursor {
    /// Screen x coordinate in terminal cells.
    pub x: i32,
    /// Screen y coordinate in terminal cells.
    pub y: i32,
    /// Cursor shape requested by style.
    pub shape: CursorShape,
    /// Cursor color derived from the focused node's resolved foreground color.
    pub color: Rgb,
    /// Whether the cursor should be shown after input/layout clipping.
    pub visible: bool,
}

/// `n * k`, saturating at `usize::MAX`.
pub open spec fn sat_mul(n: int, k: int) -> int {
    if n * k > usize::MAX { usize::MAX as int } else { n * k }
}

/// Whether a frame with `changed_cells` dirty cells out of `total_cells` is cheaper to
/// redraw whole: more than a third of the screen changed.
pub fn should_flush_full(changed_cells: usize, total_cells: usize) -> (full: bool)
    ensures
        full == (total_cells > 0 && sat_mul(changed_cells as int, 3) > total_cells),
{
    let tripled = if changed_cells > usize::MAX / 3 { usize::MAX } else { changed_cells * 3 };
    total_cells > 0 && tripled > total_cells
}

} // verus!
pub mod terminal;
pub mod paint;
pub mod placement;
pub mod plan;
