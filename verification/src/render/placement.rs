//! Where multi-line text and rectangle edges land on the grid, before any color is
//! blended: which rows a clipped text writes, and which cells form a rectangle's edge.

use vstd::prelude::*;

use crate::node::{split_lines, text_lines};
use crate::render::grid::{max_int, min_int, GridRect};

verus! {

/// The rows lines `k..` of `lines` land on when line `k` goes on row `rect.y + k`,
/// inside the rows `[top, bottom)`: lines past the rect's height or below `bottom` are
/// dropped, lines above `top` skipped.
pub open spec fn rows_from(lines: Seq<Seq<char>>, k: int, rect: GridRect, top: int, bottom: int) -> Seq<(usize, Seq<char>)>
    decreases lines.len() - k,
{
    if k < 0 || k >= lines.len() || k >= rect.height {
        Seq::empty()
    } else {
        let y = rect.y + k;
        if y >= bottom {
            Seq::empty()
        } else if y < top {
            rows_from(lines, k + 1, rect, top, bottom)
        } else {
            seq![(y as usize, lines[k])] + rows_from(lines, k + 1, rect, top, bottom)
        }
    }
}

/// How text clipped to `rect` lands inside the writable bounds `(left, top, right,
/// bottom)`: the columns `[clip_left, clip_right)` each line is clipped to, and the row
/// of each line written. Nothing when the rect is empty or misses the bounds.
pub open spec fn spec_text_rows(rect: GridRect, bounds: (i64, i64, i64, i64), text: Seq<char>) -> Option<
    (i64, i64, Seq<(usize, Seq<char>)>),
> {
    let (left, top, right, bottom) = bounds;
    let clip_left = max_int(rect.x as int, left as int);
    let clip_right = min_int(rect.x + rect.width, right as int);
    if rect.width == 0 || rect.height == 0 || rect.y + rect.height <= top || rect.y >= bottom || clip_right
        <= clip_left {
        None
    } else {
        Some((clip_left as i64, clip_right as i64, rows_from(text_lines(text), 0, rect, top as int, bottom as int)))
    }
}

/// The rows multi-line text clipped to `rect` writes, inside the writable bounds
/// `(left, top, right, bottom)` (as `Grid::writable_bounds` gives them, so `top` is not
/// negative): the column clip and, for each line written, its row.
pub fn text_rows(rect: GridRect, bounds: (i64, i64, i64, i64), text: &str) -> (rows: Option<(i64, i64, Vec<(usize, String)>)>)
    requires
        bounds.1 >= 0,
    ensures
        match spec_text_rows(rect, bounds, text@) {
            None => rows is None,
            Some((clip_left, clip_right, spec_rows)) => rows matches Some((l, r, written)) && l == clip_left && r
                == clip_right && written@.len() == spec_rows.len() && forall|k: int|
                0 <= k < written@.len() ==> (#[trigger] written@[k]).0 == spec_rows[k].0 && written@[k].1@
                    == spec_rows[k].1,
        },
{
    let (left, top, right, bottom) = bounds;
    let rect_top = rect.y as i64;
    let rect_bottom = rect_top + rect.height as i64;
    let clip_left = if (rect.x as i64) > left { rect.x as i64 } else { left };
    let rect_right = rect.x as i64 + rect.width as i64;
    let clip_right = if rect_right < right { rect_right } else { right };
    if rect.width == 0 || rect.height == 0 || rect_bottom <= top || rect_top >= bottom || clip_right <= clip_left {
        return None;
    }
    let lines = split_lines(text);
    let ghost all = text_lines(text@);
    let ghost whole = rows_from(all, 0, rect, top as int, bottom as int);
    let mut written: Vec<(usize, String)> = Vec::new();
    let mut k: usize = 0;
    while k < lines.len() && k < rect.height as usize && rect.y as i64 + (k as i64) < bottom
        invariant
            k <= rect.height,
            lines@.len() == all.len(),
            forall|j: int| 0 <= j < lines@.len() ==> #[trigger] lines@[j]@ == all[j],
            top >= 0,
            written@.map_values(|w: (usize, String)| (w.0, w.1@)) + rows_from(all, k as int, rect, top as int, bottom as int)
                == whole,
        decreases lines.len() - k,
    {
        let y: i64 = rect.y as i64 + k as i64;
        let ghost before = written@.map_values(|w: (usize, String)| (w.0, w.1@));
        if y >= top {
            let line = lines[k].clone();
            written.push((y as usize, line));
            assert(written@.map_values(|w: (usize, String)| (w.0, w.1@)) == before.push((y as usize, all[k as int])));
            assert(before.push((y as usize, all[k as int])) + rows_from(all, k + 1, rect, top as int, bottom as int)
                == before + (seq![(y as usize, all[k as int])] + rows_from(all, k + 1, rect, top as int, bottom as int)));
        }
        k += 1;
    }
    proof {
        let views = written@.map_values(|w: (usize, String)| (w.0, w.1@));
        assert(views == whole);
        assert forall|j: int| 0 <= j < written@.len() implies (#[trigger] written@[j]).0 == whole[j].0 && written@[j].1@
            == whole[j].1 by {
            assert(views[j] == (written@[j].0, written@[j].1@));
        }
    }
    Some((clip_left, clip_right, written))
}


/// The cells `(row, col)` for the columns `from..=to` of `row`, left to right.
pub open spec fn row_cells(row: int, from: int, to: int) -> Seq<(i64, i64)>
    decreases to - from + 1,
{
    if from > to {
        Seq::empty()
    } else {
        seq![(row as i64, from as i64)] + row_cells(row, from + 1, to)
    }
}

/// The edge cells of the box `[left, right] × [top, bottom]` on rows `row..=bottom`, row
/// by row: the whole first and last rows, and the two side cells of the rows between
/// (one where the box is a single column wide).
pub open spec fn edge_rows_from(top: int, bottom: int, left: int, right: int, row: int) -> Seq<(i64, i64)>
    decreases bottom - row + 1,
{
    if row > bottom {
        Seq::empty()
    } else if row == top || row == bottom {
        row_cells(row, left, right) + edge_rows_from(top, bottom, left, right, row + 1)
    } else {
        seq![(row as i64, left as i64)] + (if right != left {
            seq![(row as i64, right as i64)]
        } else {
            Seq::empty()
        }) + edge_rows_from(top, bottom, left, right, row + 1)
    }
}

/// The edge cells of `rect`, row by row: none for an empty rect.
pub open spec fn spec_edge_cells(rect: GridRect) -> Seq<(i64, i64)> {
    if rect.width == 0 || rect.height == 0 {
        Seq::empty()
    } else {
        edge_rows_from(
            rect.y as int,
            rect.y + rect.height - 1,
            rect.x as int,
            rect.x + rect.width - 1,
            rect.y as int,
        )
    }
}

/// The cells on the edge of `rect`, as `(row, col)`, row by row — where a border or a
/// half-block edge draws.
pub fn edge_cells(rect: GridRect) -> (cells: Vec<(i64, i64)>)
    ensures
        cells@ == spec_edge_cells(rect),
{
    let mut cells: Vec<(i64, i64)> = Vec::new();
    if rect.width == 0 || rect.height == 0 {
        return cells;
    }
    let left = rect.x as i64;
    let top = rect.y as i64;
    let right = left + rect.width as i64 - 1;
    let bottom = top + rect.height as i64 - 1;
    let ghost whole = spec_edge_cells(rect);
    let mut row = top;
    while row <= bottom
        invariant
            top <= row <= bottom + 1,
            left <= right,
            top == rect.y,
            bottom == rect.y + rect.height - 1,
            left == rect.x,
            right == rect.x + rect.width - 1,
            bottom < i32::MAX as i64 + 65536,
            cells@ + edge_rows_from(top as int, bottom as int, left as int, right as int, row as int) == whole,
        decreases bottom - row + 1,
    {
        let ghost before = cells@;
        let ghost rest = edge_rows_from(top as int, bottom as int, left as int, right as int, row + 1);
        if row == top || row == bottom {
            let mut col = left;
            while col <= right
                invariant
                    left <= col <= right + 1,
                    right < i32::MAX as i64 + 65536,
                    cells@ + row_cells(row as int, col as int, right as int) == before + row_cells(
                        row as int,
                        left as int,
                        right as int,
                    ),
                decreases right - col + 1,
            {
                let ghost prior = cells@;
                cells.push((row, col));
                assert(prior.push((row, col)) + row_cells(row as int, col + 1, right as int) == prior + row_cells(
                    row as int,
                    col as int,
                    right as int,
                ));
                col += 1;
            }
            assert(cells@ == before + row_cells(row as int, left as int, right as int));
        } else {
            cells.push((row, left));
            if right != left {
                cells.push((row, right));
            }
        }
        row += 1;
    }
    assert(cells@ == whole);
    cells
}

} // verus!
