//! Frame diffing — compare old vs. new grid to find changed cells.
//!
//! Wide glyphs occupy multiple terminal cells, so dirty cells are expanded
//! through both the old and new wide spans before flushing.

use vstd::prelude::*;

use crate::performance::DiffProfile;
use crate::render::grid::{is_cont, is_head, spec_terminal_text, Cell, CellContent, Grid};
use crate::style::color::Rgb;
use crate::time::{elapsed_since, instant_now, nanos_of, saturating_add_duration, zero_duration};

verus! {

/// A single changed cell with its position.
#[derive(Debug, Clone)]
pub struct CellChange {
    /// Column.
    pub x: u16,
    /// Row.
    pub y: u16,
    /// The new cell value to write.
    pub cell: Cell,
}

/// Frame diff output.
#[derive(Debug)]
pub struct DiffOutput {
    /// Changed cells to flush.
    pub changes: Vec<CellChange>,
    /// Detailed diff instrumentation.
    pub profile: DiffProfile,
}

/// Whether two cell contents print the same thing.
pub open spec fn same_content(a: CellContent, b: CellContent) -> bool {
    match (a, b) {
        (CellContent::Empty, CellContent::Empty) => true,
        (CellContent::Glyph { text: t1, width: w1 }, CellContent::Glyph { text: t2, width: w2 }) => t1@ == t2@ && w1 == w2,
        (CellContent::WideContinuation, CellContent::WideContinuation) => true,
        _ => false,
    }
}

/// Whether two cells would print differently: their text or a color differs.
pub open spec fn differ(a: Cell, b: Cell) -> bool {
    !same_content(a.content, b.content) || a.fg != b.fg || a.bg != b.bg
}

/// Whether two rows are equal cell for cell, attributes included.
pub open spec fn rows_equal(a: Seq<Cell>, b: Seq<Cell>) -> bool {
    &&& a.len() == b.len()
    &&& forall|i: int| 0 <= i < a.len() ==> !differ(#[trigger] a[i], b[i]) && a[i].attrs == b[i].attrs
}

pub(crate) fn same_color(a: Option<Rgb>, b: Option<Rgb>) -> (same: bool)
    ensures
        same == (a == b),
{
    match (a, b) {
        (None, None) => true,
        (Some(x), Some(y)) => x.r == y.r && x.g == y.g && x.b == y.b && x.a == y.a,
        _ => false,
    }
}

fn same_text(a: &CellContent, b: &CellContent) -> (same: bool)
    ensures
        same == same_content(*a, *b),
{
    match (a, b) {
        (CellContent::Empty, CellContent::Empty) => true,
        (CellContent::Glyph { text: t1, width: w1 }, CellContent::Glyph { text: t2, width: w2 }) => *w1 == *w2 && *t1 == *t2,
        (CellContent::WideContinuation, CellContent::WideContinuation) => true,
        _ => false,
    }
}

/// Whether two cells would print differently.
pub fn cells_differ(old: &Cell, new: &Cell) -> (differs: bool)
    ensures
        differs == differ(*old, *new),
{
    !same_text(&old.content, &new.content) || !same_color(old.fg, new.fg) || !same_color(old.bg, new.bg)
}

fn rows_match(a: &Vec<Cell>, b: &Vec<Cell>) -> (same: bool)
    ensures
        same == rows_equal(a@, b@),
{
    if a.len() != b.len() {
        return false;
    }
    let mut i: usize = 0;
    while i < a.len()
        invariant
            a@.len() == b@.len(),
            i <= a@.len(),
            forall|j: int| 0 <= j < i ==> !differ(#[trigger] a@[j], b@[j]) && a@[j].attrs == b@[j].attrs,
        decreases a.len() - i,
    {
        if cells_differ(&a[i], &b[i]) || a[i].attrs.bold != b[i].attrs.bold || a[i].attrs.italic
            != b[i].attrs.italic || a[i].attrs.underline != b[i].attrs.underline {
            return false;
        }
        i += 1;
    }
    true
}

/// The cell at `(y, x)` of `grid`, when its row and column exist.
pub open spec fn has_cell(grid: &Grid, y: int, x: int) -> bool {
    0 <= y < grid.cells@.len() && 0 <= x < grid.cells@[y]@.len()
}

/// Whether the cell at `(y, x)` changed between the frames; a cell the old frame
/// lacks always has.
pub open spec fn changed(old: &Grid, new: &Grid, y: int, x: int) -> bool {
    !has_cell(old, y, x) || differ(old.cells@[y]@[x], new.cells@[y]@[x])
}

/// Whether `(y, x)` inside `grid` starts a wide glyph.
pub open spec fn head_in(grid: &Grid, y: int, x: int) -> bool {
    0 <= y < grid.height && 0 <= x < grid.width && is_head(grid.cells@[y]@[x])
}

/// Whether `(y, x)` inside `grid` is the second half of a wide glyph.
pub open spec fn cont_in(grid: &Grid, y: int, x: int) -> bool {
    0 <= y < grid.height && 0 <= x < grid.width && is_cont(grid.cells@[y]@[x])
}

/// Whether a change at `(y, x)` spreads to the cell after it: a wide glyph starts
/// there in either frame.
pub open spec fn spreads_right(old: &Grid, new: &Grid, y: int, x: int) -> bool {
    changed(old, new, y, x) && (head_in(old, y, x) || head_in(new, y, x))
}

/// Whether a change at `(y, x)` spreads to the cell before it: a wide glyph ends
/// there in either frame.
pub open spec fn spreads_left(old: &Grid, new: &Grid, y: int, x: int) -> bool {
    changed(old, new, y, x) && x > 0 && (cont_in(old, y, x) || cont_in(new, y, x))
}

/// Whether column `x` of row `y` has to be flushed, looking at changes in the columns
/// before `upto` only: it changed, or a wide glyph beside it did.
pub open spec fn dirty_before(old: &Grid, new: &Grid, y: int, x: int, upto: int) -> bool {
    ||| x < upto && changed(old, new, y, x)
    ||| 0 < x && x - 1 < upto && spreads_right(old, new, y, x - 1)
    ||| x + 1 < upto && spreads_left(old, new, y, x + 1)
}

/// Whether column `x` of row `y` has to be flushed.
pub open spec fn dirty(old: &Grid, new: &Grid, y: int, x: int) -> bool {
    dirty_before(old, new, y, x, new.width as int)
}

/// The changes of row `y` among its first `x` columns.
pub open spec fn row_changes(old: &Grid, new: &Grid, y: int, x: int) -> Seq<CellChange>
    decreases x,
{
    if x <= 0 {
        Seq::empty()
    } else if dirty(old, new, y, x - 1) {
        row_changes(old, new, y, x - 1).push(
            CellChange { x: (x - 1) as u16, y: y as u16, cell: new.cells@[y]@[x - 1] },
        )
    } else {
        row_changes(old, new, y, x - 1)
    }
}

/// Whether row `y` is skipped whole: the old frame has it, cell for cell.
pub open spec fn row_unchanged(old: &Grid, new: &Grid, y: int) -> bool {
    0 <= y < old.cells@.len() && rows_equal(old.cells@[y]@, new.cells@[y]@)
}

/// The changes of the first `y` rows, row by row, left to right.
pub open spec fn frame_changes(old: &Grid, new: &Grid, y: int) -> Seq<CellChange>
    decreases y,
{
    if y <= 0 {
        Seq::empty()
    } else if row_unchanged(old, new, y - 1) {
        frame_changes(old, new, y - 1)
    } else {
        frame_changes(old, new, y - 1) + row_changes(old, new, y - 1, new.width as int)
    }
}

/// How many of the first `y` rows are skipped whole.
pub open spec fn unchanged_rows_before(old: &Grid, new: &Grid, y: int) -> int
    decreases y,
{
    if y <= 0 {
        0
    } else {
        unchanged_rows_before(old, new, y - 1) + if row_unchanged(old, new, y - 1) {
            1int
        } else {
            0int
        }
    }
}

/// Mark `x` if it is inside the row.
fn mark(dirty: &mut Vec<bool>, x: usize)
    ensures
        final(dirty)@ == if x < old(dirty)@.len() { old(dirty)@.update(x as int, true) } else { old(dirty)@ },
{
    if x < dirty.len() {
        dirty.set(x, true);
    }
}

/// Mark `x` and, when `grid` holds a wide glyph there, its other half.
fn mark_span_in_row(dirty: &mut Vec<bool>, grid: &Grid, x: usize, y: usize)
    requires
        grid.wf(),
    ensures
        final(dirty)@.len() == old(dirty)@.len(),
        forall|i: int|
            0 <= i < final(dirty)@.len() ==> #[trigger] final(dirty)@[i] == (old(dirty)@[i] || i == x || (
            i == x + 1 && head_in(grid, y as int, x as int)) || (i == x - 1 && x > 0 && cont_in(
                grid,
                y as int,
                x as int,
            ))),
{
    if y >= grid.height as usize || x >= grid.width as usize {
        mark(dirty, x);
        return;
    }
    let head = match &grid.cells[y][x].content {
        CellContent::Glyph { width, .. } => *width == 2,
        _ => false,
    };
    let cont = grid.cells[y][x].is_wide_continuation();
    if head {
        mark(dirty, x);
        mark(dirty, x + 1);
    } else if cont {
        if x > 0 {
            mark(dirty, x - 1);
        }
        mark(dirty, x);
    } else {
        mark(dirty, x);
    }
}

/// Compare old and new grids, returning the cells to flush.
///
/// A row identical to the old frame's is skipped. In any other row a cell is flushed
/// when it prints differently, or when it is half of a wide glyph, in either frame,
/// whose other half does.
///
/// With `instrument`, the profile counts rows, skipped and scanned rows, compared cells
/// and emitted cells, and times the row comparisons, cell scans and emission on the
/// clock (so nothing is promised of those times but that they are zero without
/// `instrument`).
pub fn diff_profiled(old: &Grid, new: &Grid, instrument: bool) -> (output: DiffOutput)
    requires
        old.wf(),
        new.wf(),
    ensures
        output.changes@ == frame_changes(old, new, new.height as int),
        output.profile.enabled == instrument,
        output.profile.dirty_cells == if instrument { output.changes@.len() } else { 0 },
        output.profile.rows == if instrument { new.height as int } else { 0 },
        output.profile.hint_skipped_rows == 0,
        output.profile.unchanged_rows == if instrument { unchanged_rows_before(old, new, new.height as int) } else { 0 },
        output.profile.changed_rows == if instrument {
            new.height - unchanged_rows_before(old, new, new.height as int)
        } else {
            0
        },
        output.profile.cells_compared == output.profile.changed_rows * new.width,
        !instrument ==> nanos_of(output.profile.row_equality_time) == 0,
        !instrument ==> nanos_of(output.profile.cell_scan_time) == 0,
        !instrument ==> nanos_of(output.profile.emit_time) == 0,
{
    let width = new.width as usize;
    let height = new.height as usize;
    let mut dirty_row: Vec<bool> = Vec::new();
    let mut i: usize = 0;
    while i < width
        invariant
            i <= width,
            dirty_row@.len() == i,
        decreases width - i,
    {
        dirty_row.push(false);
        i += 1;
    }
    let mut changes: Vec<CellChange> = Vec::new();
    let mut rows: usize = 0;
    let mut unchanged_rows: usize = 0;
    let mut changed_rows: usize = 0;
    let mut cells_compared: usize = 0;
    let mut row_equality_time = zero_duration();
    let mut cell_scan_time = zero_duration();
    let mut emit_time = zero_duration();

    let mut y: usize = 0;
    while y < height
        invariant
            old.wf(),
            new.wf(),
            width == new.width,
            height == new.height,
            y <= height,
            dirty_row@.len() == width,
            changes@ == frame_changes(old, new, y as int),
            rows <= y,
            unchanged_rows <= y,
            changed_rows <= y,
            cells_compared <= y * width,
            rows == if instrument { y as int } else { 0 },
            unchanged_rows == if instrument { unchanged_rows_before(old, new, y as int) } else { 0 },
            changed_rows == if instrument { y - unchanged_rows_before(old, new, y as int) } else { 0 },
            cells_compared == changed_rows * width,
            !instrument ==> nanos_of(row_equality_time) == 0 && nanos_of(cell_scan_time) == 0 && nanos_of(
                emit_time,
            ) == 0,
        decreases height - y,
    {
        if instrument {
            rows += 1;
        }
        let row_equality_start = if instrument { Some(instant_now()) } else { None };
        let skip = y < old.cells.len() && rows_match(&old.cells[y], &new.cells[y]);
        if let Some(start) = row_equality_start {
            row_equality_time = saturating_add_duration(row_equality_time, elapsed_since(&start));
        }
        assert(skip == row_unchanged(old, new, y as int));
        if skip {
            if instrument {
                unchanged_rows += 1;
            }
            proof {
                assert(y * width + width == (y + 1) * width) by (nonlinear_arith);
            }
            y += 1;
            continue;
        }
        if instrument {
            changed_rows += 1;
        }

        let mut k: usize = 0;
        while k < width
            invariant
                k <= width,
                dirty_row@.len() == width,
                forall|j: int| 0 <= j < k ==> !(#[trigger] dirty_row@[j]),
            decreases width - k,
        {
            dirty_row.set(k, false);
            k += 1;
        }

        let cell_scan_start = if instrument { Some(instant_now()) } else { None };
        let mut x: usize = 0;
        while x < width
            invariant
                old.wf(),
                new.wf(),
                width == new.width,
                y < height == new.height,
                x <= width,
                dirty_row@.len() == width,
                cells_compared <= y * width + x,
                changed_rows <= y + 1,
                cells_compared == if instrument { (changed_rows - 1) * width + x } else { 0 },
                forall|j: int| 0 <= j < width ==> #[trigger] dirty_row@[j] == dirty_before(old, new, y as int, j, x as int),
            decreases width - x,
        {
            if instrument {
                assert(y * width + x < 65535 * 65535 + 65535) by (nonlinear_arith)
                    requires
                        y < 65535,
                        x < width <= 65535,
                ;
                cells_compared += 1;
            }
            let has_old = y < old.cells.len() && x < old.cells[y].len();
            let differs = if has_old {
                cells_differ(&old.cells[y][x], &new.cells[y][x])
            } else {
                true
            };
            if differs {
                mark_span_in_row(&mut dirty_row, old, x, y);
                mark_span_in_row(&mut dirty_row, new, x, y);
            }
            x += 1;
        }

        if let Some(start) = cell_scan_start {
            cell_scan_time = saturating_add_duration(cell_scan_time, elapsed_since(&start));
        }
        let emit_start = if instrument { Some(instant_now()) } else { None };
        let ghost before = changes@;
        let mut x: usize = 0;
        while x < width
            invariant
                new.wf(),
                width == new.width,
                y < height == new.height,
                x <= width,
                dirty_row@.len() == width,
                forall|j: int| 0 <= j < width ==> #[trigger] dirty_row@[j] == dirty(old, new, y as int, j),
                changes@ == before + row_changes(old, new, y as int, x as int),
            decreases width - x,
        {
            if dirty_row[x] {
                changes.push(CellChange { x: x as u16, y: y as u16, cell: new.cells[y][x].duplicate() });
            }
            x += 1;
        }
        if let Some(start) = emit_start {
            emit_time = saturating_add_duration(emit_time, elapsed_since(&start));
        }
        proof {
            assert(y * width + width == (y + 1) * width) by (nonlinear_arith);
            assert((changed_rows - 1) * width + width == changed_rows * width) by (nonlinear_arith);
        }
        y += 1;
    }

    let profile = DiffProfile {
        enabled: instrument,
        rows,
        hint_skipped_rows: 0,
        unchanged_rows,
        changed_rows,
        cells_compared,
        dirty_cells: if instrument { changes.len() } else { 0 },
        row_equality_time,
        cell_scan_time,
        emit_time,
    };
    DiffOutput { changes, profile }
}

/// A change to either half of a wide glyph, in either frame, flushes both halves.
pub proof fn lemma_wide_glyph_flushed_whole(old: &Grid, new: &Grid, y: int, x: int)
    requires
        0 <= y < new.height,
        0 <= x < new.width,
        changed(old, new, y, x),
    ensures
        dirty(old, new, y, x),
        (head_in(old, y, x) || head_in(new, y, x)) && x + 1 < new.width ==> dirty(old, new, y, x + 1),
        (cont_in(old, y, x) || cont_in(new, y, x)) && x > 0 ==> dirty(old, new, y, x - 1),
{
}

/// A cell that did not change and has no changed wide-glyph partner is not flushed.
pub proof fn lemma_quiet_cells_stay(old: &Grid, new: &Grid, y: int, x: int)
    requires
        0 <= y < new.height,
        0 <= x < new.width,
        !changed(old, new, y, x),
        x > 0 ==> !spreads_right(old, new, y, x - 1),
        x + 1 < new.width ==> !spreads_left(old, new, y, x + 1),
    ensures
        !dirty(old, new, y, x),
{
}

/// The change a flush writes for `(y, x)`: the new frame's cell there.
pub open spec fn change_at(new: &Grid, y: int, x: int) -> CellChange {
    CellChange { x: x as u16, y: y as u16, cell: new.cells@[y]@[x] }
}

/// A dirty column before `upto` has its change among the row's changes, and every
/// change of the row is a dirty column's, carrying the new cell.
proof fn lemma_row_changes(old: &Grid, new: &Grid, y: int, upto: int)
    requires
        0 <= upto <= new.width,
    ensures
        forall|x: int|
            0 <= x < upto && dirty(old, new, y, x) ==> exists|k: int|
                0 <= k < row_changes(old, new, y, upto).len() && #[trigger] row_changes(old, new, y, upto)[k]
                    == change_at(new, y, x),
        forall|k: int|
            0 <= k < row_changes(old, new, y, upto).len() ==> exists|x: int|
                0 <= x < upto && dirty(old, new, y, x) && #[trigger] row_changes(old, new, y, upto)[k]
                    == change_at(new, y, x),
    decreases upto,
{
    if upto > 0 {
        lemma_row_changes(old, new, y, upto - 1);
        let before = row_changes(old, new, y, upto - 1);
        let after = row_changes(old, new, y, upto);
        assert forall|x: int| 0 <= x < upto && dirty(old, new, y, x) implies exists|k: int|
            0 <= k < after.len() && #[trigger] after[k] == change_at(new, y, x) by {
            if x == upto - 1 {
                assert(after[after.len() - 1] == change_at(new, y, x));
            } else {
                let k = choose|k: int| 0 <= k < before.len() && #[trigger] before[k] == change_at(new, y, x);
                assert(after[k] == before[k]);
            }
        }
        assert forall|k: int| 0 <= k < after.len() implies exists|x: int|
            0 <= x < upto && dirty(old, new, y, x) && #[trigger] after[k] == change_at(new, y, x) by {
            if k < before.len() {
                assert(after[k] == before[k]);
                let x = choose|x: int| 0 <= x < upto - 1 && dirty(old, new, y, x) && #[trigger] before[k] == change_at(new, y, x);
                assert(0 <= x < upto && dirty(old, new, y, x) && after[k] == change_at(new, y, x));
            } else {
                assert(0 <= upto - 1 < upto && dirty(old, new, y, upto - 1) && after[k] == change_at(new, y, upto - 1));
            }
        }
    }
}

/// Flushing the changes takes the screen from the old frame to the new one.
///
/// Among the first `rows` rows, every cell that prints differently in the new frame
/// (and its wide-glyph partner) is among the changes with its new value, and every
/// change is the new frame's cell at a position that has to be flushed.
pub proof fn lemma_changes_cover_frame(old: &Grid, new: &Grid, rows: int)
    requires
        new.wf(),
        0 <= rows <= new.height,
    ensures
        forall|y: int, x: int|
            0 <= y < rows && 0 <= x < new.width && dirty(old, new, y, x) ==> exists|k: int|
                0 <= k < frame_changes(old, new, rows).len() && #[trigger] frame_changes(old, new, rows)[k]
                    == change_at(new, y, x),
        forall|k: int|
            0 <= k < frame_changes(old, new, rows).len() ==> exists|y: int, x: int|
                0 <= y < rows && 0 <= x < new.width && dirty(old, new, y, x)
                    && #[trigger] frame_changes(old, new, rows)[k] == change_at(new, y, x),
    decreases rows,
{
    if rows > 0 {
        let y = rows - 1;
        lemma_changes_cover_frame(old, new, y);
        lemma_row_changes(old, new, y, new.width as int);
        let before = frame_changes(old, new, y);
        let after = frame_changes(old, new, rows);
        let row = row_changes(old, new, y, new.width as int);
        if row_unchanged(old, new, y) {
            assert(after == before);
            assert forall|x: int| 0 <= x < new.width implies !dirty(old, new, y, x) by {
                assert(new.cells@[y]@.len() == new.width);
                if 0 <= x {
                    assert(!changed(old, new, y, x));
                }
                if x > 0 {
                    assert(!changed(old, new, y, x - 1));
                }
                if x + 1 < new.width {
                    assert(!changed(old, new, y, x + 1));
                }
            }
        } else {
            assert(after == before + row);
            assert forall|yy: int, x: int|
                0 <= yy < rows && 0 <= x < new.width && dirty(old, new, yy, x) implies exists|k: int|
                0 <= k < after.len() && #[trigger] after[k] == change_at(new, yy, x) by {
                if yy == y {
                    let j = choose|j: int| 0 <= j < row.len() && #[trigger] row[j] == change_at(new, y, x);
                    assert(after[before.len() + j] == row[j]);
                } else {
                    let k = choose|k: int| 0 <= k < before.len() && #[trigger] before[k] == change_at(new, yy, x);
                    assert(after[k] == before[k]);
                }
            }
            assert forall|k: int| 0 <= k < after.len() implies exists|yy: int, x: int|
                0 <= yy < rows && 0 <= x < new.width && dirty(old, new, yy, x) && #[trigger] after[k]
                    == change_at(new, yy, x) by {
                if k < before.len() {
                    assert(after[k] == before[k]);
                    let (yy, x) = choose|yy: int, x: int|
                        0 <= yy < y && 0 <= x < new.width && dirty(old, new, yy, x) && #[trigger] before[k]
                            == change_at(new, yy, x);
                    assert(0 <= yy < rows && 0 <= x < new.width && dirty(old, new, yy, x) && after[k] == change_at(new, yy, x));
                } else {
                    assert(after[k] == row[k - before.len()]);
                    let x = choose|x: int|
                        0 <= x < new.width && dirty(old, new, y, x) && #[trigger] row[k - before.len()] == change_at(new, y, x);
                    assert(0 <= y < rows && 0 <= x < new.width && dirty(old, new, y, x) && after[k] == change_at(new, y, x));
                }
            }
        }
    }
}


/// Every visible change is flushed: a cell of the new frame whose text, foreground or
/// background differs from the old frame's (or that the old frame lacks) is among the
/// changes, carrying its new value.
pub proof fn lemma_visible_changes_are_flushed(old: &Grid, new: &Grid, y: int, x: int)
    requires
        new.wf(),
        0 <= y < new.height,
        0 <= x < new.width,
        !has_cell(old, y, x) || spec_terminal_text(old.cells@[y]@[x].content) != spec_terminal_text(
            new.cells@[y]@[x].content,
        ) || old.cells@[y]@[x].fg != new.cells@[y]@[x].fg || old.cells@[y]@[x].bg != new.cells@[y]@[x].bg,
    ensures
        exists|k: int|
            0 <= k < frame_changes(old, new, new.height as int).len() && #[trigger] frame_changes(
                old,
                new,
                new.height as int,
            )[k] == change_at(new, y, x),
{
    assert(changed(old, new, y, x));
    assert(dirty(old, new, y, x));
    lemma_changes_cover_frame(old, new, new.height as int);
}

} // verus!
