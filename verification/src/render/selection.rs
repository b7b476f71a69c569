//! Where a selection highlight goes: the runs of cells a selected byte range of a
//! text covers, line by line, shifted by scroll offsets and clipped to a content rect.

use vstd::prelude::*;
use vstd::string::StringExecFns;

use crate::render::grid::{max_int, min_int, GridRect};
use crate::render::paint::{grapheme_spans, selected_cell_span, selected_span_from};
use crate::render::text::char_string;

verus! {

/// The bytes `text` takes in UTF-8.
pub open spec fn byte_len(text: Seq<char>) -> int {
    vstd::utf8::encode_utf8(text).len() as int
}

/// The pieces of `text` between newlines from position `i` on, `current` holding the
/// piece in progress: every newline ends a piece, and what follows the last one is a
/// piece too, empty or not.
pub open spec fn pieces_from(text: Seq<char>, i: int, current: Seq<char>) -> Seq<Seq<char>>
    decreases text.len() - i,
{
    if i >= text.len() {
        seq![current]
    } else if text[i] == '\n' {
        seq![current] + pieces_from(text, i + 1, Seq::empty())
    } else {
        pieces_from(text, i + 1, current.push(text[i]))
    }
}

/// The pieces of `text` between newlines, as `str::split('\n')` cuts them.
pub open spec fn newline_pieces(text: Seq<char>) -> Seq<Seq<char>> {
    pieces_from(text, 0, Seq::empty())
}

/// The pieces of `text` between newlines, as `str::split('\n')` cuts them.
pub fn split_newlines(text: &str) -> (pieces: Vec<String>)
    ensures
        pieces@.len() == newline_pieces(text@).len(),
        forall|k: int| 0 <= k < pieces@.len() ==> #[trigger] pieces@[k]@ == newline_pieces(text@)[k],
{
    let n = text.unicode_len();
    let mut pieces: Vec<String> = Vec::new();
    let mut current = String::new();
    let mut i: usize = 0;
    while i < n
        invariant
            n == text@.len(),
            i <= n,
            pieces@.map_values(|p: String| p@) + pieces_from(text@, i as int, current@) == newline_pieces(text@),
        decreases n - i,
    {
        let c = text.get_char(i);
        let ghost before = pieces@.map_values(|p: String| p@);
        let ghost progress = current@;
        if c == '\n' {
            pieces.push(current);
            assert(pieces@.map_values(|p: String| p@) == before.push(progress));
            current = String::new();
            assert(before.push(progress) + pieces_from(text@, i + 1, current@) == before + (seq![progress]
                + pieces_from(text@, i + 1, Seq::empty())));
        } else {
            let one = char_string(c);
            current.append(one.as_str());
            assert(current@ == progress.push(c));
        }
        i += 1;
    }
    let ghost before = pieces@.map_values(|p: String| p@);
    pieces.push(current);
    assert(pieces@.map_values(|p: String| p@) == before + pieces_from(text@, n as int, current@));
    proof {
        assert forall|k: int| 0 <= k < pieces@.len() implies #[trigger] pieces@[k]@ == newline_pieces(text@)[k] by {
            assert(pieces@.map_values(|p: String| p@)[k] == pieces@[k]@);
        }
    }
    pieces
}

/// One highlighted run: its first cell's column and row on screen, and its width.
pub type SelectionRun = (i32, i32, u16);

/// The run on display row `row` for the line `line` whose first byte is at
/// `line_start`: the cells of the glyphs starting in `[from, to)`, moved left by
/// `scroll_x` and clipped to the rect's columns. Nothing above the rect or outside the
/// range.
pub open spec fn selection_run(
    line: Seq<char>,
    line_start: int,
    from: int,
    to: int,
    rect: GridRect,
    scroll_x: int,
    row: int,
) -> Seq<SelectionRun> {
    let line_end = line_start + byte_len(line);
    let lf = max_int(from, line_start);
    let lt = min_int(to, line_end);
    if row < 0 || lf >= lt {
        Seq::empty()
    } else {
        match selected_span_from(grapheme_spans(line), 0, 0, line_start, lf, lt, None) {
            None => Seq::empty(),
            Some(span) => {
                let start = max_int(span.0 - scroll_x, 0);
                let end = min_int(span.1 - scroll_x, rect.width as int);
                if start < end {
                    seq![((rect.x + start) as i32, (rect.y + row) as i32, (end - start) as u16)]
                } else {
                    Seq::empty()
                }
            },
        }
    }
}

/// The runs of lines `i..` of `lines`, line `i` starting at byte `line_start` and
/// showing on row `i - scroll_y`; the first line below the rect ends them.
pub open spec fn selection_runs_from(
    lines: Seq<Seq<char>>,
    i: int,
    line_start: int,
    from: int,
    to: int,
    rect: GridRect,
    scroll_x: int,
    scroll_y: int,
) -> Seq<SelectionRun>
    decreases lines.len() - i,
{
    if i < 0 || i >= lines.len() || i - scroll_y >= rect.height {
        Seq::empty()
    } else {
        selection_run(lines[i], line_start, from, to, rect, scroll_x, i - scroll_y) + selection_runs_from(
            lines,
            i + 1,
            line_start + byte_len(lines[i]) + 1,
            from,
            to,
            rect,
            scroll_x,
            scroll_y,
        )
    }
}

/// The runs of cells a selection of display bytes `[from, to)` highlights in an input
/// showing `display` in the content rect `rect`, scrolled by `(scroll_x, scroll_y)`:
/// none for an empty rect or range.
pub open spec fn spec_input_selection_spans(
    display: Seq<char>,
    from: int,
    to: int,
    rect: GridRect,
    scroll_x: u16,
    scroll_y: u16,
) -> Seq<SelectionRun> {
    if rect.width == 0 || rect.height == 0 || from >= to {
        Seq::empty()
    } else {
        selection_runs_from(newline_pieces(display), 0, 0, from, to, rect, scroll_x as int, scroll_y as int)
    }
}

/// The runs of cells to recolor for the selected display bytes `[from, to)` of an
/// input, as `(x, y, width)` on screen.
///
/// The range is in display bytes — masked glyphs, flattened newlines — and painting
/// follows the input's own scroll offsets, clipped to its content rect.
pub fn input_selection_spans(
    display: &str,
    from: usize,
    to: usize,
    rect: GridRect,
    scroll_x: u16,
    scroll_y: u16,
) -> (spans: Vec<SelectionRun>)
    requires
        rect.x + rect.width <= i32::MAX,
        rect.y + rect.height <= i32::MAX,
    ensures
        spans@ == spec_input_selection_spans(display@, from as int, to as int, rect, scroll_x, scroll_y),
{
    let mut spans: Vec<SelectionRun> = Vec::new();
    if rect.width == 0 || rect.height == 0 || from >= to {
        return spans;
    }
    let lines = split_newlines(display);
    let ghost all = newline_pieces(display@);
    let ghost whole = selection_runs_from(all, 0, 0, from as int, to as int, rect, scroll_x as int, scroll_y as int);
    let limit: usize = scroll_y as usize + rect.height as usize;
    let mut line_start: u128 = 0;
    let mut i: usize = 0;
    while i < lines.len() && i < limit
        invariant
            lines@.len() == all.len(),
            forall|k: int| 0 <= k < lines@.len() ==> #[trigger] lines@[k]@ == all[k],
            limit == scroll_y + rect.height,
            i <= limit,
            0 < rect.width,
            rect.x + rect.width <= i32::MAX,
            rect.y + rect.height <= i32::MAX,
            line_start <= i * 0x1_0000_0000_0000_0000,
            spans@ + selection_runs_from(all, i as int, line_start as int, from as int, to as int, rect, scroll_x as int, scroll_y as int)
                == whole,
        decreases lines.len() - i,
    {
        let line = lines[i].as_str();
        let len = line.as_bytes().len();
        let line_end = line_start + len as u128;
        let lf: u128 = if (from as u128) > line_start { from as u128 } else { line_start };
        let lt: u128 = if (to as u128) < line_end { to as u128 } else { line_end };
        assert(len == byte_len(all[i as int]));
        let ghost rest = selection_runs_from(all, i + 1, line_end + 1, from as int, to as int, rect, scroll_x as int, scroll_y as int);
        assert(selection_runs_from(all, i as int, line_start as int, from as int, to as int, rect, scroll_x as int, scroll_y as int)
            == selection_run(all[i as int], line_start as int, from as int, to as int, rect, scroll_x as int, i - scroll_y) + rest);
        if i >= scroll_y as usize && lf < lt {
            let row: i64 = i as i64 - scroll_y as i64;
            match selected_cell_span(line, line_start as usize, lf as usize, lt as usize) {
                Some((col_start, col_end)) => {
                    let s0: i64 = col_start as i64 - scroll_x as i64;
                    let start: i64 = if s0 > 0 { s0 } else { 0 };
                    let e0: i64 = col_end as i64 - scroll_x as i64;
                    let end: i64 = if e0 < rect.width as i64 { e0 } else { rect.width as i64 };
                    if start < end {
                        let run: SelectionRun = (
                            (rect.x as i64 + start) as i32,
                            (rect.y as i64 + row) as i32,
                            (end - start) as u16,
                        );
                        let ghost before = spans@;
                        spans.push(run);
                        assert(spans@ + rest == before + (seq![run] + rest));
                    }
                },
                None => {},
            }
        }
        proof {
            assert(line_end + 1 <= (i + 1) * 0x1_0000_0000_0000_0000) by (nonlinear_arith)
                requires
                    line_start <= i * 0x1_0000_0000_0000_0000,
                    line_end == line_start + len,
                    len <= usize::MAX,
                    usize::MAX < 0x1_0000_0000_0000_0000,
            ;
        }
        line_start = line_end + 1;
        i += 1;
    }
    proof {
        assert(selection_runs_from(all, i as int, line_start as int, from as int, to as int, rect, scroll_x as int, scroll_y as int)
            == Seq::<SelectionRun>::empty());
        assert(spans@ == spans@ + Seq::<SelectionRun>::empty());
    }
    spans
}

} // verus!
