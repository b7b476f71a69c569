//! Painting helpers with no color math: scrollbar strip text and thumb geometry,
//! selection spans, and grapheme-boundary clamping.

use unicode_segmentation::UnicodeSegmentation;
use vstd::prelude::*;
use vstd::string::StringExecFns;

use crate::node::{input_display_content, sat_i32, saturating_add_i32, spec_input_display};
use crate::render::grid::GridRect;
use crate::render::text::{cell_width, char_string, display_width, width_of};

verus! {

/// The extended grapheme clusters of `text` with the byte offset each starts at, as
/// Unicode text segmentation defines them.
pub uninterp spec fn grapheme_spans(text: Seq<char>) -> Seq<(usize, Seq<char>)>;

/// Calls `UnicodeSegmentation::grapheme_indices(text, true)` and collects the clusters
/// with their byte offsets.
///
/// The contract names the result `grapheme_spans(text@)`, and says what every cluster
/// being a slice of `text` gives: each offset starts a character.
#[verifier::external_body]
pub fn grapheme_indices(text: &str) -> (spans: Vec<(usize, String)>)
    ensures
        spans@.len() == grapheme_spans(text@).len(),
        forall|i: int|
            0 <= i < spans@.len() ==> (#[trigger] spans@[i]).0 == grapheme_spans(text@)[i].0 && spans@[i].1@
                == grapheme_spans(text@)[i].1,
        forall|i: int|
            0 <= i < spans@.len() ==> vstd::utf8::is_char_boundary(
                vstd::utf8::encode_utf8(text@),
                (#[trigger] spans@[i]).0 as int,
            ),
{
    text.grapheme_indices(true).map(|(offset, g)| (offset, g.to_string())).collect()
}

/// A strip's text: `len` copies of `ch`, one per row (separated by newlines) for a
/// vertical bar.
pub open spec fn spec_bar_text(ch: char, len: int, vertical: bool) -> Seq<char>
    decreases len,
{
    if len <= 0 {
        Seq::empty()
    } else if len == 1 {
        seq![ch]
    } else {
        spec_bar_text(ch, len - 1, vertical) + if vertical { seq!['\n', ch] } else { seq![ch] }
    }
}

/// A strip's text: `len` copies of one character, one per row for a vertical bar.
pub fn bar_text(ch: char, len: u16, vertical: bool) -> (text: String)
    ensures
        text@ == spec_bar_text(ch, len as int, vertical),
{
    let mut text = String::new();
    let one = char_string(ch);
    let newline = char_string('\n');
    let mut index: u16 = 0;
    while index < len
        invariant
            index <= len,
            one@ == seq![ch],
            newline@ == seq!['\n'],
            text@ == spec_bar_text(ch, index as int, vertical),
        decreases len - index,
    {
        if vertical && index > 0 {
            text.append(newline.as_str());
        }
        text.append(one.as_str());
        proof {
            if index == 0 {
                assert(text@ =~= spec_bar_text(ch, 1, vertical));
            } else if vertical {
                assert(text@ =~= spec_bar_text(ch, index as int, vertical) + seq!['\n', ch]);
            } else {
                assert(text@ =~= spec_bar_text(ch, index as int, vertical) + seq![ch]);
            }
        }
        index += 1;
    }
    text
}

/// The rectangle of a scrollbar's thumb inside its strip: `thumb_len` cells starting
/// `thumb_start` cells along the strip's axis.
pub fn thumb_rect(strip: GridRect, vertical: bool, thumb_start: u16, thumb_len: u16) -> (thumb: GridRect)
    ensures
        vertical ==> thumb == (GridRect {
            x: strip.x,
            y: sat_i32(strip.y + thumb_start) as i32,
            width: 1,
            height: thumb_len,
        }),
        !vertical ==> thumb == (GridRect {
            x: sat_i32(strip.x + thumb_start) as i32,
            y: strip.y,
            width: thumb_len,
            height: 1,
        }),
{
    if vertical {
        GridRect { x: strip.x, y: saturating_add_i32(strip.y, thumb_start as i32), width: 1, height: thumb_len }
    } else {
        GridRect { x: saturating_add_i32(strip.x, thumb_start as i32), y: strip.y, width: thumb_len, height: 1 }
    }
}

/// The cells the clusters `spans[i..]` cover, from column `col`, that start at a byte in
/// `[from, to)` (counting from `line_start`), merged into one span; `acc` is the span
/// found so far. Zero-width clusters take no cell.
pub open spec fn selected_span_from(
    spans: Seq<(usize, Seq<char>)>,
    i: int,
    col: int,
    line_start: int,
    from: int,
    to: int,
    acc: Option<(i32, i32)>,
) -> Option<(i32, i32)>
    decreases spans.len() - i,
{
    if i < 0 || i >= spans.len() {
        acc
    } else {
        let w = cell_width(display_width(spans[i].1) as int);
        if w == 0 {
            selected_span_from(spans, i + 1, col, line_start, from, to, acc)
        } else {
            let absolute = line_start + spans[i].0;
            let next = sat_i32(col + w);
            let merged = if from <= absolute < to {
                Some(
                    (
                        match acc {
                            Some(a) => a.0,
                            None => col as i32,
                        },
                        next as i32,
                    ),
                )
            } else {
                acc
            };
            selected_span_from(spans, i + 1, next, line_start, from, to, merged)
        }
    }
}

/// The cell columns a selected byte range `[from, to)` covers on one line whose first
/// byte is at `line_start`, relative to the line's first cell. `None` when the range
/// covers no visible glyph.
pub fn selected_cell_span(line: &str, line_start: usize, from: usize, to: usize) -> (span: Option<(i32, i32)>)
    ensures
        span == selected_span_from(grapheme_spans(line@), 0, 0, line_start as int, from as int, to as int, None),
{
    let spans = grapheme_indices(line);
    let ghost full = selected_span_from(grapheme_spans(line@), 0, 0, line_start as int, from as int, to as int, None);
    let mut col: i32 = 0;
    let mut span: Option<(i32, i32)> = None;
    let mut i: usize = 0;
    while i < spans.len()
        invariant
            i <= spans@.len(),
            spans@.len() == grapheme_spans(line@).len(),
            forall|k: int|
                0 <= k < spans@.len() ==> (#[trigger] spans@[k]).0 == grapheme_spans(line@)[k].0 && spans@[k].1@
                    == grapheme_spans(line@)[k].1,
            full == selected_span_from(grapheme_spans(line@), 0, 0, line_start as int, from as int, to as int, None),
            selected_span_from(grapheme_spans(line@), i as int, col as int, line_start as int, from as int, to as int, span)
                == full,
        decreases spans.len() - i,
    {
        let (offset, grapheme) = (spans[i].0, &spans[i].1);
        let raw = width_of(grapheme.as_str());
        let width: i32 = if raw >= 2 { 2 } else { raw as i32 };
        if width == 0 {
            i += 1;
            continue;
        }
        let absolute: u128 = line_start as u128 + offset as u128;
        let next = saturating_add_i32(col, width);
        if absolute >= from as u128 && absolute < to as u128 {
            let start = match span {
                Some((start, _)) => start,
                None => col,
            };
            span = Some((start, next));
        }
        col = next;
        i += 1;
    }
    span
}

/// The largest cluster boundary of `spans` that is at most `offset`, or zero.
pub open spec fn last_boundary(spans: Seq<(usize, Seq<char>)>, offset: int, i: int, best: int) -> int
    decreases spans.len() - i,
{
    if i < 0 || i >= spans.len() || spans[i].0 > offset {
        best
    } else {
        last_boundary(spans, offset, i + 1, spans[i].0 as int)
    }
}

/// `offset` moved back onto the start of the grapheme cluster it falls in; an offset at
/// or past the end stays at the end.
pub fn clamp_to_grapheme_boundary(content: &str, offset: usize) -> (clamped: usize)
    ensures
        offset >= content.len() ==> clamped == content.len(),
        offset < content.len() ==> clamped == last_boundary(grapheme_spans(content@), offset as int, 0, 0),
        vstd::utf8::is_char_boundary(vstd::utf8::encode_utf8(content@), clamped as int),
{
    proof {
        vstd::utf8::encode_utf8_valid_utf8(content@);
        vstd::utf8::is_char_boundary_start_end_of_seq(vstd::utf8::encode_utf8(content@));
    }
    let len = content.as_bytes().len();
    if offset >= len {
        return len;
    }
    let spans = grapheme_indices(content);
    let mut best: usize = 0;
    let mut i: usize = 0;
    while i < spans.len() && spans[i].0 <= offset
        invariant
            vstd::utf8::is_char_boundary(vstd::utf8::encode_utf8(content@), best as int),
            forall|k: int|
                0 <= k < spans@.len() ==> vstd::utf8::is_char_boundary(
                    vstd::utf8::encode_utf8(content@),
                    (#[trigger] spans@[k]).0 as int,
                ),
            i <= spans@.len(),
            spans@.len() == grapheme_spans(content@).len(),
            forall|k: int| 0 <= k < spans@.len() ==> (#[trigger] spans@[k]).0 == grapheme_spans(content@)[k].0,
            last_boundary(grapheme_spans(content@), offset as int, i as int, best as int) == last_boundary(
                grapheme_spans(content@),
                offset as int,
                0,
                0,
            ),
        decreases spans.len() - i,
    {
        best = spans[i].0;
        i += 1;
    }
    best
}

/// Where an input's cursor sits in its display content: column and row, in cells.
#[derive(Debug, Clone, Copy, PartialEq, Eq, Structural)]
pub struct CursorPosition {
    /// Column: the display width of the text between the last newline and the cursor.
    pub x: i32,
    /// Row: the newlines before the cursor.
    pub y: i32,
}

/// How many newlines `text` holds.
pub open spec fn count_newlines(text: Seq<char>) -> nat
    decreases text.len(),
{
    if text.len() == 0 {
        0
    } else {
        count_newlines(text.drop_last()) + if text.last() == '\n' {
            1nat
        } else {
            0nat
        }
    }
}

/// The text after the last newline of `text` (all of it if it has none).
pub open spec fn after_last_newline(text: Seq<char>) -> Seq<char>
    decreases text.len(),
{
    if text.len() == 0 {
        Seq::empty()
    } else if text.last() == '\n' {
        Seq::empty()
    } else {
        after_last_newline(text.drop_last()).push(text.last())
    }
}

/// Where the cursor at byte offset `cursor` of `value` shows: the display content of
/// the value up to the cursor decides the row by its newlines and the column by the
/// width of its last line.
pub open spec fn spec_cursor_position(value: Seq<char>, cursor: usize, multiline: bool, mask: Option<char>) -> CursorPosition {
    let prefix = vstd::utf8::decode_utf8(vstd::utf8::encode_utf8(value).subrange(0, cursor as int));
    let shown = spec_input_display(prefix, multiline, mask);
    CursorPosition {
        x: display_width(after_last_newline(shown)) as i32,
        y: count_newlines(shown) as usize as i32,
    }
}

/// Where an input's cursor shows, relative to the start of its display content.
pub fn input_cursor_position(value: &str, cursor: usize, multiline: bool, mask: Option<char>) -> (position: CursorPosition)
    requires
        vstd::utf8::is_char_boundary(vstd::utf8::encode_utf8(value@), cursor as int),
    ensures
        position == spec_cursor_position(value@, cursor, multiline, mask),
{
    let (before, _) = value.split_at(cursor);
    proof {
        vstd::utf8::encode_utf8_decode_utf8(before@);
    }
    let shown = input_display_content(before, multiline, mask);
    let n = shown.as_str().unicode_len();
    let newline = char_string('\n');
    let mut newlines: usize = 0;
    let mut segment = String::new();
    let mut i: usize = 0;
    while i < n
        invariant
            n == shown@.len(),
            i <= n,
            newlines == count_newlines(shown@.take(i as int)),
            newlines <= i,
            segment@ == after_last_newline(shown@.take(i as int)),
        decreases n - i,
    {
        let c = shown.as_str().get_char(i);
        assert(shown@.take(i + 1).drop_last() == shown@.take(i as int));
        if c == '\n' {
            newlines += 1;
            segment = String::new();
        } else {
            let one = char_string(c);
            segment.append(one.as_str());
        }
        i += 1;
    }
    assert(shown@.take(n as int) == shown@);
    let width = width_of(segment.as_str());
    CursorPosition { x: width as i32, y: newlines as i32 }
}

} // verus!
