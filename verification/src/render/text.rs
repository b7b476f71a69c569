//! Laying a line of text out into terminal cells.
//!
//! A line is cut into grapheme clusters, each cluster takes the display width the
//! Unicode tables give it (capped at two cells), and the clusters are placed left to
//! right from a starting column. Clusters that do not fit whole inside the clip are
//! dropped: one straddling the left edge is skipped, and the first one crossing the
//! right edge ends the line.

use unicode_segmentation::UnicodeSegmentation;
use unicode_width::UnicodeWidthStr;
use vstd::prelude::*;

use super::grid::{max_int, min_int};

verus! {

/// The extended grapheme clusters of `text`, in order, as Unicode text segmentation
/// defines them.
pub uninterp spec fn grapheme_clusters(text: Seq<char>) -> Seq<Seq<char>>;

/// The display width of `text` in terminal columns, as the Unicode width tables give
/// it (ambiguous characters count as one column).
pub uninterp spec fn display_width(text: Seq<char>) -> usize;

/// Calls `UnicodeSegmentation::graphemes(text, true)` and collects the clusters.
///
/// The contract names the clusters `grapheme_clusters(text@)`.
#[verifier::external_body]
pub fn graphemes(text: &str) -> (clusters: Vec<String>)
    ensures
        clusters@.len() == grapheme_clusters(text@).len(),
        forall|i: int| 0 <= i < clusters@.len() ==> #[trigger] clusters@[i]@ == grapheme_clusters(text@)[i],
{
    text.graphemes(true).map(|g| g.to_string()).collect()
}

/// Calls `UnicodeWidthStr::width(text)`.
///
/// The contract names the width `display_width(text@)`.
#[verifier::external_body]
pub fn width_of(text: &str) -> (width: usize)
    ensures
        width == display_width(text@),
{
    UnicodeWidthStr::width(text)
}

/// Calls `char::to_string`: the one-character string holding `c`.
#[verifier::external_body]
pub(crate) fn char_string(c: char) -> (text: String)
    ensures
        text@ == seq![c],
{
    c.to_string()
}

/// The cells a cluster of display width `width` takes: the width, capped at two.
pub open spec fn cell_width(width: int) -> int {
    min_int(width, 2)
}

/// Where one cluster of a line lands.
#[derive(Debug, Clone, Copy, PartialEq, Eq, Structural)]
pub struct GlyphSlot {
    /// Index of the cluster in the line.
    pub index: usize,
    /// Column of its first cell.
    pub col: i64,
    /// Cells it covers: one or two.
    pub width: u8,
}

/// The slots of clusters `i..` of a line whose cluster widths are `widths`, placed from
/// column `col` inside the clip `[left, right)`.
///
/// A zero-width cluster takes no cell. A cluster starting left of the clip is skipped
/// (its cells still advance the column); the first cluster ending past `right` ends the
/// line.
pub open spec fn slots_from(widths: Seq<usize>, i: int, col: int, left: int, right: int) -> Seq<GlyphSlot>
    decreases widths.len() - i,
{
    if i < 0 || i >= widths.len() {
        Seq::empty()
    } else {
        let w = cell_width(widths[i] as int);
        let next = col + w;
        if w == 0 {
            slots_from(widths, i + 1, col, left, right)
        } else if next <= left || col < left {
            slots_from(widths, i + 1, next, left, right)
        } else if next > right {
            Seq::empty()
        } else {
            seq![GlyphSlot { index: i as usize, col: col as i64, width: w as u8 }] + slots_from(
                widths,
                i + 1,
                next,
                left,
                right,
            )
        }
    }
}

/// Every slot of `slots_from` lies inside the clip and after `col`, in increasing
/// columns with no overlap.
pub proof fn lemma_slots_inside(widths: Seq<usize>, i: int, col: int, left: int, right: int)
    requires
        0 <= i,
        i64::MIN <= left,
        right <= i64::MAX,
        widths.len() <= usize::MAX,
    ensures
        forall|k: int|
            0 <= k < slots_from(widths, i, col, left, right).len() ==> {
                let slot = #[trigger] slots_from(widths, i, col, left, right)[k];
                &&& left <= slot.col
                &&& col <= slot.col
                &&& slot.width == 1 || slot.width == 2
                &&& slot.col + slot.width <= right
                &&& i <= slot.index < widths.len()
            },
        forall|k: int|
            0 <= k < slots_from(widths, i, col, left, right).len() - 1 ==> #[trigger] slots_from(widths, i, col, left, right)[k].col + slots_from(widths, i, col, left, right)[k].width
                <= slots_from(widths, i, col, left, right)[k + 1].col,
    decreases widths.len() - i,
{
    if i < widths.len() {
        let w = cell_width(widths[i] as int);
        let next = col + w;
        lemma_slots_inside(widths, i + 1, if w == 0 { col } else { next }, left, right);
        let rest = slots_from(widths, i + 1, next, left, right);
        let all = slots_from(widths, i, col, left, right);
        if w == 0 {
            assert(all == slots_from(widths, i + 1, col, left, right));
        } else if next <= left || col < left {
            assert(all == rest);
        } else if next <= right {
            assert(all == seq![GlyphSlot { index: i as usize, col: col as i64, width: w as u8 }] + rest);
            assert forall|k: int| 0 <= k < all.len() implies {
                let slot = #[trigger] all[k];
                &&& left <= slot.col
                &&& col <= slot.col
                &&& slot.width == 1 || slot.width == 2
                &&& slot.col + slot.width <= right
                &&& i <= slot.index < widths.len()
            } by {
                if k > 0 {
                    assert(all[k] == rest[k - 1]);
                }
            }
            assert forall|k: int| 0 <= k < all.len() - 1 implies #[trigger] all[k].col + all[k].width <= all[k + 1].col by {
                if k > 0 {
                    assert(all[k] == rest[k - 1]);
                    assert(all[k + 1] == rest[k]);
                }
            }
        }
    }
}

/// Place the clusters of a line whose cluster widths are `widths`, from column `x`,
/// inside the clip `[clip_left, clip_right)`.
pub fn place_glyphs(x: i32, clip_left: i64, clip_right: i64, widths: &Vec<usize>) -> (slots: Vec<GlyphSlot>)
    ensures
        slots@ == slots_from(widths@, 0, x as int, clip_left as int, clip_right as int),
{
    let ghost full = slots_from(widths@, 0, x as int, clip_left as int, clip_right as int);
    let mut slots: Vec<GlyphSlot> = Vec::new();
    let mut col: i128 = x as i128;
    let mut i: usize = 0;
    while i < widths.len()
        invariant
            full == slots_from(widths@, 0, x as int, clip_left as int, clip_right as int),
            i <= widths@.len(),
            i32::MIN <= col <= max_int(max_int(x as int, clip_left as int + 1), clip_right as int),
            slots@ + slots_from(widths@, i as int, col as int, clip_left as int, clip_right as int) == full,
        decreases widths.len() - i,
    {
        let raw = widths[i];
        let w: i128 = if raw >= 2 { 2 } else { raw as i128 };
        let next = col + w;
        if w == 0 {
            i += 1;
            continue;
        }
        if next <= clip_left as i128 || col < clip_left as i128 {
            col = next;
            i += 1;
            continue;
        }
        if next > clip_right as i128 {
            assert(slots_from(widths@, i as int, col as int, clip_left as int, clip_right as int) == Seq::<GlyphSlot>::empty());
            assert(slots@ + slots_from(widths@, i as int, col as int, clip_left as int, clip_right as int) =~= slots@);
            return slots;
        }
        let slot = GlyphSlot { index: i, col: col as i64, width: w as u8 };
        assert(slots_from(widths@, i as int, col as int, clip_left as int, clip_right as int) == seq![slot]
            + slots_from(widths@, i + 1, next as int, clip_left as int, clip_right as int));
        slots.push(slot);
        assert(slots@ + slots_from(widths@, i + 1, next as int, clip_left as int, clip_right as int) =~= full);
        col = next;
        i += 1;
    }
    assert(slots@ =~= full);
    slots
}

/// The cell width of each cluster: its display width.
pub open spec fn cluster_widths(text: Seq<char>) -> Seq<usize> {
    grapheme_clusters(text).map_values(|g: Seq<char>| display_width(g))
}

/// One cluster of a line placed in its slot.
#[derive(Debug, Clone, PartialEq, Eq)]
pub struct PlacedGlyph {
    /// The cluster's text.
    pub text: String,
    /// Column of its first cell.
    pub col: i64,
    /// Cells it covers: one or two.
    pub width: u8,
}

/// Lay one line of text out from column `x` inside the clip `[clip_left, clip_right)`:
/// the clusters that fit whole, each with its column and width.
pub fn layout_line(x: i32, clip_left: i64, clip_right: i64, text: &str) -> (glyphs: Vec<PlacedGlyph>)
    ensures
        ({
            let slots = slots_from(cluster_widths(text@), 0, x as int, clip_left as int, clip_right as int);
            &&& glyphs@.len() == slots.len()
            &&& forall|k: int|
                0 <= k < glyphs@.len() ==> {
                    &&& (#[trigger] glyphs@[k]).text@ == grapheme_clusters(text@)[slots[k].index as int]
                    &&& glyphs@[k].col == slots[k].col
                    &&& glyphs@[k].width == slots[k].width
                }
        }),
{
    let clusters = graphemes(text);
    let mut widths: Vec<usize> = Vec::new();
    let mut i: usize = 0;
    while i < clusters.len()
        invariant
            i <= clusters@.len(),
            clusters@.len() == grapheme_clusters(text@).len(),
            forall|j: int| 0 <= j < clusters@.len() ==> #[trigger] clusters@[j]@ == grapheme_clusters(text@)[j],
            widths@.len() == i,
            forall|j: int| 0 <= j < i ==> #[trigger] widths@[j] == display_width(grapheme_clusters(text@)[j]),
        decreases clusters.len() - i,
    {
        widths.push(width_of(clusters[i].as_str()));
        i += 1;
    }
    assert(widths@ =~= cluster_widths(text@));
    let slots = place_glyphs(x, clip_left, clip_right, &widths);
    proof {
        lemma_slots_inside(widths@, 0, x as int, clip_left as int, clip_right as int);
    }
    let mut glyphs: Vec<PlacedGlyph> = Vec::new();
    let mut k: usize = 0;
    while k < slots.len()
        invariant
            k <= slots@.len(),
            slots@ == slots_from(cluster_widths(text@), 0, x as int, clip_left as int, clip_right as int),
            clusters@.len() == grapheme_clusters(text@).len(),
            forall|j: int| 0 <= j < clusters@.len() ==> #[trigger] clusters@[j]@ == grapheme_clusters(text@)[j],
            forall|j: int| 0 <= j < slots@.len() ==> (#[trigger] slots@[j]).index < clusters@.len(),
            glyphs@.len() == k,
            forall|j: int|
                0 <= j < k ==> {
                    &&& (#[trigger] glyphs@[j]).text@ == grapheme_clusters(text@)[slots@[j].index as int]
                    &&& glyphs@[j].col == slots@[j].col
                    &&& glyphs@[j].width == slots@[j].width
                },
        decreases slots.len() - k,
    {
        let slot = slots[k];
        let text_of = clusters[slot.index].clone();
        glyphs.push(PlacedGlyph { text: text_of, col: slot.col, width: slot.width });
        k += 1;
    }
    glyphs
}

} // verus!
