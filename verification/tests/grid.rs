use tuidom::render::grid::{
    border_cell_glyph, half_block_cell_glyph, Cell, CellAttrs, CellContent, ClipRect, Grid, TouchedSpan,
};
use tuidom::render::text::{graphemes, layout_line, place_glyphs, width_of, GlyphSlot};
use tuidom::style::color::Rgb;
use tuidom::style::{Border, BorderCharset, Sides};

fn rgb(r: u8, g: u8, b: u8) -> Rgb {
    Rgb { r, g, b, a: 255 }
}

fn row_text(grid: &Grid, row: usize) -> String {
    grid.cells[row]
        .iter()
        .filter(|cell| !cell.is_wide_continuation())
        .map(|cell| cell.terminal_text().to_string())
        .collect()
}

fn write_line(grid: &mut Grid, x: i32, row: usize, text: &str, fg: Option<Rgb>) -> usize {
    let (left, _, right, _) = grid.writable_bounds();
    let glyphs = layout_line(x, left, right, text);
    for glyph in &glyphs {
        grid.write_glyph(row, glyph.col as usize, glyph.text.clone(), glyph.width, fg, CellAttrs::default());
        grid.touch_span(row, glyph.col as usize, glyph.col as usize + glyph.width as usize);
    }
    glyphs.len()
}

#[test]
fn new_grid_is_blank_and_untouched() {
    let grid = Grid::new(3, 2);
    assert_eq!(grid.width, 3);
    assert_eq!(grid.height, 2);
    assert_eq!(grid.cells, vec![vec![Cell::empty(); 3]; 2]);
    assert_eq!(grid.touched_spans(), &[None, None]);
    assert_eq!(grid.clip, ClipRect::unbounded());
    assert_eq!(grid.default_bg, rgb(0, 0, 0));
}

#[test]
fn cell_text_and_width() {
    assert_eq!(Cell::empty().terminal_text(), " ");
    assert_eq!(Cell::empty().content_width(), 1);
    let wide = Cell {
        content: CellContent::Glyph { text: "界".to_string(), width: 2 },
        fg: None,
        bg: None,
        attrs: CellAttrs::default(),
    };
    assert_eq!(wide.terminal_text(), "界");
    assert_eq!(wide.content_width(), 2);
    let cont = Cell { content: CellContent::WideContinuation, ..Cell::empty() };
    assert_eq!(cont.terminal_text(), "");
    assert!(cont.is_wide_continuation());
    assert_eq!(wide.duplicate(), wide);
    assert_eq!(Cell::empty_with_bg(rgb(1, 2, 3)).bg, Some(rgb(1, 2, 3)));
}

#[test]
fn clip_rect_operations() {
    let clip = ClipRect::unbounded().bound_x(2, 8).bound_y(1, 3);
    assert_eq!(clip, ClipRect { left: 2, top: 1, right: 8, bottom: 3 });
    assert!(clip.contains(2, 1));
    assert!(!clip.contains(8, 1));
    assert!(clip.excludes(0, 0, 2, 5));
    assert!(!clip.excludes(0, 0, 3, 5));
    assert!(!clip.is_empty());
    assert!(clip.bound_x(9, 10).is_empty());
    assert!(ClipRect::unbounded().covers_grid(80, 24));
    assert!(!clip.covers_grid(80, 24));
}

#[test]
fn clip_rect_clips_to_grid_and_clip() {
    let mut grid = Grid::new(4, 3);
    assert_eq!(grid.clip_rect(-1, -1, 3, 2), Some((0, 0, 2, 1)));
    assert_eq!(grid.clip_rect(5, 0, 1, 1), None);
    assert_eq!(grid.clip_rect(1, 1, u16::MAX, u16::MAX), Some((1, 1, 4, 3)));
    assert_eq!(grid.clip_rect(0, 0, 0, 3), None);
    grid.set_clip(ClipRect { left: 1, top: 0, right: 3, bottom: 2 });
    assert_eq!(grid.writable_bounds(), (1, 0, 3, 2));
    assert_eq!(grid.clip_rect(0, 0, 4, 3), Some((1, 0, 3, 2)));
    grid.clear_clip();
    assert_eq!(grid.writable_bounds(), (0, 0, 4, 3));
}

#[test]
fn touch_span_clips_and_merges() {
    let mut grid = Grid::new(5, 2);
    grid.touch_span(0, 1, 3);
    grid.touch_span(0, 4, 9);
    grid.touch_span(1, 3, 3);
    grid.touch_span(7, 0, 2);
    assert_eq!(grid.touched_spans()[0], Some(TouchedSpan { start: 1, end: 5 }));
    assert_eq!(grid.touched_spans()[1], None);
    grid.touch_rect(0, 2, 0, 9);
    assert_eq!(grid.touched_spans()[0], Some(TouchedSpan { start: 0, end: 5 }));
    assert_eq!(grid.touched_spans()[1], Some(TouchedSpan { start: 0, end: 2 }));
}

#[test]
fn clear_resets_cells_and_spans() {
    let mut grid = Grid::new(2, 2);
    write_line(&mut grid, 0, 0, "ab", Some(rgb(9, 9, 9)));
    grid.clear_with_bg(rgb(1, 1, 1));
    assert_eq!(grid.cells, vec![vec![Cell::empty_with_bg(rgb(1, 1, 1)); 2]; 2]);
    assert_eq!(grid.touched_spans(), &[None, None]);
    grid.clear();
    assert_eq!(grid.cells, vec![vec![Cell::empty(); 2]; 2]);
    grid.set_default_background(rgb(5, 5, 5));
    assert_eq!(grid.default_bg, rgb(5, 5, 5));
}

#[test]
fn opaque_fill_counts_and_clears_cut_wide_glyphs() {
    let blue = rgb(0, 0, 255);
    let mut grid = Grid::new(3, 1);
    write_line(&mut grid, 0, 0, "界", Some(rgb(255, 255, 255)));
    let filled = grid.fill_opaque_empty_bg_rect(1, 0, 2, 1, blue);
    assert_eq!(filled, 1);
    assert_eq!(row_text(&grid, 0), "   ");
    assert!(matches!(grid.cells[0][0].content, CellContent::Empty));
    assert_eq!(grid.cells[0][1].bg, Some(blue));
    assert_eq!(grid.cells[0][0].bg, None);
    assert_eq!(grid.fill_opaque_empty_bg_rect(0, 0, 3, 1, blue), 3);
    assert_eq!(grid.cells, vec![vec![Cell::empty_with_bg(blue); 3]]);
}

#[test]
fn wide_glyph_occupies_two_cells() {
    let mut grid = Grid::new(4, 1);
    assert_eq!(write_line(&mut grid, 0, 0, "a界b", Some(rgb(255, 255, 255))), 3);
    assert_eq!(row_text(&grid, 0), "a界b");
    assert!(matches!(grid.cells[0][1].content, CellContent::Glyph { width: 2, .. }));
    assert!(matches!(grid.cells[0][2].content, CellContent::WideContinuation));
    assert_eq!(grid.touched_spans()[0], Some(TouchedSpan { start: 0, end: 4 }));
}

#[test]
fn overwriting_wide_head_clears_continuation() {
    let mut grid = Grid::new(3, 1);
    write_line(&mut grid, 0, 0, "界", Some(rgb(255, 255, 255)));
    write_line(&mut grid, 0, 0, "a", Some(rgb(255, 255, 255)));
    assert_eq!(row_text(&grid, 0), "a  ");
    assert!(matches!(grid.cells[0][1].content, CellContent::Empty));
}

#[test]
fn overwriting_wide_continuation_clears_head() {
    let mut grid = Grid::new(3, 1);
    write_line(&mut grid, 0, 0, "界", Some(rgb(255, 255, 255)));
    write_line(&mut grid, 1, 0, "a", Some(rgb(255, 255, 255)));
    assert_eq!(row_text(&grid, 0), " a ");
    assert!(matches!(grid.cells[0][0].content, CellContent::Empty));
}

#[test]
fn text_clear_removes_both_halves_and_keeps_background() {
    let red = rgb(255, 0, 0);
    let mut grid = Grid::new(3, 1);
    grid.fill_opaque_empty_bg_rect(0, 0, 3, 1, red);
    write_line(&mut grid, 0, 0, "界", Some(rgb(1, 1, 1)));
    grid.clear_text_span_at(0, 1);
    assert_eq!(grid.cells, vec![vec![Cell::empty_with_bg(red); 3]]);
    grid.clear_text_span_at(5, 5);
    assert_eq!(grid.cells, vec![vec![Cell::empty_with_bg(red); 3]]);
}

#[test]
fn recolor_and_replace_cells() {
    let mut grid = Grid::new(2, 1);
    write_line(&mut grid, 0, 0, "界", Some(rgb(1, 1, 1)));
    grid.set_colors(0, 0, Some(rgb(2, 2, 2)), Some(rgb(3, 3, 3)));
    assert_eq!(grid.cells[0][0].fg, Some(rgb(2, 2, 2)));
    assert_eq!(grid.cells[0][0].bg, Some(rgb(3, 3, 3)));
    assert!(matches!(grid.cells[0][0].content, CellContent::Glyph { width: 2, .. }));
    grid.replace_cell(0, 1, Cell::empty_with_bg(rgb(4, 4, 4)));
    assert!(matches!(grid.cells[0][0].content, CellContent::Empty));
    assert_eq!(grid.cells[0][0].bg, Some(rgb(3, 3, 3)));
    assert_eq!(grid.cells[0][1], Cell::empty_with_bg(rgb(4, 4, 4)));
}

#[test]
fn layout_clips_negative_x() {
    let glyphs = layout_line(-2, 0, 3, "abcd");
    let placed: Vec<(String, i64, u8)> = glyphs.into_iter().map(|g| (g.text, g.col, g.width)).collect();
    assert_eq!(placed, vec![("c".to_string(), 0, 1), ("d".to_string(), 1, 1)]);
}

#[test]
fn layout_skips_partial_wide_glyph_at_left_edge() {
    let glyphs = layout_line(-1, 0, 3, "界ab");
    let cols: Vec<(String, i64)> = glyphs.into_iter().map(|g| (g.text, g.col)).collect();
    assert_eq!(cols, vec![("a".to_string(), 1), ("b".to_string(), 2)]);
}

#[test]
fn layout_stops_before_a_wide_glyph_crossing_the_right_edge() {
    let glyphs = layout_line(0, 0, 2, "a界");
    assert_eq!(glyphs.len(), 1);
    assert_eq!(glyphs[0].text, "a");
}

#[test]
fn combining_grapheme_occupies_one_cell() {
    let glyphs = layout_line(0, 0, 2, "e\u{301}x");
    assert_eq!(glyphs.len(), 2);
    assert_eq!(glyphs[0].text, "e\u{301}");
    assert_eq!((glyphs[0].col, glyphs[0].width), (0, 1));
    assert_eq!((glyphs[1].col, glyphs[1].width), (1, 1));
}

#[test]
fn unicode_wrappers_split_and_measure() {
    assert_eq!(graphemes("e\u{301}界"), vec!["e\u{301}".to_string(), "界".to_string()]);
    assert_eq!(width_of("界"), 2);
    assert_eq!(width_of("a"), 1);
    assert_eq!(width_of("\u{301}"), 0);
}

#[test]
fn placement_skips_zero_width_and_caps_width() {
    let slots = place_glyphs(0, 0, 10, &vec![1, 0, 3, 1]);
    assert_eq!(
        slots,
        vec![
            GlyphSlot { index: 0, col: 0, width: 1 },
            GlyphSlot { index: 2, col: 1, width: 2 },
            GlyphSlot { index: 3, col: 3, width: 1 },
        ]
    );
    assert!(place_glyphs(0, 5, 5, &vec![1, 1]).is_empty());
}

#[test]
fn border_glyphs_pick_corners_only_when_both_sides_draw() {
    let border = Border::new(BorderCharset::single());
    assert_eq!(border_cell_glyph(border, 0, 0, 0, 3, 0, 2), Some('┌'));
    assert_eq!(border_cell_glyph(border, 0, 3, 0, 3, 0, 2), Some('┐'));
    assert_eq!(border_cell_glyph(border, 2, 0, 0, 3, 0, 2), Some('└'));
    assert_eq!(border_cell_glyph(border, 2, 3, 0, 3, 0, 2), Some('┘'));
    assert_eq!(border_cell_glyph(border, 0, 1, 0, 3, 0, 2), Some('─'));
    assert_eq!(border_cell_glyph(border, 1, 0, 0, 3, 0, 2), Some('│'));
    assert_eq!(border_cell_glyph(border, 1, 1, 0, 3, 0, 2), None);
    let top_only = border.with_sides(Sides::new(true, false, false, false));
    assert_eq!(border_cell_glyph(top_only, 0, 0, 0, 3, 0, 2), Some('─'));
    assert_eq!(border_cell_glyph(top_only, 1, 0, 0, 3, 0, 2), None);
}

#[test]
fn half_block_glyphs_face_into_the_box() {
    let all = Sides::all();
    assert_eq!(half_block_cell_glyph(all, 0, 0, 0, 3, 0, 2), Some('▗'));
    assert_eq!(half_block_cell_glyph(all, 0, 3, 0, 3, 0, 2), Some('▖'));
    assert_eq!(half_block_cell_glyph(all, 2, 0, 0, 3, 0, 2), Some('▝'));
    assert_eq!(half_block_cell_glyph(all, 2, 3, 0, 3, 0, 2), Some('▘'));
    assert_eq!(half_block_cell_glyph(all, 0, 1, 0, 3, 0, 2), Some('▄'));
    assert_eq!(half_block_cell_glyph(all, 2, 1, 0, 3, 0, 2), Some('▀'));
    assert_eq!(half_block_cell_glyph(all, 1, 0, 0, 3, 0, 2), Some('▐'));
    assert_eq!(half_block_cell_glyph(all, 1, 3, 0, 3, 0, 2), Some('▌'));
    assert_eq!(half_block_cell_glyph(all, 1, 1, 0, 3, 0, 2), None);
    // One row tall: the top side wins over the bottom.
    assert_eq!(half_block_cell_glyph(all, 0, 1, 0, 3, 0, 0), Some('▄'));
}

#[test]
fn block_cursor_swaps_cell_colors() {
    let mut grid = Grid::new(4, 2);
    grid.set_colors(1, 2, Some(rgb(1, 2, 3)), Some(rgb(9, 9, 9)));
    grid.invert_cursor_cell(2, 1, rgb(200, 200, 200));
    assert_eq!(grid.cells[1][2].fg, Some(rgb(9, 9, 9)));
    assert_eq!(grid.cells[1][2].bg, Some(rgb(1, 2, 3)));
    assert_eq!(grid.touched_spans()[1], Some(TouchedSpan { start: 2, end: 3 }));
    // A cell with no foreground takes the cursor color as background.
    grid.invert_cursor_cell(0, 0, rgb(200, 200, 200));
    assert_eq!(grid.cells[0][0].fg, None);
    assert_eq!(grid.cells[0][0].bg, Some(rgb(200, 200, 200)));
    // Off the grid nothing changes.
    grid.invert_cursor_cell(-1, 0, rgb(1, 1, 1));
    grid.invert_cursor_cell(4, 0, rgb(1, 1, 1));
    assert_eq!(grid.touched_spans()[0], Some(TouchedSpan { start: 0, end: 1 }));
}

#[test]
fn an_empty_clip_excludes_every_rect() {
    let empty = ClipRect { left: 5, top: 0, right: 3, bottom: 1 };
    assert!(empty.excludes(0, 0, 10, 1));
    let flat = ClipRect { left: 0, top: 2, right: 10, bottom: 2 };
    assert!(flat.excludes(0, 0, 10, 10));
    assert!(!ClipRect::unbounded().excludes(0, 0, 1, 1));
}
