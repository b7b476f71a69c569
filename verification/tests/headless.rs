use tuidom::headless::{cell_at, grid_cell, screen_region, ScreenCell, ScreenColor, ScreenCursor};
use tuidom::render::grid::{Cell, CellAttrs, Grid};
use tuidom::render::RenderCursor;
use tuidom::style::color::Rgb;
use tuidom::style::CursorShape;

#[test]
fn screen_color_from_rgb_is_opaque() {
    assert_eq!(ScreenColor::from_rgb(1, 2, 3), ScreenColor { r: 1, g: 2, b: 3, a: 255 });
    assert_eq!(
        ScreenColor::from(Rgb { r: 4, g: 5, b: 6, a: 7 }),
        ScreenColor { r: 4, g: 5, b: 6, a: 7 }
    );
}

#[test]
fn cursor_snapshot_copies_the_render_cursor() {
    let cursor = RenderCursor { x: -1, y: 3, shape: CursorShape::Underline, color: Rgb { r: 9, g: 8, b: 7, a: 255 }, visible: true };
    assert_eq!(
        ScreenCursor::from_cursor(cursor),
        ScreenCursor { x: -1, y: 3, shape: CursorShape::Underline, color: ScreenColor::from_rgb(9, 8, 7), visible: true }
    );
}

#[test]
fn cell_snapshots_report_text_colors_and_attributes() {
    let empty = ScreenCell::empty();
    assert_eq!(empty.text, " ");
    assert_eq!((empty.fg, empty.bg, empty.width, empty.is_wide_continuation), (None, None, 1, false));

    let mut grid = Grid::new(3, 1);
    grid.write_glyph(0, 1, "界".to_string(), 2, Some(Rgb { r: 1, g: 1, b: 1, a: 255 }), CellAttrs { bold: true, italic: false, underline: true });
    let head = cell_at(Some(&grid), 1, 0).unwrap();
    assert_eq!(head.text, "界");
    assert_eq!(head.width, 2);
    assert_eq!(head.fg, Some(ScreenColor::from_rgb(1, 1, 1)));
    assert!(head.bold && head.underline && !head.italic);
    let cont = cell_at(Some(&grid), 2, 0).unwrap();
    assert!(cont.is_wide_continuation);
    assert_eq!(cont.text, "");
    assert_eq!(cell_at(Some(&grid), 3, 0), None);
    assert_eq!(cell_at(Some(&grid), -1, 0), None);
    assert_eq!(cell_at(None, 0, 0), None);
    assert_eq!(grid_cell(&grid, 0, 0), Some(&Cell::empty()));
}

#[test]
fn screen_region_preserves_requested_bounds_and_pads_out_of_bounds() {
    let mut grid = Grid::new(2, 2);
    grid.write_glyph(0, 0, "a".to_string(), 1, None, CellAttrs::default());
    let region = screen_region(Some(&grid), -1, 0, 3, 2);
    assert_eq!((region.x, region.y, region.width, region.height), (-1, 0, 3, 2));
    assert_eq!(region.cells.len(), 6);
    let texts: Vec<&str> = region.cells.iter().map(|c| c.text.as_str()).collect();
    assert_eq!(texts, vec![" ", "a", " ", " ", " ", " "]);
    assert_eq!(region.cells[0], ScreenCell::empty());

    let before_render = screen_region(None, 0, 0, 2, 1);
    assert_eq!(before_render.cells, vec![ScreenCell::empty(), ScreenCell::empty()]);
}
