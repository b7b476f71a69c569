use tuidom::render::diff::{cells_differ, diff_profiled};
use tuidom::render::grid::{Cell, CellAttrs, Grid};
use tuidom::render::should_flush_full;
use tuidom::style::color::Rgb;

fn rgb(r: u8, g: u8, b: u8) -> Rgb {
    Rgb { r, g, b, a: 255 }
}

fn wide_at_origin(width: u16) -> Grid {
    let mut grid = Grid::new(width, 1);
    grid.write_glyph(0, 0, "界".to_string(), 2, Some(rgb(255, 255, 255)), CellAttrs::default());
    grid
}

#[test]
fn diff_marks_both_cells_when_wide_glyph_is_added() {
    let old = Grid::new(3, 1);
    let new = wide_at_origin(3);
    let changes = diff_profiled(&old, &new, false).changes;
    let coords: Vec<(u16, u16)> = changes.iter().map(|c| (c.x, c.y)).collect();
    assert_eq!(coords, vec![(0, 0), (1, 0)]);
}

#[test]
fn diff_marks_both_cells_when_wide_glyph_is_removed() {
    let old = wide_at_origin(3);
    let new = Grid::new(3, 1);
    let changes = diff_profiled(&old, &new, false).changes;
    let coords: Vec<(u16, u16)> = changes.iter().map(|c| (c.x, c.y)).collect();
    assert_eq!(coords, vec![(0, 0), (1, 0)]);
}

#[test]
fn identical_frames_have_no_changes() {
    let old = wide_at_origin(4);
    let new = wide_at_origin(4);
    let output = diff_profiled(&old, &new, true);
    assert!(output.changes.is_empty());
    assert!(output.profile.enabled);
    assert_eq!(output.profile.rows, 1);
    assert_eq!(output.profile.unchanged_rows, 1);
    assert_eq!(output.profile.changed_rows, 0);
    assert_eq!(output.profile.dirty_cells, 0);
}

#[test]
fn a_recolored_cell_is_flushed_with_its_new_value() {
    let old = Grid::new(3, 2);
    let mut new = Grid::new(3, 2);
    new.set_colors(1, 2, None, Some(rgb(0, 0, 255)));
    let output = diff_profiled(&old, &new, true);
    assert_eq!(output.changes.len(), 1);
    assert_eq!((output.changes[0].x, output.changes[0].y), (2, 1));
    assert_eq!(output.changes[0].cell, Cell::empty_with_bg(rgb(0, 0, 255)));
    assert_eq!(output.profile.changed_rows, 1);
    assert_eq!(output.profile.cells_compared, 3);
    assert_eq!(output.profile.dirty_cells, 1);
}

#[test]
fn a_grown_frame_flushes_the_new_rows_whole() {
    let old = Grid::new(2, 1);
    let new = Grid::new(2, 2);
    let changes = diff_profiled(&old, &new, false).changes;
    let coords: Vec<(u16, u16)> = changes.iter().map(|c| (c.x, c.y)).collect();
    assert_eq!(coords, vec![(0, 1), (1, 1)]);
}

#[test]
fn attribute_only_change_does_not_print_differently() {
    let a = Cell::empty();
    let mut b = Cell::empty();
    b.attrs.bold = true;
    assert!(!cells_differ(&a, &b));
    let c = Cell::empty_with_bg(rgb(1, 1, 1));
    assert!(cells_differ(&a, &c));
}

#[test]
fn full_redraw_threshold_is_one_third() {
    assert!(!should_flush_full(0, 0));
    assert!(!should_flush_full(10, 30));
    assert!(should_flush_full(11, 30));
    assert!(should_flush_full(usize::MAX, 30));
    assert!(!should_flush_full(usize::MAX, usize::MAX));
}

#[test]
fn applying_the_changes_turns_the_old_frame_into_the_new() {
    let mut old = Grid::new(5, 3);
    old.write_glyph(0, 1, "a".to_string(), 1, Some(rgb(1, 1, 1)), CellAttrs::default());
    old.write_glyph(2, 0, "界".to_string(), 2, None, CellAttrs::default());
    let mut new = Grid::new(5, 3);
    new.write_glyph(0, 1, "b".to_string(), 1, Some(rgb(1, 1, 1)), CellAttrs::default());
    new.write_glyph(1, 3, "世".to_string(), 2, Some(rgb(2, 2, 2)), CellAttrs::default());
    new.set_colors(2, 4, None, Some(rgb(9, 9, 9)));
    let changes = diff_profiled(&old, &new, false).changes;
    let mut screen = old.cells.clone();
    for change in &changes {
        screen[change.y as usize][change.x as usize] = change.cell.clone();
    }
    for (row, (got, want)) in screen.iter().zip(new.cells.iter()).enumerate() {
        for (col, (a, b)) in got.iter().zip(want.iter()).enumerate() {
            assert!(!cells_differ(a, b), "cell ({col}, {row}) still differs");
        }
    }
}

#[test]
fn diff_profile_counts_rows_and_compared_cells() {
    let old = Grid::new(4, 3);
    let mut new = Grid::new(4, 3);
    new.write_glyph(1, 2, "x".to_string(), 1, None, CellAttrs::default());
    let profile = diff_profiled(&old, &new, true).profile;
    assert_eq!(profile.rows, 3);
    assert_eq!(profile.unchanged_rows, 2);
    assert_eq!(profile.changed_rows, 1);
    assert_eq!(profile.cells_compared, 4);
    assert_eq!(profile.hint_skipped_rows, 0);
    let quiet = diff_profiled(&old, &new, false).profile;
    assert_eq!((quiet.rows, quiet.changed_rows, quiet.cells_compared), (0, 0, 0));
}
