use tuidom::render::diff::CellChange;
use tuidom::render::grid::{Cell, CellAttrs, Grid};
use tuidom::render::terminal::{
    cursor_color_sequence, flush_changes_plan, flush_full_plan, restore_plan, AttrChange, TermCommand,
};
use tuidom::render::RenderCursor;
use tuidom::style::color::Rgb;
use tuidom::style::CursorShape;

fn rgb(r: u8, g: u8, b: u8) -> Rgb {
    Rgb { r, g, b, a: 255 }
}

fn describe(plan: &[TermCommand]) -> Vec<String> {
    plan.iter().map(|c| format!("{c:?}")).collect()
}

#[test]
fn changes_plan_moves_colors_and_prints_each_cell() {
    let mut bold = Cell::empty_with_bg(rgb(1, 2, 3));
    bold.attrs.bold = true;
    let changes = vec![
        CellChange { x: 1, y: 0, cell: bold.clone() },
        CellChange { x: 2, y: 0, cell: bold },
        CellChange { x: 0, y: 1, cell: Cell::empty() },
    ];
    let plan = flush_changes_plan(&changes, None, true);
    let expected = vec![
        TermCommand::Bell,
        TermCommand::Hide,
        TermCommand::ResetAttributes,
        TermCommand::MoveTo(1, 0),
        TermCommand::Foreground(None),
        TermCommand::Background(Some(rgb(1, 2, 3))),
        TermCommand::Attribute(AttrChange::Bold),
        TermCommand::Print(" ".to_string()),
        TermCommand::MoveTo(2, 0),
        TermCommand::Foreground(None),
        TermCommand::Background(Some(rgb(1, 2, 3))),
        TermCommand::Print(" ".to_string()),
        TermCommand::MoveTo(0, 1),
        TermCommand::Foreground(None),
        TermCommand::Background(None),
        TermCommand::Attribute(AttrChange::NormalIntensity),
        TermCommand::Print(" ".to_string()),
        TermCommand::Hide,
    ];
    assert_eq!(describe(&plan), describe(&expected));
}

#[test]
fn full_plan_batches_runs_and_skips_continuations() {
    let mut grid = Grid::new(4, 1);
    grid.write_glyph(0, 0, "a".to_string(), 1, None, CellAttrs::default());
    grid.write_glyph(0, 1, "界".to_string(), 2, None, CellAttrs::default());
    grid.set_colors(0, 3, Some(rgb(9, 9, 9)), None);
    let plan = flush_full_plan(&grid, None, false);
    let expected = vec![
        TermCommand::Hide,
        TermCommand::ClearAll,
        TermCommand::ResetAttributes,
        TermCommand::MoveTo(0, 0),
        TermCommand::Foreground(None),
        TermCommand::Background(None),
        TermCommand::Print("a界".to_string()),
        TermCommand::MoveTo(3, 0),
        TermCommand::Foreground(Some(rgb(9, 9, 9))),
        TermCommand::Background(None),
        TermCommand::Print(" ".to_string()),
        TermCommand::Hide,
    ];
    assert_eq!(describe(&plan), describe(&expected));
}

#[test]
fn a_visible_bar_cursor_is_placed_and_shown() {
    let cursor = RenderCursor { x: 4, y: 2, shape: CursorShape::Bar, color: rgb(255, 0, 16), visible: true };
    let plan = flush_changes_plan(&Vec::new(), Some(cursor), false);
    let expected = vec![
        TermCommand::Hide,
        TermCommand::ResetAttributes,
        TermCommand::CursorStyle(CursorShape::Bar),
        TermCommand::Print("\x1b]12;#ff0010\x07".to_string()),
        TermCommand::MoveTo(4, 2),
        TermCommand::Show,
    ];
    assert_eq!(describe(&plan), describe(&expected));
}

#[test]
fn hidden_offscreen_or_block_cursors_stay_hidden() {
    for cursor in [
        RenderCursor { x: 4, y: 2, shape: CursorShape::Bar, color: rgb(0, 0, 0), visible: false },
        RenderCursor { x: -1, y: 2, shape: CursorShape::Bar, color: rgb(0, 0, 0), visible: true },
        RenderCursor { x: 4, y: 2, shape: CursorShape::Block, color: rgb(0, 0, 0), visible: true },
        RenderCursor { x: 70_000, y: 2, shape: CursorShape::Underline, color: rgb(0, 0, 0), visible: true },
    ] {
        let plan = flush_changes_plan(&Vec::new(), Some(cursor), false);
        assert_eq!(describe(&plan[2..]), describe(&[TermCommand::Hide]));
    }
}

#[test]
fn cursor_color_is_lowercase_hex() {
    let chars: String = cursor_color_sequence(rgb(0xab, 0x01, 0xff)).into_iter().collect();
    assert_eq!(chars, "\x1b]12;#ab01ff\x07");
}

#[test]
fn each_active_mode_adds_its_own_teardown() {
    let tail = describe(&restore_plan(0));
    for flag in [8u8, 4, 16, 2] {
        let emitted = describe(&restore_plan(flag));
        assert!(emitted.len() > tail.len());
        assert!(emitted.ends_with(&tail));
    }
}

#[test]
fn inactive_modes_are_left_alone() {
    let all = 8u8 | 4 | 16 | 2;
    for flag in [8u8, 4, 16, 2] {
        assert!(restore_plan(all & !flag).len() < restore_plan(all).len());
    }
}

#[test]
fn leaving_the_alternate_screen_is_planned_only_when_active() {
    let has_leave = |plan: Vec<TermCommand>| plan.iter().any(|c| matches!(c, TermCommand::LeaveAlternateScreen));
    assert!(has_leave(restore_plan(2)));
    assert!(!has_leave(restore_plan(8)));
}

#[test]
fn raw_mode_alone_emits_only_the_reset_tail() {
    assert_eq!(describe(&restore_plan(1)), describe(&restore_plan(0)));
    assert_eq!(
        describe(&restore_plan(0)),
        describe(&[
            TermCommand::DefaultCursorShape,
            TermCommand::Print("\x1b]112\x07".to_string()),
            TermCommand::ResetColor,
            TermCommand::ResetAttributes,
        ])
    );
}
