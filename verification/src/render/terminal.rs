//! Terminal output planning: what a flush writes, as a list of commands.
//!
//! Flushing is split in two. This module decides the command sequence — cursor
//! moves, colors, attribute transitions, text — for a set of changed cells or a whole
//! grid; the runtime hands each command to the terminal backend. Attributes are
//! sticky on a terminal, so the plan tracks the attribute state it leaves the
//! terminal in and emits only transitions.

use vstd::prelude::*;
use vstd::string::StringExecFns;

use crate::render::diff::{same_color, CellChange};
use crate::render::grid::{is_cont, plain, spec_content_width, spec_terminal_text, Cell, CellAttrs, Grid};
use crate::render::text::char_string;
use crate::render::RenderCursor;
use crate::style::color::Rgb;
use crate::style::CursorShape;

verus! {

/// A change of one sticky text attribute.
#[derive(Debug, Clone, Copy, PartialEq, Eq, Structural)]
pub enum AttrChange {
    /// Turn bold on.
    Bold,
    /// Turn bold off.
    NormalIntensity,
    /// Turn italic on.
    Italic,
    /// Turn italic off.
    NoItalic,
    /// Turn underline on.
    Underlined,
    /// Turn underline off.
    NoUnderline,
}

/// One terminal command.
#[derive(Debug, Clone)]
pub enum TermCommand {
    /// Ring the bell.
    Bell,
    /// Hide the cursor.
    Hide,
    /// Show the cursor.
    Show,
    /// Clear the whole screen.
    ClearAll,
    /// Reset every attribute (and colors) to the terminal default.
    ResetAttributes,
    /// Move the cursor to a column and row.
    MoveTo(u16, u16),
    /// Set the foreground color; `None` is the terminal default.
    Foreground(Option<Rgb>),
    /// Set the background color; `None` is the terminal default.
    Background(Option<Rgb>),
    /// Change one attribute.
    Attribute(AttrChange),
    /// Print text at the cursor.
    Print(String),
    /// Set a steady cursor shape.
    CursorStyle(CursorShape),
    /// Stop reporting mouse events.
    DisableMouseCapture,
    /// Stop reporting window focus changes.
    DisableFocusChange,
    /// Leave the alternate screen.
    LeaveAlternateScreen,
    /// Restore the user's cursor shape.
    DefaultCursorShape,
    /// Reset the colors to the terminal default.
    ResetColor,
}

/// A terminal command as the proofs see it: printed text is its characters.
pub enum Command {
    Bell,
    Hide,
    Show,
    ClearAll,
    ResetAttributes,
    MoveTo(u16, u16),
    Foreground(Option<Rgb>),
    Background(Option<Rgb>),
    Attribute(AttrChange),
    Print(Seq<char>),
    CursorStyle(CursorShape),
    DisableMouseCapture,
    DisableFocusChange,
    LeaveAlternateScreen,
    DefaultCursorShape,
    ResetColor,
}

impl View for TermCommand {
    type V = Command;

    open spec fn view(&self) -> Command {
        match self {
            TermCommand::Bell => Command::Bell,
            TermCommand::Hide => Command::Hide,
            TermCommand::Show => Command::Show,
            TermCommand::ClearAll => Command::ClearAll,
            TermCommand::ResetAttributes => Command::ResetAttributes,
            TermCommand::MoveTo(x, y) => Command::MoveTo(*x, *y),
            TermCommand::Foreground(c) => Command::Foreground(*c),
            TermCommand::Background(c) => Command::Background(*c),
            TermCommand::Attribute(a) => Command::Attribute(*a),
            TermCommand::Print(text) => Command::Print(text@),
            TermCommand::CursorStyle(s) => Command::CursorStyle(*s),
            TermCommand::DisableMouseCapture => Command::DisableMouseCapture,
            TermCommand::DisableFocusChange => Command::DisableFocusChange,
            TermCommand::LeaveAlternateScreen => Command::LeaveAlternateScreen,
            TermCommand::DefaultCursorShape => Command::DefaultCursorShape,
            TermCommand::ResetColor => Command::ResetColor,
        }
    }
}

/// The commands of a plan, as the proofs see them.
pub open spec fn commands(plan: Seq<TermCommand>) -> Seq<Command> {
    plan.map_values(|c: TermCommand| c@)
}

/// The transitions that take the terminal's attributes from `current` to `target`:
/// bold, then italic, then underline, each only when it differs.
pub open spec fn attr_commands(current: CellAttrs, target: CellAttrs) -> Seq<Command> {
    (if target.bold != current.bold {
        seq![Command::Attribute(if target.bold { AttrChange::Bold } else { AttrChange::NormalIntensity })]
    } else {
        Seq::empty()
    }) + (if target.italic != current.italic {
        seq![Command::Attribute(if target.italic { AttrChange::Italic } else { AttrChange::NoItalic })]
    } else {
        Seq::empty()
    }) + (if target.underline != current.underline {
        seq![Command::Attribute(if target.underline { AttrChange::Underlined } else { AttrChange::NoUnderline })]
    } else {
        Seq::empty()
    })
}

fn push_attr_transitions(out: &mut Vec<TermCommand>, current: &mut CellAttrs, target: CellAttrs)
    ensures
        commands(final(out)@) == commands(old(out)@) + attr_commands(*old(current), target),
        *final(current) == target,
{
    let ghost start = out@;
    if target.bold != current.bold {
        let change = if target.bold { AttrChange::Bold } else { AttrChange::NormalIntensity };
        out.push(TermCommand::Attribute(change));
    }
    let ghost after_bold = out@;
    if target.italic != current.italic {
        let change = if target.italic { AttrChange::Italic } else { AttrChange::NoItalic };
        out.push(TermCommand::Attribute(change));
    }
    let ghost after_italic = out@;
    if target.underline != current.underline {
        let change = if target.underline { AttrChange::Underlined } else { AttrChange::NoUnderline };
        out.push(TermCommand::Attribute(change));
    }
    assert(commands(out@) =~= commands(start) + attr_commands(*current, target));
    *current = target;
}

/// The commands that draw one changed cell, from the attribute state `current`: move
/// there, set both colors, switch attributes, print the text. The second half of a
/// wide glyph draws nothing — its head already covered it.
pub open spec fn cell_commands(x: u16, y: u16, cell: Cell, current: CellAttrs) -> Seq<Command> {
    if is_cont(cell) {
        Seq::empty()
    } else {
        seq![Command::MoveTo(x, y), Command::Foreground(cell.fg), Command::Background(cell.bg)]
            + attr_commands(current, cell.attrs) + seq![Command::Print(spec_terminal_text(cell.content))]
    }
}

/// The attribute state after drawing `cell` from `current`.
pub open spec fn attrs_after(cell: Cell, current: CellAttrs) -> CellAttrs {
    if is_cont(cell) { current } else { cell.attrs }
}

/// The commands drawing the first `n` changes, from the reset attribute state, and the
/// attribute state they leave.
pub open spec fn changes_commands(changes: Seq<CellChange>, n: int) -> (Seq<Command>, CellAttrs)
    decreases n,
{
    if n <= 0 {
        (Seq::empty(), CellAttrs { bold: false, italic: false, underline: false })
    } else {
        let (before, current) = changes_commands(changes, n - 1);
        let change = changes[n - 1];
        (before + cell_commands(change.x, change.y, change.cell, current), attrs_after(change.cell, current))
    }
}

fn push_cell(out: &mut Vec<TermCommand>, x: u16, y: u16, cell: &Cell, current: &mut CellAttrs)
    ensures
        commands(final(out)@) == commands(old(out)@) + cell_commands(x, y, *cell, *old(current)),
        *final(current) == attrs_after(*cell, *old(current)),
{
    if cell.is_wide_continuation() {
        assert(commands(out@) =~= commands(out@) + Seq::<Command>::empty());
        return;
    }
    let ghost start = out@;
    out.push(TermCommand::MoveTo(x, y));
    out.push(TermCommand::Foreground(cell.fg));
    out.push(TermCommand::Background(cell.bg));
    let ghost moved = out@;
    assert(commands(moved) =~= commands(start) + seq![
        Command::MoveTo(x, y),
        Command::Foreground(cell.fg),
        Command::Background(cell.bg),
    ]);
    push_attr_transitions(out, current, cell.attrs);
    let ghost attributed = out@;
    let text = cell.terminal_text().to_owned();
    out.push(TermCommand::Print(text));
    assert(commands(out@) =~= commands(attributed).push(Command::Print(spec_terminal_text(cell.content))));
    assert(commands(out@) =~= commands(start) + cell_commands(x, y, *cell, *old(current)));
}

/// The characters of a byte as two lowercase hex digits.
pub open spec fn hex2(v: u8) -> Seq<char> {
    seq![hex_digit((v / 16) as u8), hex_digit((v % 16) as u8)]
}

/// The lowercase hex digit of a value below sixteen.
pub open spec fn hex_digit(v: u8) -> char {
    if v < 10 { (('0' as u8) + v) as char } else { (('a' as u8) + (v - 10)) as char }
}

fn hex_char(v: u8) -> (c: char)
    requires
        v < 16,
    ensures
        c == hex_digit(v),
{
    if v < 10 {
        ((48u8 + v) as char)
    } else {
        ((97u8 + (v - 10)) as char)
    }
}

/// The escape sequence that sets the terminal cursor's color: `ESC ] 12 ; # rrggbb BEL`.
pub open spec fn cursor_color_chars(color: Rgb) -> Seq<char> {
    seq!['\x1b', ']', '1', '2', ';', '#'] + hex2(color.r) + hex2(color.g) + hex2(color.b) + seq!['\x07']
}

/// The escape sequence that sets the terminal cursor's color.
pub fn cursor_color_sequence(color: Rgb) -> (sequence: Vec<char>)
    ensures
        sequence@ == cursor_color_chars(color),
{
    let mut out: Vec<char> = vec!['\x1b', ']', '1', '2', ';', '#'];
    out.push(hex_char(color.r / 16));
    out.push(hex_char(color.r % 16));
    out.push(hex_char(color.g / 16));
    out.push(hex_char(color.g % 16));
    out.push(hex_char(color.b / 16));
    out.push(hex_char(color.b % 16));
    out.push('\x07');
    assert(out@ =~= cursor_color_chars(color));
    out
}

/// The commands that leave the cursor as the frame wants it: hidden unless a visible,
/// on-screen, non-block cursor was rendered; then shaped, colored, placed and shown.
pub open spec fn cursor_commands(cursor: Option<RenderCursor>) -> Seq<Command> {
    match cursor {
        None => seq![Command::Hide],
        Some(c) => if !c.visible || c.x < 0 || c.y < 0 || c.x > u16::MAX || c.y > u16::MAX || c.shape
            == CursorShape::Block {
            seq![Command::Hide]
        } else {
            seq![
                Command::CursorStyle(c.shape),
                Command::Print(cursor_color_chars(c.color)),
                Command::MoveTo(c.x as u16, c.y as u16),
                Command::Show,
            ]
        },
    }
}

fn from_chars(chars: &Vec<char>) -> (text: String)
    ensures
        text@ == chars@,
{
    let mut text = String::new();
    let mut i: usize = 0;
    while i < chars.len()
        invariant
            i <= chars@.len(),
            text@ == chars@.take(i as int),
        decreases chars.len() - i,
    {
        let c = chars[i];
        let piece = char_string(c);
        text.append(piece.as_str());
        assert(chars@.take(i + 1) =~= chars@.take(i as int).push(c));
        i += 1;
    }
    assert(chars@.take(chars@.len() as int) =~= chars@);
    text
}

fn push_cursor(out: &mut Vec<TermCommand>, cursor: Option<RenderCursor>)
    ensures
        commands(final(out)@) == commands(old(out)@) + cursor_commands(cursor),
{
    let ghost start = out@;
    match cursor {
        None => {
            out.push(TermCommand::Hide);
        },
        Some(c) => {
            if !c.visible || c.x < 0 || c.y < 0 || c.x > u16::MAX as i32 || c.y > u16::MAX as i32 || c.shape
                == CursorShape::Block {
                out.push(TermCommand::Hide);
            } else {
                out.push(TermCommand::CursorStyle(c.shape));
                let sequence = cursor_color_sequence(c.color);
                out.push(TermCommand::Print(from_chars(&sequence)));
                out.push(TermCommand::MoveTo(c.x as u16, c.y as u16));
                out.push(TermCommand::Show);
            }
        },
    }
    assert(commands(out@) =~= commands(start) + cursor_commands(cursor));
}

/// The commands that open every flush: the bell when one is pending.
pub open spec fn bell_commands(bell: bool) -> Seq<Command> {
    if bell { seq![Command::Bell] } else { Seq::empty() }
}

/// The flush of a set of changed cells: a pending bell, hide the cursor, reset the
/// attributes, draw each change in order, then place the cursor.
pub open spec fn changes_plan(changes: Seq<CellChange>, cursor: Option<RenderCursor>, bell: bool) -> Seq<Command> {
    bell_commands(bell) + seq![Command::Hide, Command::ResetAttributes] + changes_commands(
        changes,
        changes.len() as int,
    ).0 + cursor_commands(cursor)
}

/// Plan the flush of only the changed cells.
pub fn flush_changes_plan(changes: &Vec<CellChange>, cursor: Option<RenderCursor>, bell: bool) -> (plan: Vec<TermCommand>)
    ensures
        commands(plan@) == changes_plan(changes@, cursor, bell),
{
    let mut out: Vec<TermCommand> = Vec::new();
    if bell {
        out.push(TermCommand::Bell);
    }
    out.push(TermCommand::Hide);
    out.push(TermCommand::ResetAttributes);
    let ghost head = commands(out@);
    assert(head =~= bell_commands(bell) + seq![Command::Hide, Command::ResetAttributes]);
    let mut attrs = CellAttrs { bold: false, italic: false, underline: false };
    let mut i: usize = 0;
    while i < changes.len()
        invariant
            i <= changes@.len(),
            head == bell_commands(bell) + seq![Command::Hide, Command::ResetAttributes],
            commands(out@) == head + changes_commands(changes@, i as int).0,
            attrs == changes_commands(changes@, i as int).1,
        decreases changes.len() - i,
    {
        let change = &changes[i];
        push_cell(&mut out, change.x, change.y, &change.cell, &mut attrs);
        proof {
            assert(head + changes_commands(changes@, i + 1).0 =~= head + changes_commands(changes@, i as int).0
                + cell_commands(change.x, change.y, change.cell, changes_commands(changes@, i as int).1));
        }
        i += 1;
    }
    push_cursor(&mut out, cursor);
    assert(commands(out@) =~= changes_plan(changes@, cursor, bell));
    out
}

/// Cells a glyph advances the drawing position by: its width, at least one.
pub open spec fn advance(cell: Cell) -> int {
    let w = spec_content_width(cell.content) as int;
    if w == 0 { 1 } else { w }
}

/// `x` moved on by `by`, saturating at `u16::MAX`.
pub open spec fn step_to(x: int, by: int) -> int {
    if x + by > u16::MAX { u16::MAX as int } else { x + by }
}

/// One run of a row, from column `x`: the text of the cells that share the colors
/// and attributes `(fg, bg, attrs)`, skipping continuation cells, up to the first cell
/// that differs or the row's end; and the column after it.
pub open spec fn run(row: Seq<Cell>, width: int, fg: Option<Rgb>, bg: Option<Rgb>, attrs: CellAttrs, x: int) -> (Seq<char>, int)
    decreases u16::MAX - x,
{
    if x < 0 || x >= width || x >= row.len() || width > u16::MAX {
        (Seq::empty(), x)
    } else if is_cont(row[x]) {
        run(row, width, fg, bg, attrs, x + 1)
    } else if row[x].fg != fg || row[x].bg != bg || row[x].attrs != attrs {
        (Seq::empty(), x)
    } else {
        let rest = run(row, width, fg, bg, attrs, step_to(x, advance(row[x])));
        (spec_terminal_text(row[x].content) + rest.0, rest.1)
    }
}

/// A run never ends before it starts.
pub proof fn lemma_run_end(row: Seq<Cell>, width: int, fg: Option<Rgb>, bg: Option<Rgb>, attrs: CellAttrs, x: int)
    ensures
        run(row, width, fg, bg, attrs, x).1 >= x,
        x <= u16::MAX ==> run(row, width, fg, bg, attrs, x).1 <= u16::MAX,
    decreases u16::MAX - x,
{
    if 0 <= x < width && x < row.len() && width <= u16::MAX {
        if is_cont(row[x]) {
            lemma_run_end(row, width, fg, bg, attrs, x + 1);
        } else if !(row[x].fg != fg || row[x].bg != bg || row[x].attrs != attrs) {
            lemma_run_end(row, width, fg, bg, attrs, step_to(x, advance(row[x])));
        }
    }
}

/// The commands drawing row `y` from column `x` on, from the attribute state
/// `current`, and the attribute state they leave: each run is a move, both colors,
/// the attribute transitions and one print of the run's text.
pub open spec fn row_commands(row: Seq<Cell>, width: int, y: u16, x: int, current: CellAttrs) -> (Seq<Command>, CellAttrs)
    decreases u16::MAX - x,
{
    if x < 0 || x >= width || x >= row.len() || width > u16::MAX {
        (Seq::empty(), current)
    } else if is_cont(row[x]) {
        row_commands(row, width, y, x + 1, current)
    } else {
        let cell = row[x];
        let rest_run = run(row, width, cell.fg, cell.bg, cell.attrs, step_to(x, advance(cell)));
        proof {
            lemma_run_end(row, width, cell.fg, cell.bg, cell.attrs, step_to(x, advance(cell)));
        }
        let text = spec_terminal_text(cell.content) + rest_run.0;
        let head = seq![Command::MoveTo(x as u16, y), Command::Foreground(cell.fg), Command::Background(cell.bg)]
            + attr_commands(current, cell.attrs) + seq![Command::Print(text)];
        let rest = row_commands(row, width, y, rest_run.1, cell.attrs);
        (head + rest.0, rest.1)
    }
}

/// The commands drawing rows `y..` of `grid` from the attribute state `current`.
pub open spec fn rows_commands(grid: &Grid, y: int, current: CellAttrs) -> (Seq<Command>, CellAttrs)
    decreases grid.cells@.len() - y,
{
    if y < 0 || y >= grid.cells@.len() {
        (Seq::empty(), current)
    } else {
        let this = row_commands(grid.cells@[y]@, grid.width as int, y as u16, 0, current);
        let rest = rows_commands(grid, y + 1, this.1);
        (this.0 + rest.0, rest.1)
    }
}

/// The flush of a whole grid: a pending bell, hide the cursor, clear the screen, reset
/// the attributes, draw every row run by run, then place the cursor.
pub open spec fn full_plan(grid: &Grid, cursor: Option<RenderCursor>, bell: bool) -> Seq<Command> {
    bell_commands(bell) + seq![Command::Hide, Command::ClearAll, Command::ResetAttributes] + rows_commands(
        grid,
        0,
        CellAttrs { bold: false, italic: false, underline: false },
    ).0 + cursor_commands(cursor)
}

/// Collect the run of `row` that starts at `x` with the given colors and attributes.
fn collect_run(row: &Vec<Cell>, width: u16, fg: Option<Rgb>, bg: Option<Rgb>, attrs: CellAttrs, x: u16) -> (result: (String, u16))
    ensures
        result.0@ == run(row@, width as int, fg, bg, attrs, x as int).0,
        result.1 == run(row@, width as int, fg, bg, attrs, x as int).1,
{
    let mut text = String::new();
    let mut at = x;
    while at < width && (at as usize) < row.len()
        invariant
            text@ + run(row@, width as int, fg, bg, attrs, at as int).0 == run(row@, width as int, fg, bg, attrs, x as int).0,
            run(row@, width as int, fg, bg, attrs, at as int).1 == run(row@, width as int, fg, bg, attrs, x as int).1,
        ensures
            run(row@, width as int, fg, bg, attrs, at as int).0 =~= Seq::<char>::empty(),
            run(row@, width as int, fg, bg, attrs, at as int).1 == at,
        decreases u16::MAX - at,
    {
        let cell = &row[at as usize];
        if cell.is_wide_continuation() {
            at = at + 1;
            continue;
        }
        if !same_color(cell.fg, fg) || !same_color(cell.bg, bg) || cell.attrs.bold != attrs.bold
            || cell.attrs.italic != attrs.italic || cell.attrs.underline != attrs.underline {
            assert(text@ + Seq::<char>::empty() =~= text@);
            break;
        }
        let ghost before = text@;
        text.append(cell.terminal_text());
        let w = cell.content_width() as u16;
        let by = if w == 0 { 1 } else { w };
        let next = if at as u32 + by as u32 > u16::MAX as u32 { u16::MAX } else { at + by };
        assert(text@ + run(row@, width as int, fg, bg, attrs, next as int).0 =~= before + run(
            row@,
            width as int,
            fg,
            bg,
            attrs,
            at as int,
        ).0);
        at = next;
    }
    assert(text@ + Seq::<char>::empty() =~= text@);
    (text, at)
}

/// Plan the drawing of one row into `out`.
fn push_row(out: &mut Vec<TermCommand>, row: &Vec<Cell>, width: u16, y: u16, current: &mut CellAttrs)
    ensures
        commands(final(out)@) == commands(old(out)@) + row_commands(row@, width as int, y, 0, *old(current)).0,
        *final(current) == row_commands(row@, width as int, y, 0, *old(current)).1,
{
    let ghost start = commands(out@);
    let ghost current0 = *current;
    let mut x: u16 = 0;
    while x < width && (x as usize) < row.len()
        invariant
            commands(out@) + row_commands(row@, width as int, y, x as int, *current).0 == start + row_commands(
                row@,
                width as int,
                y,
                0,
                current0,
            ).0,
            row_commands(row@, width as int, y, x as int, *current).1 == row_commands(row@, width as int, y, 0, current0).1,
        decreases u16::MAX - x,
    {
        let cell = &row[x as usize];
        if cell.is_wide_continuation() {
            x = x + 1;
            continue;
        }
        let ghost before = commands(out@);
        let ghost from = *current;
        let fg = cell.fg;
        let bg = cell.bg;
        let attrs = cell.attrs;
        out.push(TermCommand::MoveTo(x, y));
        out.push(TermCommand::Foreground(fg));
        out.push(TermCommand::Background(bg));
        assert(commands(out@) =~= before + seq![Command::MoveTo(x, y), Command::Foreground(fg), Command::Background(bg)]);
        push_attr_transitions(out, current, attrs);
        let w = cell.content_width() as u16;
        let by = if w == 0 { 1 } else { w };
        let next = if x as u32 + by as u32 > u16::MAX as u32 { u16::MAX } else { x + by };
        let (rest, end) = collect_run(row, width, fg, bg, attrs, next);
        let mut text = cell.terminal_text().to_owned();
        text.append(rest.as_str());
        let ghost attributed = out@;
        out.push(TermCommand::Print(text));
        assert(commands(out@) =~= commands(attributed).push(Command::Print(text@)));
        proof {
            lemma_run_end(row@, width as int, fg, bg, attrs, next as int);
            let head = seq![Command::MoveTo(x, y), Command::Foreground(fg), Command::Background(bg)]
                + attr_commands(from, attrs) + seq![
                Command::Print(spec_terminal_text(cell.content) + run(row@, width as int, fg, bg, attrs, next as int).0),
            ];
            assert(commands(out@) =~= before + head);
        }
        x = end;
    }
    if !(x < width && (x as usize) < row.len()) {
        assert(commands(out@) + Seq::<Command>::empty() =~= commands(out@));
    }
}

/// Plan the flush of an entire grid, batched into runs of identical colors and
/// attributes.
pub fn flush_full_plan(grid: &Grid, cursor: Option<RenderCursor>, bell: bool) -> (plan: Vec<TermCommand>)
    requires
        grid.wf(),
    ensures
        commands(plan@) == full_plan(grid, cursor, bell),
{
    let mut out: Vec<TermCommand> = Vec::new();
    if bell {
        out.push(TermCommand::Bell);
    }
    out.push(TermCommand::Hide);
    out.push(TermCommand::ClearAll);
    out.push(TermCommand::ResetAttributes);
    let ghost head = commands(out@);
    assert(head =~= bell_commands(bell) + seq![Command::Hide, Command::ClearAll, Command::ResetAttributes]);
    let ghost initial = CellAttrs { bold: false, italic: false, underline: false };
    let mut attrs = CellAttrs { bold: false, italic: false, underline: false };
    let rows = grid.cells.len();
    let mut y: usize = 0;
    while y < rows
        invariant
            grid.wf(),
            rows == grid.cells@.len(),
            y <= rows,
            commands(out@) + rows_commands(grid, y as int, attrs).0 == head + rows_commands(grid, 0, initial).0,
        decreases rows - y,
    {
        let ghost before = commands(out@);
        let ghost from = attrs;
        push_row(&mut out, &grid.cells[y], grid.width, y as u16, &mut attrs);
        assert(commands(out@) + rows_commands(grid, y + 1, attrs).0 =~= before + rows_commands(grid, y as int, from).0);
        y += 1;
    }
    push_cursor(&mut out, cursor);
    assert(commands(out@) =~= full_plan(grid, cursor, bell));
    out
}

/// The teardown for the terminal modes in `state` (cursor hidden 8, mouse capture 4,
/// focus reporting 16, alternate screen 2), followed by the unconditional reset tail:
/// default cursor shape, default cursor color, default colors, reset attributes. Raw
/// mode (1) is a system call rather than a sequence, so it has none.
pub open spec fn restore_commands(state: u8) -> Seq<Command> {
    (if state & 8 != 0 { seq![Command::Show] } else { Seq::empty() }) + (if state & 4 != 0 {
        seq![Command::DisableMouseCapture]
    } else {
        Seq::empty()
    }) + (if state & 16 != 0 { seq![Command::DisableFocusChange] } else { Seq::empty() }) + (if state & 2
        != 0 {
        seq![Command::LeaveAlternateScreen]
    } else {
        Seq::empty()
    }) + seq![
        Command::DefaultCursorShape,
        Command::Print(seq!['\x1b', ']', '1', '1', '2', '\x07']),
        Command::ResetColor,
        Command::ResetAttributes,
    ]
}

/// Plan the teardown of the terminal modes in `state`.
pub fn restore_plan(state: u8) -> (plan: Vec<TermCommand>)
    ensures
        commands(plan@) == restore_commands(state),
{
    let mut out: Vec<TermCommand> = Vec::new();
    if state & 8 != 0 {
        out.push(TermCommand::Show);
    }
    if state & 4 != 0 {
        out.push(TermCommand::DisableMouseCapture);
    }
    if state & 16 != 0 {
        out.push(TermCommand::DisableFocusChange);
    }
    if state & 2 != 0 {
        out.push(TermCommand::LeaveAlternateScreen);
    }
    out.push(TermCommand::DefaultCursorShape);
    let reset_color = vec!['\x1b', ']', '1', '1', '2', '\x07'];
    out.push(TermCommand::Print(from_chars(&reset_color)));
    out.push(TermCommand::ResetColor);
    out.push(TermCommand::ResetAttributes);
    assert(commands(out@) =~= restore_commands(state));
    out
}


/// The attributes a terminal shows after one command from `state`: an attribute command
/// turns its own attribute on or off, a reset turns them all off, and no other command
/// touches them.
pub open spec fn shown_after_one(state: CellAttrs, command: Command) -> CellAttrs {
    match command {
        Command::Attribute(AttrChange::Bold) => CellAttrs { bold: true, ..state },
        Command::Attribute(AttrChange::NormalIntensity) => CellAttrs { bold: false, ..state },
        Command::Attribute(AttrChange::Italic) => CellAttrs { italic: true, ..state },
        Command::Attribute(AttrChange::NoItalic) => CellAttrs { italic: false, ..state },
        Command::Attribute(AttrChange::Underlined) => CellAttrs { underline: true, ..state },
        Command::Attribute(AttrChange::NoUnderline) => CellAttrs { underline: false, ..state },
        Command::ResetAttributes => CellAttrs { bold: false, italic: false, underline: false },
        _ => state,
    }
}

/// The attributes a terminal shows after running `commands` in order from `state`.
pub open spec fn shown_after(state: CellAttrs, commands: Seq<Command>) -> CellAttrs
    decreases commands.len(),
{
    if commands.len() == 0 {
        state
    } else {
        shown_after(shown_after_one(state, commands[0]), commands.drop_first())
    }
}

/// Running two command lists one after the other shows what running the second from
/// where the first left off shows.
pub proof fn lemma_shown_after_concat(state: CellAttrs, a: Seq<Command>, b: Seq<Command>)
    ensures
        shown_after(state, a + b) == shown_after(shown_after(state, a), b),
    decreases a.len(),
{
    if a.len() > 0 {
        assert((a + b).drop_first() == a.drop_first() + b);
        assert((a + b)[0] == a[0]);
        lemma_shown_after_concat(shown_after_one(state, a[0]), a.drop_first(), b);
    }
}

/// The attribute transitions take the terminal from `current` to exactly `target`: an
/// attribute the target turns off is switched off, one it turns on is switched on, and
/// one it leaves alone is not touched.
pub proof fn lemma_attr_commands_reach_target(current: CellAttrs, target: CellAttrs)
    ensures
        shown_after(current, attr_commands(current, target)) == target,
{
    let b = if target.bold != current.bold {
        seq![Command::Attribute(if target.bold { AttrChange::Bold } else { AttrChange::NormalIntensity })]
    } else {
        Seq::<Command>::empty()
    };
    let i = if target.italic != current.italic {
        seq![Command::Attribute(if target.italic { AttrChange::Italic } else { AttrChange::NoItalic })]
    } else {
        Seq::<Command>::empty()
    };
    let u = if target.underline != current.underline {
        seq![Command::Attribute(if target.underline { AttrChange::Underlined } else { AttrChange::NoUnderline })]
    } else {
        Seq::<Command>::empty()
    };
    assert(attr_commands(current, target) == b + i + u);
    lemma_shown_after_concat(current, b + i, u);
    lemma_shown_after_concat(current, b, i);
    let s1 = shown_after(current, b);
    let s2 = shown_after(s1, i);
    assert(s1 == CellAttrs { bold: target.bold, ..current }) by {
        reveal_with_fuel(shown_after, 2);
        if b.len() > 0 {
            assert(b.drop_first() == Seq::<Command>::empty());
        }
    }
    assert(s2 == CellAttrs { bold: target.bold, italic: target.italic, underline: current.underline }) by {
        reveal_with_fuel(shown_after, 2);
        if i.len() > 0 {
            assert(i.drop_first() == Seq::<Command>::empty());
        }
    }
    assert(shown_after(s2, u) == target) by {
        reveal_with_fuel(shown_after, 2);
        if u.len() > 0 {
            assert(u.drop_first() == Seq::<Command>::empty());
        }
    }
}

/// Every changed cell prints with its own attributes: running a flush's commands from
/// the reset state up to a cell's text leaves the terminal showing exactly that cell's
/// bold, italic and underline.
pub proof fn lemma_cells_print_with_their_attrs(changes: Seq<CellChange>, i: int)
    requires
        0 <= i < changes.len(),
        !is_cont(changes[i].cell),
    ensures
        ({
            let before = changes_commands(changes, i).0;
            let cell = changes[i].cell;
            let drawn = cell_commands(changes[i].x, changes[i].y, cell, changes_commands(changes, i).1);
            &&& drawn.last() == Command::Print(spec_terminal_text(cell.content))
            &&& shown_after(plain(), before + drawn.drop_last()) == cell.attrs
        }),
{
    lemma_tracked_state_is_shown(changes, i);
    let before = changes_commands(changes, i).0;
    let current = changes_commands(changes, i).1;
    let cell = changes[i].cell;
    let moves = seq![Command::MoveTo(changes[i].x, changes[i].y), Command::Foreground(cell.fg), Command::Background(cell.bg)];
    let drawn = cell_commands(changes[i].x, changes[i].y, cell, current);
    assert(drawn.drop_last() == moves + attr_commands(current, cell.attrs));
    lemma_shown_after_concat(plain(), before, moves + attr_commands(current, cell.attrs));
    lemma_shown_after_concat(current, moves, attr_commands(current, cell.attrs));
    assert(shown_after(current, moves) == current) by {
        reveal_with_fuel(shown_after, 4);
    }
    lemma_attr_commands_reach_target(current, cell.attrs);
}

/// The attribute state a flush plan tracks is the one the terminal shows: running the
/// commands of the first `n` changes from the reset state shows it.
pub proof fn lemma_tracked_state_is_shown(changes: Seq<CellChange>, n: int)
    requires
        0 <= n <= changes.len(),
    ensures
        shown_after(plain(), changes_commands(changes, n).0) == changes_commands(changes, n).1,
    decreases n,
{
    if n > 0 {
        lemma_tracked_state_is_shown(changes, n - 1);
        let before = changes_commands(changes, n - 1).0;
        let current = changes_commands(changes, n - 1).1;
        let change = changes[n - 1];
        let drawn = cell_commands(change.x, change.y, change.cell, current);
        lemma_shown_after_concat(plain(), before, drawn);
        if !is_cont(change.cell) {
            let moves = seq![Command::MoveTo(change.x, change.y), Command::Foreground(change.cell.fg), Command::Background(change.cell.bg)];
            let print = seq![Command::Print(spec_terminal_text(change.cell.content))];
            assert(drawn == moves + attr_commands(current, change.cell.attrs) + print);
            lemma_shown_after_concat(current, moves + attr_commands(current, change.cell.attrs), print);
            lemma_shown_after_concat(current, moves, attr_commands(current, change.cell.attrs));
            assert(shown_after(current, moves) == current) by {
                reveal_with_fuel(shown_after, 4);
            }
            lemma_attr_commands_reach_target(current, change.cell.attrs);
            assert(shown_after(change.cell.attrs, print) == change.cell.attrs) by {
                reveal_with_fuel(shown_after, 2);
            }
        }
    }
}


/// Whatever the terminal showed before, a changes flush prints every changed cell with
/// that cell's own attributes: the commands of the plan up to the cell's text leave it
/// showing exactly the cell's bold, italic and underline.
pub proof fn lemma_flush_prints_cells_with_their_attrs(
    changes: Seq<CellChange>,
    cursor: Option<RenderCursor>,
    bell: bool,
    state: CellAttrs,
    i: int,
)
    requires
        0 <= i < changes.len(),
        !is_cont(changes[i].cell),
    ensures
        ({
            let head = bell_commands(bell) + seq![Command::Hide, Command::ResetAttributes];
            let drawn = cell_commands(changes[i].x, changes[i].y, changes[i].cell, changes_commands(changes, i).1);
            let upto = head + changes_commands(changes, i).0 + drawn.drop_last();
            &&& changes_plan(changes, cursor, bell).len() > upto.len()
            &&& changes_plan(changes, cursor, bell).subrange(0, upto.len() as int) == upto
            &&& changes_plan(changes, cursor, bell)[upto.len() as int] == Command::Print(
                spec_terminal_text(changes[i].cell.content),
            )
            &&& shown_after(state, upto) == changes[i].cell.attrs
        }),
{
    let head = bell_commands(bell) + seq![Command::Hide, Command::ResetAttributes];
    let before = changes_commands(changes, i).0;
    let drawn = cell_commands(changes[i].x, changes[i].y, changes[i].cell, changes_commands(changes, i).1);
    assert(shown_after(state, head) == plain()) by {
        reveal_with_fuel(shown_after, 4);
        if bell {
            assert(head == seq![Command::Bell, Command::Hide, Command::ResetAttributes]);
        } else {
            assert(head == seq![Command::Hide, Command::ResetAttributes]);
        }
    }
    lemma_shown_after_concat(state, head, before + drawn.drop_last());
    lemma_cells_print_with_their_attrs(changes, i);
    assert(head + before + drawn.drop_last() == head + (before + drawn.drop_last()));
    lemma_changes_prefix(changes, i + 1, changes.len() as int);
    let all = changes_commands(changes, changes.len() as int).0;
    let through = changes_commands(changes, i + 1).0;
    assert(through == before + drawn);
    let plan = changes_plan(changes, cursor, bell);
    let upto = head + before + drawn.drop_last();
    assert(plan == head + all + cursor_commands(cursor));
    assert(plan.subrange(0, upto.len() as int) == upto) by {
        assert forall|k: int| 0 <= k < upto.len() implies plan[k] == upto[k] by {
            if k >= head.len() {
                assert(all[k - head.len()] == through[k - head.len()]);
            }
        }
    }
    assert(plan[upto.len() as int] == all[(before.len() + drawn.len() - 1) as int]);
    assert(all[(before.len() + drawn.len() - 1) as int] == through[(through.len() - 1) as int]);
}

/// The commands of the first `m` changes begin with those of the first `n`.
proof fn lemma_changes_prefix(changes: Seq<CellChange>, n: int, m: int)
    requires
        0 <= n <= m <= changes.len(),
    ensures
        changes_commands(changes, m).0.len() >= changes_commands(changes, n).0.len(),
        changes_commands(changes, m).0.subrange(0, changes_commands(changes, n).0.len() as int)
            == changes_commands(changes, n).0,
    decreases m - n,
{
    if n < m {
        lemma_changes_prefix(changes, n, m - 1);
        let a = changes_commands(changes, n).0;
        let b = changes_commands(changes, m - 1).0;
        let c = changes_commands(changes, m).0;
        assert(c.subrange(0, b.len() as int) == b);
        assert(c.subrange(0, a.len() as int) == b.subrange(0, a.len() as int));
    }
}

} // verus!
