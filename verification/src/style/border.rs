//! Border charsets, sides, and presets.

use vstd::prelude::*;

use super::EdgeInsets;

verus! {

/// The eight characters that draw a box.
///
/// The charset is the primitive: the named presets are ordinary constructors, so a
/// custom look is built the same way a shipped one is.
#[derive(Debug, Clone, Copy, PartialEq, Eq, Structural)]
pub struct BorderCharset {
    /// Character drawn along the top edge.
    pub top: char,
    /// Character drawn along the right edge.
    pub right: char,
    /// Character drawn along the bottom edge.
    pub bottom: char,
    /// Character drawn along the left edge.
    pub left: char,
    /// Character drawn in the top-left corner.
    pub top_left: char,
    /// Character drawn in the top-right corner.
    pub top_right: char,
    /// Character drawn in the bottom-left corner.
    pub bottom_left: char,
    /// Character drawn in the bottom-right corner.
    pub bottom_right: char,
}

/// A charset given edge by edge, corners last.
pub open spec fn charset(
    top: char,
    right: char,
    bottom: char,
    left: char,
    top_left: char,
    top_right: char,
    bottom_left: char,
    bottom_right: char,
) -> BorderCharset {
    BorderCharset { top, right, bottom, left, top_left, top_right, bottom_left, bottom_right }
}

impl BorderCharset {
    /// Thin single lines: `┌─┐`.
    pub fn single() -> (set: Self)
        ensures
            set == charset('─', '│', '─', '│', '┌', '┐', '└', '┘'),
    {
        Self {
            top: '─',
            right: '│',
            bottom: '─',
            left: '│',
            top_left: '┌',
            top_right: '┐',
            bottom_left: '└',
            bottom_right: '┘',
        }
    }

    /// Double lines: `╔═╗`.
    pub fn double() -> (set: Self)
        ensures
            set == charset('═', '║', '═', '║', '╔', '╗', '╚', '╝'),
    {
        Self {
            top: '═',
            right: '║',
            bottom: '═',
            left: '║',
            top_left: '╔',
            top_right: '╗',
            bottom_left: '╚',
            bottom_right: '╝',
        }
    }

    /// Single lines with rounded corners: `╭─╮`.
    pub fn rounded() -> (set: Self)
        ensures
            set == charset('─', '│', '─', '│', '╭', '╮', '╰', '╯'),
    {
        let single = Self::single();
        Self {
            top_left: '╭',
            top_right: '╮',
            bottom_left: '╰',
            bottom_right: '╯',
            ..single
        }
    }

    /// Heavy lines: `┏━┓`.
    pub fn thick() -> (set: Self)
        ensures
            set == charset('━', '┃', '━', '┃', '┏', '┓', '┗', '┛'),
    {
        Self {
            top: '━',
            right: '┃',
            bottom: '━',
            left: '┃',
            top_left: '┏',
            top_right: '┓',
            bottom_left: '┗',
            bottom_right: '┛',
        }
    }

    /// Plain ASCII, for terminals without box-drawing characters: `+-+`.
    pub fn ascii() -> (set: Self)
        ensures
            set == charset('-', '|', '-', '|', '+', '+', '+', '+'),
    {
        Self {
            top: '-',
            right: '|',
            bottom: '-',
            left: '|',
            top_left: '+',
            top_right: '+',
            bottom_left: '+',
            bottom_right: '+',
        }
    }
}

/// Which sides of a node an edge treatment is drawn on.
///
/// Presence, not width: every edge treatment — a border, a half-block edge — is either
/// on a side or not.
#[derive(Debug, Clone, Copy, PartialEq, Eq, Default, Structural)]
pub struct Sides {
    /// Whether the top edge is drawn.
    pub top: bool,
    /// Whether the right edge is drawn.
    pub right: bool,
    /// Whether the bottom edge is drawn.
    pub bottom: bool,
    /// Whether the left edge is drawn.
    pub left: bool,
}

/// Every side drawn.
pub open spec fn all_sides() -> Sides {
    Sides { top: true, right: true, bottom: true, left: true }
}

/// No side drawn.
pub open spec fn no_sides() -> Sides {
    Sides { top: false, right: false, bottom: false, left: false }
}

impl Sides {
    /// Every side drawn.
    pub fn all() -> (sides: Self)
        ensures
            sides == all_sides(),
    {
        Self { top: true, right: true, bottom: true, left: true }
    }

    /// No side drawn.
    pub fn none() -> (sides: Self)
        ensures
            sides == no_sides(),
    {
        Self { top: false, right: false, bottom: false, left: false }
    }

    /// Choose each side explicitly.
    pub fn new(top: bool, right: bool, bottom: bool, left: bool) -> (sides: Self)
        ensures
            sides == (Sides { top, right, bottom, left }),
    {
        Self { top, right, bottom, left }
    }

    /// Whether any side is drawn.
    pub fn any(self) -> (drawn: bool)
        ensures
            drawn == (self.top || self.right || self.bottom || self.left),
    {
        self.top || self.right || self.bottom || self.left
    }

    /// One cell on each drawn side.
    pub fn one_cell_insets(self) -> (insets: EdgeInsets)
        ensures
            insets == (EdgeInsets {
                top: if self.top { 1 } else { 0 },
                right: if self.right { 1 } else { 0 },
                bottom: if self.bottom { 1 } else { 0 },
                left: if self.left { 1 } else { 0 },
            }),
    {
        EdgeInsets::new(
            if self.top { 1 } else { 0 },
            if self.right { 1 } else { 0 },
            if self.bottom { 1 } else { 0 },
            if self.left { 1 } else { 0 },
        )
    }
}

/// A node's border: one charset, plus which sides it is drawn on.
///
/// One charset per node rather than one per side, because corners are drawn from the
/// charset and a double-top/single-left corner has no coherent character.
#[derive(Debug, Clone, Copy, PartialEq, Eq, Structural)]
pub struct Border {
    /// Characters used to draw the border.
    pub charset: BorderCharset,
    /// Which sides are drawn.
    pub sides: Sides,
}

impl Border {
    /// A closed box drawn with `charset`.
    pub fn new(charset: BorderCharset) -> (border: Self)
        ensures
            border == (Border { charset, sides: all_sides() }),
    {
        Self { charset, sides: Sides::all() }
    }

    /// No border.
    ///
    /// This is a value, not the absence of one: a focus or disabled style needs it to
    /// positively remove a border.
    pub fn none() -> (border: Self)
        ensures
            border.charset == charset('─', '│', '─', '│', '┌', '┐', '└', '┘'),
            border.sides == no_sides(),
    {
        Self { charset: BorderCharset::single(), sides: Sides::none() }
    }

    /// Draw only the given sides.
    pub fn with_sides(self, sides: Sides) -> (border: Self)
        ensures
            border == (Border { charset: self.charset, sides }),
    {
        let mut border = self;
        border.sides = sides;
        border
    }

    /// The space the drawn sides take out of the node: one cell each.
    pub fn insets(self) -> (insets: EdgeInsets)
        ensures
            insets == (EdgeInsets {
                top: if self.sides.top { 1 } else { 0 },
                right: if self.sides.right { 1 } else { 0 },
                bottom: if self.sides.bottom { 1 } else { 0 },
                left: if self.sides.left { 1 } else { 0 },
            }),
    {
        self.sides.one_cell_insets()
    }
}

impl Default for Border {
    fn default() -> (border: Self)
        ensures
            border.sides == no_sides(),
            border.charset == charset('─', '│', '─', '│', '┌', '┐', '└', '┘'),
    {
        Self::none()
    }
}

} // verus!
