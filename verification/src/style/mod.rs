//! Style vocabulary: explicit inheritance, spacing, layout modes, borders, scrollbars.

pub mod border;
pub mod color;
pub mod scrollbar;

pub use border::{Border, BorderCharset, Sides};
pub use scrollbar::{ScrollbarCharset, ScrollbarShow};

use vstd::prelude::*;

verus! {

/// Wraps a style property value: unset/default, explicit inheritance, or explicitly set.
///
/// By default, properties are [`Unset`](Self::Unset), which means they use the document
/// default style. Use [`Inherit`](Self::Inherit) to opt into inheriting from the parent.
#[derive(Debug, Clone, PartialEq, Default)]
pub enum StyleValue<T> {
    /// Use the document/default style value.
    #[default]
    Unset,
    /// Inherit the resolved value from the parent node.
    Inherit,
    /// An explicitly set value.
    Explicit(T),
}

/// Edge spacing in terminal cells.
#[derive(Debug, Default, Clone, Copy, PartialEq, Eq, Structural)]
pub struct EdgeInsets {
    /// Top edge size.
    pub top: u16,
    /// Right edge size.
    pub right: u16,
    /// Bottom edge size.
    pub bottom: u16,
    /// Left edge size.
    pub left: u16,
}

impl EdgeInsets {
    /// Create edge spacing with the same value on every side.
    pub fn all(value: u16) -> (insets: Self)
        ensures
            insets == (EdgeInsets { top: value, right: value, bottom: value, left: value }),
    {
        Self { top: value, right: value, bottom: value, left: value }
    }

    /// Create edge spacing with horizontal and vertical values.
    pub fn symmetric(horizontal: u16, vertical: u16) -> (insets: Self)
        ensures
            insets == (EdgeInsets {
                top: vertical,
                right: horizontal,
                bottom: vertical,
                left: horizontal,
            }),
    {
        Self { top: vertical, right: horizontal, bottom: vertical, left: horizontal }
    }

    /// Create edge spacing with explicit top, right, bottom, and left values.
    pub fn new(top: u16, right: u16, bottom: u16, left: u16) -> (insets: Self)
        ensures
            insets == (EdgeInsets { top, right, bottom, left }),
    {
        Self { top, right, bottom, left }
    }
}

/// How a node participates in layout.
#[derive(Debug, Default, Clone, Copy, PartialEq, Eq, Structural)]
pub enum Display {
    /// Flex container — children laid out using flexbox.
    #[default]
    Flex,
    /// Node is not rendered and does not participate in layout.
    Hidden,
}

/// How content that exceeds a node's box is treated, per axis.
///
/// `Scroll` and `Clip` also change sizing: a container that clips its content is
/// allowed to be smaller than that content.
#[derive(Debug, Default, Clone, Copy, PartialEq, Eq, Structural)]
pub enum Overflow {
    /// Content spills out of the box and stays visible.
    #[default]
    Visible,
    /// Content is clipped to the box and the node is scrollable on this axis.
    Scroll,
    /// Content is clipped to the box, with no scrolling and no scrollbar.
    Clip,
}

/// Shape requested for an input cursor.
#[derive(Debug, Default, Clone, Copy, PartialEq, Eq, Structural)]
pub enum CursorShape {
    /// Filled cell cursor.
    #[default]
    Block,
    /// Underline cursor.
    Underline,
    /// Vertical bar cursor.
    Bar,
}

/// Main-axis direction for flex containers.
#[derive(Debug, Default, Clone, Copy, PartialEq, Eq, Structural)]
pub enum FlexDirection {
    /// Lay children out horizontally from left to right.
    #[default]
    Row,
    /// Lay children out vertically from top to bottom.
    Column,
    /// Lay children out horizontally from right to left.
    RowReverse,
    /// Lay children out vertically from bottom to top.
    ColumnReverse,
}

/// Whether flex children remain on one line or wrap onto multiple lines.
#[derive(Debug, Default, Clone, Copy, PartialEq, Eq, Structural)]
pub enum FlexWrap {
    /// Keep flex children on a single line.
    #[default]
    NoWrap,
    /// Allow flex children to wrap onto additional lines.
    Wrap,
    /// Allow flex children to wrap, stacking lines in reverse cross-axis order.
    WrapReverse,
}

/// Spacing between flex children and flex lines in terminal cells.
#[derive(Debug, Default, Clone, Copy, PartialEq, Eq, Structural)]
pub struct FlexGap {
    /// Vertical spacing between rows or wrapped flex lines.
    pub row: u16,
    /// Horizontal spacing between columns or row-direction flex items.
    pub column: u16,
}

impl FlexGap {
    /// Create equal row and column gaps.
    pub fn all(value: u16) -> (gap: Self)
        ensures
            gap == (FlexGap { row: value, column: value }),
    {
        Self { row: value, column: value }
    }

    /// Create explicit row and column gaps.
    pub fn new(row: u16, column: u16) -> (gap: Self)
        ensures
            gap == (FlexGap { row, column }),
    {
        Self { row, column }
    }
}

/// Cross-axis alignment for flex containers.
#[derive(Debug, Default, Clone, Copy, PartialEq, Eq, Structural)]
pub enum AlignItems {
    /// Align items at the start of the cross axis.
    FlexStart,
    /// Align items at the end of the cross axis.
    FlexEnd,
    /// Align items at the center of the cross axis.
    Center,
    /// Stretch items to fill the cross axis.
    #[default]
    Stretch,
}

/// Cross-axis alignment override for an individual flex item.
pub type AlignSelf = AlignItems;

/// Cross-axis alignment for wrapped flex lines.
#[derive(Debug, Default, Clone, Copy, PartialEq, Eq, Structural)]
pub enum AlignContent {
    /// Pack lines at the start of the cross axis.
    FlexStart,
    /// Pack lines at the end of the cross axis.
    FlexEnd,
    /// Pack lines at the center of the cross axis.
    Center,
    /// Stretch lines to fill the cross axis.
    #[default]
    Stretch,
    /// Distribute lines evenly with space between them.
    SpaceBetween,
    /// Distribute lines evenly with space around them.
    SpaceAround,
}

/// Main-axis alignment for flex containers.
#[derive(Debug, Default, Clone, Copy, PartialEq, Eq, Structural)]
pub enum JustifyContent {
    /// Pack items at the start of the main axis.
    #[default]
    FlexStart,
    /// Pack items at the end of the main axis.
    FlexEnd,
    /// Pack items at the center of the main axis.
    Center,
    /// Distribute items evenly with space between them.
    SpaceBetween,
    /// Distribute items evenly with space around them.
    SpaceAround,
}

/// Positioning mode for a node.
///
/// Absolute offsets are parent-relative rather than screen-relative: place a node at
/// screen coordinates by making it a child of the root, whose origin is `(0, 0)`.
#[derive(Debug, Default, Clone, Copy, PartialEq, Eq, Structural)]
pub enum Position {
    /// Participate in normal flex layout.
    #[default]
    Flow,
    /// Remove the node from flow and offset it from its parent's box origin.
    Absolute {
        /// Horizontal offset from the parent's box origin.
        x: i32,
        /// Vertical offset from the parent's box origin.
        y: i32,
    },
}

/// Resolve one style property given the parent's resolved value and a default:
/// unset takes the default, inherit takes the parent's value when there is a parent,
/// and an explicit value wins.
pub fn resolve<T: Copy>(value: &StyleValue<T>, parent: Option<&T>, default: &T) -> (resolved: T)
    ensures
        resolved == match *value {
            StyleValue::Unset => *default,
            StyleValue::Inherit => match parent {
                Some(p) => *p,
                None => *default,
            },
            StyleValue::Explicit(v) => v,
        },
{
    match value {
        StyleValue::Unset => *default,
        StyleValue::Inherit => match parent {
            Some(p) => *p,
            None => *default,
        },
        StyleValue::Explicit(v) => *v,
    }
}

/// Resolve an optional style property: unset takes the default, inherit takes the
/// parent's value (itself possibly absent) when there is a parent, and an explicit
/// value is present.
pub fn resolve_optional<T: Copy>(
    value: &StyleValue<T>,
    parent: Option<Option<T>>,
    default: Option<T>,
) -> (resolved: Option<T>)
    ensures
        resolved == match *value {
            StyleValue::Unset => default,
            StyleValue::Inherit => match parent {
                Some(p) => p,
                None => default,
            },
            StyleValue::Explicit(v) => Some(v),
        },
{
    match value {
        StyleValue::Unset => default,
        StyleValue::Inherit => match parent {
            Some(p) => p,
            None => default,
        },
        StyleValue::Explicit(v) => Some(*v),
    }
}

/// Apply one property of an override style onto an already-resolved value: unset
/// leaves the target alone, inherit takes the parent's value (or the default), and an
/// explicit value replaces it.
pub fn apply_override<T: Copy>(target: &mut T, value: &StyleValue<T>, parent: Option<&T>, default: &T)
    ensures
        *final(target) == match *value {
            StyleValue::Unset => *old(target),
            StyleValue::Inherit => match parent {
                Some(p) => *p,
                None => *default,
            },
            StyleValue::Explicit(v) => v,
        },
{
    match value {
        StyleValue::Unset => {},
        StyleValue::Inherit => {
            *target = match parent {
                Some(p) => *p,
                None => *default,
            };
        },
        StyleValue::Explicit(v) => {
            *target = *v;
        },
    }
}

/// Apply one optional property of an override style onto an already-resolved value.
pub fn apply_optional_override<T: Copy>(
    target: &mut Option<T>,
    value: &StyleValue<T>,
    parent: Option<Option<T>>,
    default: Option<T>,
)
    ensures
        *final(target) == match *value {
            StyleValue::Unset => *old(target),
            StyleValue::Inherit => match parent {
                Some(p) => p,
                None => default,
            },
            StyleValue::Explicit(v) => Some(v),
        },
{
    match value {
        StyleValue::Unset => {},
        StyleValue::Inherit => {
            *target = match parent {
                Some(p) => p,
                None => default,
            };
        },
        StyleValue::Explicit(v) => {
            *target = Some(*v);
        },
    }
}

} // verus!
