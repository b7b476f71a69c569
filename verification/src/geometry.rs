//! Centering helpers for placing content inside a container.

use vstd::prelude::*;

verus! {

/// The result of centering content inside a container.
///
/// Terminal cells are discrete, so content cannot always sit exactly in the middle.
/// When the leftover space is odd, the two closest offsets are equally valid and both
/// are reported rather than one being silently chosen.
#[derive(Debug, Clone, Copy, PartialEq, Eq, Structural)]
pub enum Centered {
    /// The leftover space divides evenly, so one offset is exactly centered.
    Even(i32),
    /// The leftover space is odd, so these two offsets sit one cell either side of center.
    Uneven {
        /// The left/top-biased offset.
        low: i32,
        /// The right/bottom-biased offset.
        high: i32,
    },
}

/// Leftover space when `content` is placed inside `container` (negative on overflow).
pub open spec fn free_space(container: u16, content: u16) -> int {
    container as int - content as int
}

/// The exact centering of `content` inside `container`.
///
/// Even leftover space yields the offset that splits it exactly in two; odd leftover
/// space yields the floor and the ceiling of the half.
pub open spec fn spec_center(container: u16, content: u16) -> Centered {
    let free = free_space(container, content);
    if free % 2 == 0 {
        Centered::Even((free / 2) as i32)
    } else {
        Centered::Uneven { low: (free / 2) as i32, high: (free / 2 + 1) as i32 }
    }
}

/// The left/top-biased offset of a centering.
pub open spec fn spec_any(centered: Centered) -> int {
    match centered {
        Centered::Even(offset) => offset as int,
        Centered::Uneven { low, .. } => low as int,
    }
}

impl Centered {
    /// The left/top-biased offset, for callers that do not care about the off-by-one.
    pub fn any(self) -> (offset: i32)
        ensures
            offset == spec_any(self),
    {
        match self {
            Centered::Even(offset) => offset,
            Centered::Uneven { low, .. } => low,
        }
    }
}

/// Center content horizontally inside a container.
///
/// Returns an offset from the container's origin. Content wider than its container
/// yields a negative offset rather than being clamped.
pub fn center_x(container: u16, content: u16) -> (centered: Centered)
    ensures
        centered == spec_center(container, content),
{
    center(container, content)
}

/// Center content vertically inside a container.
///
/// See [`center_x`] for the offset and overflow semantics.
pub fn center_y(container: u16, content: u16) -> (centered: Centered)
    ensures
        centered == spec_center(container, content),
{
    center(container, content)
}

/// Center content horizontally, taking the left-biased offset when it cannot be exact.
pub fn any_center_x(container: u16, content: u16) -> (offset: i32)
    ensures
        offset == free_space(container, content) / 2,
{
    center_x(container, content).any()
}

/// Center content vertically, taking the top-biased offset when it cannot be exact.
pub fn any_center_y(container: u16, content: u16) -> (offset: i32)
    ensures
        offset == free_space(container, content) / 2,
{
    center_y(container, content).any()
}

fn center(container: u16, content: u16) -> (centered: Centered)
    ensures
        centered == spec_center(container, content),
{
    let free: i32 = container as i32 - content as i32;
    if free % 2 == 0 {
        Centered::Even(free / 2)
    } else {
        // Floor division, so `low` stays the left/top-biased offset even when the
        // content overflows its container.
        let low: i32 = if free >= 0 { free / 2 } else { (free - 1) / 2 };
        Centered::Uneven { low, high: low + 1 }
    }
}

/// Centering law: the chosen offsets leave equal space on both sides up to one cell.
///
/// An even split places the content exactly in the middle; an odd split offers the two
/// offsets whose leftover space on each side differs by exactly one cell, low first.
pub proof fn lemma_center_balances(container: u16, content: u16)
    ensures
        match spec_center(container, content) {
            Centered::Even(offset) => 2 * offset == free_space(container, content),
            Centered::Uneven { low, high } => {
                &&& high == low + 1
                &&& low + high == free_space(container, content)
            },
        },
{
}

} // verus!
