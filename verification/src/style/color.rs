//! Terminal-ready colors.

use vstd::prelude::*;

verus! {

/// Final color format sent to the terminal.
#[derive(Debug, Clone, Copy, PartialEq, Eq, Hash, Structural)]
pub struct Rgb {
    /// Red channel.
    pub r: u8,
    /// Green channel.
    pub g: u8,
    /// Blue channel.
    pub b: u8,
    /// Alpha channel; 255 is opaque.
    pub a: u8,
}

impl Rgb {
    /// An opaque color.
    pub fn opaque(r: u8, g: u8, b: u8) -> (color: Self)
        ensures
            color == (Rgb { r, g, b, a: 255 }),
    {
        Rgb { r, g, b, a: 255 }
    }
}

} // verus!
