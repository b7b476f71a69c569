//! Scrollbar visibility and drawing characters.

use vstd::prelude::*;

verus! {

/// When a scroll container draws its scrollbar.
///
/// Every mode is gated on the axis actually being scrollable: a container whose content
/// fits draws no bar regardless.
#[derive(Debug, Clone, Copy, PartialEq, Eq, Structural)]
pub enum ScrollbarShow {
    /// Show the bar whenever the axis is scrollable.
    Always,
    /// Show the bar while the container or one of its descendants holds focus.
    WhenFocused,
    /// Never show a bar.
    Never,
    /// Show the bar while the container scrolls: fully for the hide delay after its
    /// last scroll activity, then fading out over the fade duration.
    WhenScrolling,
}

impl Default for ScrollbarShow {
    fn default() -> (show: Self)
        ensures
            show == ScrollbarShow::Always,
    {
        ScrollbarShow::Always
    }
}

/// The characters a scrollbar is drawn with, per orientation.
#[derive(Debug, Clone, Copy, PartialEq, Eq, Structural)]
pub struct ScrollbarCharset {
    /// Track character of a vertical bar.
    pub vertical_track: char,
    /// Thumb character of a vertical bar.
    pub vertical_thumb: char,
    /// Track character of a horizontal bar.
    pub horizontal_track: char,
    /// Thumb character of a horizontal bar.
    pub horizontal_thumb: char,
}

impl ScrollbarCharset {
    /// Full-block thumb on a shaded track.
    pub fn block() -> (set: Self)
        ensures
            set == (ScrollbarCharset {
                vertical_track: '░',
                vertical_thumb: '█',
                horizontal_track: '░',
                horizontal_thumb: '█',
            }),
    {
        Self {
            vertical_track: '░',
            vertical_thumb: '█',
            horizontal_track: '░',
            horizontal_thumb: '█',
        }
    }

    /// Half-block thumb on a line track, for a thinner look.
    pub fn half_block() -> (set: Self)
        ensures
            set == (ScrollbarCharset {
                vertical_track: '│',
                vertical_thumb: '▐',
                horizontal_track: '─',
                horizontal_thumb: '▄',
            }),
    {
        Self {
            vertical_track: '│',
            vertical_thumb: '▐',
            horizontal_track: '─',
            horizontal_thumb: '▄',
        }
    }
}

impl Default for ScrollbarCharset {
    fn default() -> (set: Self)
        ensures
            set == (ScrollbarCharset {
                vertical_track: '░',
                vertical_thumb: '█',
                horizontal_track: '░',
                horizontal_thumb: '█',
            }),
    {
        Self::block()
    }
}

} // verus!
