//! Keys and modifier sets.

use std::ops::BitOr;
use vstd::prelude::*;

verus! {

/// Modifier keys held during a key or mouse event.
///
/// Only Shift, Control, and Alt are represented. Terminals report Super, Hyper, and
/// Meta solely under the kitty keyboard protocol, so those are dropped at conversion
/// rather than exposed as flags that never set.
#[derive(Debug, Clone, Copy, PartialEq, Eq, Hash, Structural)]
pub struct KeyModifiers(u8);

impl KeyModifiers {
    /// The held modifiers as bits: shift 1, control 2, alt 4.
    pub closed spec fn bits(self) -> u8 {
        self.0
    }

    /// Only the shift, control and alt bits are ever set.
    #[verifier::type_invariant]
    spec fn only_known_bits(self) -> bool {
        self.0 <= 7
    }

    /// Two sets holding the same modifiers are the same set.
    pub proof fn lemma_bits_identify(a: Self, b: Self)
        ensures
            a.bits() == b.bits() ==> a == b,
    {
    }

    /// The shift key.
    pub fn shift() -> (mods: Self)
        ensures
            mods.bits() == 1,
    {
        Self(1)
    }

    /// The control key.
    pub fn control() -> (mods: Self)
        ensures
            mods.bits() == 2,
    {
        Self(2)
    }

    /// The alt (option) key.
    pub fn alt() -> (mods: Self)
        ensures
            mods.bits() == 4,
    {
        Self(4)
    }

    /// No modifiers held.
    pub fn empty() -> (none: Self)
        ensures
            none.bits() == 0,
    {
        Self(0)
    }

    /// Whether no modifiers are held.
    pub fn is_empty(self) -> (empty: bool)
        ensures
            empty == (self.bits() == 0),
            empty == (self.bits() & 1 == 0 && self.bits() & 2 == 0 && self.bits() & 4 == 0),
            self.bits() <= 7,
    {
        proof {
            use_type_invariant(&self);
            let b = self.0;
            assert(b <= 7 ==> ((b == 0) == (b & 1 == 0 && b & 2 == 0 && b & 4 == 0))) by (bit_vector);
        }
        self.0 == 0
    }

    /// Whether every modifier in `other` is held.
    pub fn contains(self, other: Self) -> (all: bool)
        ensures
            all == (self.bits() & other.bits() == other.bits()),
            self.bits() <= 7,
            other.bits() <= 7,
    {
        proof {
            use_type_invariant(&self);
            use_type_invariant(&other);
        }
        self.0 & other.0 == other.0
    }

    /// Whether any modifier in `other` is held.
    pub fn intersects(self, other: Self) -> (any: bool)
        ensures
            any == (self.bits() & other.bits() != 0),
    {
        self.0 & other.0 != 0
    }

    /// This set with every modifier in `other` removed.
    pub fn without(self, other: Self) -> (rest: Self)
        ensures
            rest.bits() == self.bits() & !other.bits(),
    {
        proof {
            use_type_invariant(&self);
            let (x, y) = (self.0, other.0);
            assert(x <= 7 ==> x & !y <= 7) by (bit_vector);
        }
        Self(self.0 & !other.0)
    }

    /// The set holding exactly the given modifiers.
    pub fn from_flags(shift: bool, control: bool, alt: bool) -> (mods: Self)
        ensures
            mods.bits() == (if shift { 1u8 } else { 0u8 }) | (if control { 2u8 } else { 0u8 }) | (
            if alt { 4u8 } else { 0u8 }),
    {
        let s: u8 = if shift { 1 } else { 0 };
        let c: u8 = if control { 2 } else { 0 };
        let a: u8 = if alt { 4 } else { 0 };
        assert(s <= 1 && c <= 2 && (c == 0 || c == 2) && a <= 4 && (a == 0 || a == 4) ==> s | c | a <= 7) by (bit_vector);
        Self(s | c | a)
    }

    /// The union of two modifier sets.
    pub fn union(self, other: Self) -> (both: Self)
        ensures
            both.bits() == self.bits() | other.bits(),
    {
        proof {
            use_type_invariant(&self);
            use_type_invariant(&other);
            let (x, y) = (self.0, other.0);
            assert(x <= 7 && y <= 7 ==> x | y <= 7) by (bit_vector);
        }
        Self(self.0 | other.0)
    }
}

/// Modifier set algebra: a union contains both parts, removing a set leaves nothing of
/// it, and what was not removed stays.
pub proof fn lemma_modifier_sets(a: KeyModifiers, b: KeyModifiers)
    ensures
        (a.bits() | b.bits()) & b.bits() == b.bits(),
        (a.bits() | b.bits()) & a.bits() == a.bits(),
        (a.bits() & !b.bits()) & b.bits() == 0,
        (a.bits() & !b.bits()) | (a.bits() & b.bits()) == a.bits(),
{
    let x = a.bits();
    let y = b.bits();
    assert((x | y) & y == y) by (bit_vector);
    assert((x | y) & x == x) by (bit_vector);
    assert((x & !y) & y == 0) by (bit_vector);
    assert((x & !y) | (x & y) == x) by (bit_vector);
}

impl Default for KeyModifiers {
    fn default() -> (none: Self)
        ensures
            none.bits() == 0,
    {
        Self(0)
    }
}

impl BitOr for KeyModifiers {
    type Output = Self;

    fn bitor(self, rhs: Self) -> (both: Self)
        ensures
            both.bits() == self.bits() | rhs.bits(),
    {
        proof {
            use_type_invariant(&self);
            use_type_invariant(&rhs);
            let (x, y) = (self.0, rhs.0);
            assert(x <= 7 && y <= 7 ==> x | y <= 7) by (bit_vector);
        }
        Self(self.0 | rhs.0)
    }
}

impl vstd::std_specs::ops::BitOrSpecImpl for KeyModifiers {
    open spec fn obeys_bitor_spec() -> bool {
        true
    }

    open spec fn bitor_req(self, rhs: Self) -> bool {
        true
    }

    closed spec fn bitor_spec(self, rhs: Self) -> Self {
        KeyModifiers(self.0 | rhs.0)
    }
}

/// Represents a media key.
#[derive(Debug, Clone, Copy, PartialEq, Eq, Hash, Structural)]
pub enum MediaKeyCode {
    /// Play media key.
    Play,
    /// Pause media key.
    Pause,
    /// Play/Pause media key.
    PlayPause,
    /// Reverse media key.
    Reverse,
    /// Stop media key.
    Stop,
    /// Fast-forward media key.
    FastForward,
    /// Rewind media key.
    Rewind,
    /// Next-track media key.
    TrackNext,
    /// Previous-track media key.
    TrackPrevious,
    /// Record media key.
    Record,
    /// Lower-volume media key.
    LowerVolume,
    /// Raise-volume media key.
    RaiseVolume,
    /// Mute media key.
    MuteVolume,
}

/// Represents a modifier key press.
#[derive(Debug, Clone, Copy, PartialEq, Eq, Hash, Structural)]
pub enum ModifierKeyCode {
    /// Left Shift key.
    LeftShift,
    /// Left Control key.
    LeftControl,
    /// Left Alt key.
    LeftAlt,
    /// Left Super key.
    LeftSuper,
    /// Left Hyper key.
    LeftHyper,
    /// Left Meta key.
    LeftMeta,
    /// Right Shift key.
    RightShift,
    /// Right Control key.
    RightControl,
    /// Right Alt key.
    RightAlt,
    /// Right Super key.
    RightSuper,
    /// Right Hyper key.
    RightHyper,
    /// Right Meta key.
    RightMeta,
    /// ISO Level 3 Shift key.
    IsoLevel3Shift,
    /// ISO Level 5 Shift key.
    IsoLevel5Shift,
}

/// Represents a keyboard key.
#[derive(Debug, Clone, Copy, PartialEq, Eq, Hash, Structural)]
pub enum KeyCode {
    /// Backspace key.
    Backspace,
    /// Enter key.
    Enter,
    /// Left arrow key.
    Left,
    /// Right arrow key.
    Right,
    /// Up arrow key.
    Up,
    /// Down arrow key.
    Down,
    /// Home key.
    Home,
    /// End key.
    End,
    /// Page up key.
    PageUp,
    /// Page down key.
    PageDown,
    /// Tab key.
    Tab,
    /// Shift + Tab key.
    BackTab,
    /// Delete key.
    Delete,
    /// Insert key.
    Insert,
    /// Function key.
    F(u8),
    /// Character key.
    Char(char),
    /// Null key.
    Null,
    /// Escape key.
    Esc,
    /// Caps Lock key.
    CapsLock,
    /// Scroll Lock key.
    ScrollLock,
    /// Num Lock key.
    NumLock,
    /// Print Screen key.
    PrintScreen,
    /// Pause key.
    Pause,
    /// Menu key.
    Menu,
    /// Keypad Begin key.
    KeypadBegin,
    /// Media key.
    Media(MediaKeyCode),
    /// Modifier key.
    Modifier(ModifierKeyCode),
}

} // verus!
