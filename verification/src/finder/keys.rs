//! Keyboard input as the finder reads it.

use vstd::prelude::*;

verus! {

/// A key press.
#[derive(Debug, Clone, Copy, PartialEq, Eq, Structural)]
pub enum Key {
    Char(char),
    Backspace,
    Left,
    Right,
    Up,
    Down,
    Enter,
    Esc,
    Other,
}

/// The modifier keys held during a key press. `extra` stands for any
/// modifier other than shift, control and alt.
#[derive(Debug, Clone, Copy, PartialEq, Eq, Structural)]
pub struct Modifiers {
    pub shift: bool,
    pub control: bool,
    pub alt: bool,
    pub extra: bool,
}

impl Modifiers {
    /// No modifier is held.
    pub open spec fn is_none(self) -> bool {
        !self.shift && !self.control && !self.alt && !self.extra
    }

    /// Shift alone is held.
    pub open spec fn is_shift(self) -> bool {
        self.shift && !self.control && !self.alt && !self.extra
    }

    /// Control alone is held.
    pub open spec fn is_control(self) -> bool {
        !self.shift && self.control && !self.alt && !self.extra
    }

    /// No modifier.
    pub fn none() -> (m: Self)
        ensures
            m.is_none(),
    {
        Modifiers { shift: false, control: false, alt: false, extra: false }
    }

    /// Shift alone.
    pub fn shift() -> (m: Self)
        ensures
            m.is_shift(),
    {
        Modifiers { shift: true, control: false, alt: false, extra: false }
    }

    /// Control alone.
    pub fn control() -> (m: Self)
        ensures
            m.is_control(),
    {
        Modifiers { shift: false, control: true, alt: false, extra: false }
    }

    /// Whether no modifier is held.
    pub fn plain(&self) -> (r: bool)
        ensures
            r == self.is_none(),
    {
        !self.shift && !self.control && !self.alt && !self.extra
    }

    /// Whether shift alone is held.
    pub fn only_shift(&self) -> (r: bool)
        ensures
            r == self.is_shift(),
    {
        self.shift && !self.control && !self.alt && !self.extra
    }

    /// Whether control alone is held.
    pub fn only_control(&self) -> (r: bool)
        ensures
            r == self.is_control(),
    {
        !self.shift && self.control && !self.alt && !self.extra
    }
}

} // verus!
