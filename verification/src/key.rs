//! Key events.

use vstd::prelude::*;

verus! {

/// Modifiers held while a key was pressed.
#[derive(Clone, Copy, Debug, PartialEq, Eq, Structural)]
pub struct KeyModifiers {
    pub shift: bool,
    pub control: bool,
    pub alt: bool,
    /// Super, hyper or meta.
    pub other: bool,
}

/// The keys that surfaces tell apart.
#[derive(Clone, Copy, Debug, PartialEq, Eq, Structural)]
pub enum KeyCode {
    Backspace,
    Enter,
    Left,
    Right,
    Up,
    Down,
    Home,
    End,
    PageUp,
    PageDown,
    Tab,
    BackTab,
    Delete,
    Esc,
    F(u8),
    Char(char),
    Unknown,
}

#[derive(Clone, Copy, Debug, PartialEq, Eq, Structural)]
pub struct KeyEvent {
    pub code: KeyCode,
    pub modifiers: KeyModifiers,
}

impl KeyModifiers {
    pub fn none() -> (modifiers: Self)
        ensures
            modifiers == (KeyModifiers { shift: false, control: false, alt: false, other: false }),
    {
        KeyModifiers { shift: false, control: false, alt: false, other: false }
    }

    pub fn shift() -> (modifiers: Self)
        ensures
            modifiers == (KeyModifiers { shift: true, control: false, alt: false, other: false }),
    {
        KeyModifiers { shift: true, control: false, alt: false, other: false }
    }

    pub fn control() -> (modifiers: Self)
        ensures
            modifiers == (KeyModifiers { shift: false, control: true, alt: false, other: false }),
    {
        KeyModifiers { shift: false, control: true, alt: false, other: false }
    }

    pub fn alt() -> (modifiers: Self)
        ensures
            modifiers == (KeyModifiers { shift: false, control: false, alt: true, other: false }),
    {
        KeyModifiers { shift: false, control: false, alt: true, other: false }
    }

    pub open spec fn is_empty_spec(&self) -> bool {
        !self.shift && !self.control && !self.alt && !self.other
    }

    #[verifier::when_used_as_spec(is_empty_spec)]
    pub fn is_empty(&self) -> (empty: bool)
        ensures
            empty == self.is_empty_spec(),
    {
        !self.shift && !self.control && !self.alt && !self.other
    }

    /// Control or alt without shift: the modifiers of editing by words.
    pub open spec fn by_words_spec(&self) -> bool {
        (self.control || self.alt) && !self.shift
    }

    #[verifier::when_used_as_spec(by_words_spec)]
    pub fn by_words(&self) -> (yes: bool)
        ensures
            yes == self.by_words_spec(),
    {
        (self.control || self.alt) && !self.shift
    }

    /// No modifier but shift.
    pub open spec fn at_most_shift_spec(&self) -> bool {
        !self.control && !self.alt && !self.other
    }

    #[verifier::when_used_as_spec(at_most_shift_spec)]
    pub fn at_most_shift(&self) -> (yes: bool)
        ensures
            yes == self.at_most_shift_spec(),
    {
        !self.control && !self.alt && !self.other
    }
}

impl KeyEvent {
    pub fn new(code: KeyCode, modifiers: KeyModifiers) -> (key: Self)
        ensures
            key == (KeyEvent { code, modifiers }),
    {
        KeyEvent { code, modifiers }
    }
}

} // verus!
