//! Key events as the engine receives them.

use vstd::prelude::*;

verus! {

/// A key symbol: a named non-printing key, or the printable character a
/// key types.
#[allow(non_camel_case_types)]
#[derive(Debug, Clone, Copy, PartialEq, Eq, Structural)]
pub enum Keysym {
    SPACE,
    RETURN,
    ESCAPE,
    BACKSPACE,
    DELETE,
    TAB,
    HOME,
    LEFT,
    UP,
    RIGHT,
    DOWN,
    PAGE_UP,
    PAGE_DOWN,
    END,
    F6,
    F7,
    F8,
    F9,
    F10,
    /// A key that types the character.
    Char(char),
    /// Any other key, by its X11 code.
    Other(u32),
}

impl Keysym {
    /// The key that types `c` (space is `SPACE`).
    pub fn from_char(c: char) -> (k: Keysym)
        ensures
            c == ' ' ==> k == Keysym::SPACE,
            c != ' ' ==> k == Keysym::Char(c),
    {
        if c == ' ' { Keysym::SPACE } else { Keysym::Char(c) }
    }

    /// The digit 1..=9 this key types, if any.
    pub open spec fn spec_digit_value(self) -> Option<usize> {
        match self {
            Keysym::Char(c) => if '1' <= c && c <= '9' { Some(((c as u32) - 0x30) as usize) } else { None },
            _ => None,
        }
    }

    pub fn digit_value(&self) -> (d: Option<usize>)
        ensures
            d == self.spec_digit_value(),
    {
        match self {
            Keysym::Char(c) => if '1' <= *c && *c <= '9' { Some(((*c as u32) - 0x30) as usize) } else { None },
            _ => None,
        }
    }

    /// Whether this key types the letter `lower` or its upper case form.
    pub open spec fn spec_is_letter(self, lower: char) -> bool {
        match self {
            Keysym::Char(c) => c == lower || (c as u32) + 0x20 == lower as u32,
            _ => false,
        }
    }

    pub fn is_letter(&self, lower: char) -> (b: bool)
        requires
            'a' <= lower <= 'z',
        ensures
            b == self.spec_is_letter(lower),
    {
        match self {
            Keysym::Char(c) => *c == lower || (*c as u32) + 0x20 == lower as u32,
            _ => false,
        }
    }
}

/// Modifier keys held with a key.
#[derive(Debug, Clone, Copy, PartialEq, Eq, Structural)]
pub struct Modifiers {
    pub shift_key: bool,
    pub control_key: bool,
    pub alt_key: bool,
}

impl Modifiers {
    pub fn none() -> (m: Modifiers)
        ensures
            !m.shift_key && !m.control_key && !m.alt_key,
    {
        Modifiers { shift_key: false, control_key: false, alt_key: false }
    }

    pub fn shift() -> (m: Modifiers)
        ensures
            m.shift_key && !m.control_key && !m.alt_key,
    {
        Modifiers { shift_key: true, control_key: false, alt_key: false }
    }

    pub fn ctrl_shift() -> (m: Modifiers)
        ensures
            m.shift_key && m.control_key && !m.alt_key,
    {
        Modifiers { shift_key: true, control_key: true, alt_key: false }
    }
}

/// A key press.
#[derive(Debug, Clone, Copy, PartialEq, Eq, Structural)]
pub struct KeyEvent {
    pub keysym: Keysym,
    pub modifiers: Modifiers,
}

/// Printable ASCII, space included.
pub open spec fn is_printable(c: char) -> bool {
    ' ' <= c && c <= '~'
}

impl KeyEvent {
    pub fn new(keysym: Keysym, modifiers: Modifiers) -> (k: KeyEvent)
        ensures
            k.keysym == keysym,
            k.modifiers == modifiers,
    {
        KeyEvent { keysym, modifiers }
    }

    /// The printable ASCII character this key types, if any.
    pub open spec fn spec_to_char(self) -> Option<char> {
        match self.keysym {
            Keysym::SPACE => Some(' '),
            Keysym::Char(c) => if is_printable(c) { Some(c) } else { None },
            _ => None,
        }
    }

    pub fn to_char(&self) -> (c: Option<char>)
        ensures
            c == self.spec_to_char(),
    {
        match self.keysym {
            Keysym::SPACE => Some(' '),
            Keysym::Char(c) => if ' ' <= c && c <= '~' { Some(c) } else { None },
            _ => None,
        }
    }
}

} // verus!
