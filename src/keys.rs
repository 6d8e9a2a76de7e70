use vstd::prelude::*;

verus! {

/// Modifier keys held down with a key press.
#[derive(Debug, PartialEq, Eq, Clone, Copy, Hash, Structural)]
pub struct KeyModifiers {
    pub shift: bool,
    pub control: bool,
    pub alt: bool,
}

impl KeyModifiers {
    /// No modifier held.
    pub fn empty() -> (r: KeyModifiers)
        ensures
            !r.shift && !r.control && !r.alt,
    {
        KeyModifiers { shift: false, control: false, alt: false }
    }

    /// Only the control key held.
    pub fn control() -> (r: KeyModifiers)
        ensures
            !r.shift && r.control && !r.alt,
    {
        KeyModifiers { shift: false, control: true, alt: false }
    }
}

/// A key, without its modifiers.
#[derive(Debug, PartialEq, Eq, Clone, Copy, Hash, Structural)]
pub enum KeyCode {
    Enter,
    Tab,
    Backspace,
    Esc,
    Left,
    Right,
    Up,
    Down,
    Ins,
    Delete,
    Home,
    End,
    PageUp,
    PageDown,
    F(u8),
    Char(char),
    Null,
}

/// A key press: the key and the modifiers held with it.
#[derive(Debug, PartialEq, Eq, Clone, Copy, Hash, Structural)]
pub struct KeyEvent {
    pub code: KeyCode,
    pub modifiers: KeyModifiers,
}

impl KeyEvent {
    pub fn new(code: KeyCode, modifiers: KeyModifiers) -> (r: KeyEvent)
        ensures
            r.code == code,
            r.modifiers == modifiers,
    {
        KeyEvent { code, modifiers }
    }

    /// Whether this is the plain character `c` (no control or alt held).
    pub open spec fn is_plain_char(self, c: char) -> bool {
        self.code == KeyCode::Char(c) && !self.modifiers.control && !self.modifiers.alt
    }

    /// Whether this is control held with the character `c`.
    pub open spec fn is_ctrl_char(self, c: char) -> bool {
        self.code == KeyCode::Char(c) && self.modifiers.control
    }
}

impl From<KeyCode> for KeyEvent {
    fn from(code: KeyCode) -> (r: KeyEvent) {
        KeyEvent { code, modifiers: KeyModifiers { shift: false, control: false, alt: false } }
    }
}

impl vstd::std_specs::convert::FromSpecImpl<KeyCode> for KeyEvent {
    open spec fn obeys_from_spec() -> bool {
        true
    }

    open spec fn from_spec(code: KeyCode) -> KeyEvent {
        KeyEvent { code, modifiers: KeyModifiers { shift: false, control: false, alt: false } }
    }
}

} // verus!
