//! Key presses as plain values.
use vstd::prelude::*;

verus! {

/// The key that was pressed.
#[derive(Debug, Clone, Copy, PartialEq, Eq, Structural)]
pub enum KeyCode {
    Char(char),
    Enter,
    Esc,
    Backspace,
    Tab,
    Up,
    Down,
    Left,
    Right,
    /// Any other key.
    Other,
}

/// The modifier keys held with a key.
#[derive(Debug, Clone, Copy, PartialEq, Eq, Structural)]
pub struct KeyModifiers {
    pub shift: bool,
    pub control: bool,
    pub alt: bool,
    pub super_key: bool,
    pub hyper: bool,
    pub meta: bool,
}

/// A key press.
#[derive(Debug, Clone, Copy, PartialEq, Eq, Structural)]
pub struct KeyEvent {
    pub code: KeyCode,
    pub modifiers: KeyModifiers,
}

/// The key is the character `c`, whatever modifiers are held.
pub open spec fn is_char(k: KeyEvent, c: char) -> bool {
    k.code == KeyCode::Char(c)
}

/// `j` or the down arrow.
pub open spec fn is_down(k: KeyEvent) -> bool {
    is_char(k, 'j') || k.code == KeyCode::Down
}

/// `k` or the up arrow.
pub open spec fn is_up(k: KeyEvent) -> bool {
    is_char(k, 'k') || k.code == KeyCode::Up
}

/// The character `c` with Control held (other modifiers may be held too).
pub open spec fn is_ctrl_char(k: KeyEvent, c: char) -> bool {
    is_char(k, c) && k.modifiers.control
}

/// Control and no other modifier.
pub open spec fn only_control(m: KeyModifiers) -> bool {
    m.control && !m.shift && !m.alt && !m.super_key && !m.hyper && !m.meta
}

/// Esc or `h`.
pub open spec fn is_back(k: KeyEvent) -> bool {
    k.code == KeyCode::Esc || is_char(k, 'h')
}

impl KeyEvent {
    /// Whether the key is `j` or the down arrow.
    pub fn down(&self) -> (r: bool)
        ensures
            r == is_down(*self),
    {
        match self.code {
            KeyCode::Char(c) => c == 'j',
            KeyCode::Down => true,
            _ => false,
        }
    }

    /// Whether the key is `k` or the up arrow.
    pub fn up(&self) -> (r: bool)
        ensures
            r == is_up(*self),
    {
        match self.code {
            KeyCode::Char(c) => c == 'k',
            KeyCode::Up => true,
            _ => false,
        }
    }

    /// Whether the key is the character `c`.
    pub fn char_is(&self, c: char) -> (r: bool)
        ensures
            r == is_char(*self, c),
    {
        match self.code {
            KeyCode::Char(x) => x == c,
            _ => false,
        }
    }

    /// Whether the key is `c` with Control held.
    pub fn ctrl_char_is(&self, c: char) -> (r: bool)
        ensures
            r == is_ctrl_char(*self, c),
    {
        self.char_is(c) && self.modifiers.control
    }

    /// Whether the key is Esc or `h`.
    pub fn back(&self) -> (r: bool)
        ensures
            r == is_back(*self),
    {
        match self.code {
            KeyCode::Esc => true,
            KeyCode::Char(c) => c == 'h',
            _ => false,
        }
    }
}

impl KeyModifiers {
    /// Whether Control and nothing else is held.
    pub fn is_only_control(&self) -> (r: bool)
        ensures
            r == only_control(*self),
    {
        self.control && !self.shift && !self.alt && !self.super_key && !self.hyper && !self.meta
    }
}

} // verus!
