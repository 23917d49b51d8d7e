use vstd::prelude::*;

verus! {

/// A decoded key.
#[derive(Clone, Copy, Debug, PartialEq, Eq, Structural)]
pub enum KeyCode {
    Up,
    Down,
    Left,
    Right,
    Home,
    End,
    PageUp,
    PageDown,
    Enter,
    Esc,
    Backspace,
    Delete,
    Tab,
    Char(char),
    Other,
}

/// The modifier keys held with a key.
#[derive(Clone, Copy, Debug, PartialEq, Eq, Structural)]
pub enum KeyModifiers {
    Plain,
    Shift,
    Control,
    Other,
}

/// One key press as the key source reports it.
#[derive(Clone, Copy, Debug, PartialEq, Eq, Structural)]
pub struct KeyEvent {
    pub code: KeyCode,
    pub modifiers: KeyModifiers,
}

/// The source of key events; reading from it is the application's part.
pub struct Reader;

} // verus!
