use vstd::prelude::*;
use crate::geom::point::Point;

verus! {

/// The modifier keys held down with a key or a mouse button.
#[derive(Clone, Copy, Debug, PartialEq, Eq, Hash, Structural)]
pub struct Mods {
    pub shift: bool,
    pub ctrl: bool,
    pub alt: bool,
}

/// The keys of the keyboard.
#[derive(Clone, Copy, Debug, PartialEq, Eq, Hash, Structural)]
pub enum KeyCode {
    Backspace,
    Enter,
    Left,
    Right,
    Up,
    Down,
    Home,
    End,
    PageUp,
    PageDown,
    Tab,
    BackTab,
    Delete,
    Insert,
    F(u8),
    Char(char),
    Null,
    Esc,
}

/// A key press: the key, and the modifiers held down with it, if known.
#[derive(Clone, Copy, Debug, PartialEq, Eq, Hash, Structural)]
pub struct Key {
    pub mods: Option<Mods>,
    pub code: KeyCode,
}

impl Key {
    /// The key for a character, pressed alone.
    pub fn from_char(c: char) -> (k: Key)
        ensures
            k == (Key { mods: None, code: KeyCode::Char(c) }),
    {
        Key { mods: None, code: KeyCode::Char(c) }
    }

    /// A key, pressed alone.
    pub fn from_code(code: KeyCode) -> (k: Key)
        ensures
            k == (Key { mods: None, code }),
    {
        Key { mods: None, code }
    }
}

/// The buttons of the mouse.
#[derive(Clone, Copy, Debug, PartialEq, Eq, Hash, Structural)]
pub enum Button {
    Left,
    Right,
    Middle,
}

/// What the mouse did.
#[derive(Clone, Copy, Debug, PartialEq, Eq, Hash, Structural)]
pub enum MouseAction {
    Down,
    Up,
    Drag,
    Moved,
    ScrollDown,
    ScrollUp,
}

/// A mouse event: what happened, with which button and modifiers, and
/// where on the screen.
#[derive(Clone, Copy, Debug, PartialEq, Eq, Hash, Structural)]
pub struct Mouse {
    pub action: Option<MouseAction>,
    pub button: Option<Button>,
    pub modifiers: Option<Mods>,
    pub loc: Point,
}

} // verus!
