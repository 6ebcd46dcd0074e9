//! Events of the terminal, as far as the monitor tells them apart.

use vstd::prelude::*;

verus! {

/// The key that was pressed. Keys that nothing here reacts to are `Other`.
#[derive(Clone, Copy, Debug, PartialEq, Eq, Structural)]
pub enum KeyCode {
    Backspace,
    Enter,
    Left,
    Right,
    Up,
    Down,
    Home,
    End,
    PageUp,
    PageDown,
    Delete,
    Esc,
    Char(char),
    Other,
}

/// The modifier keys held down, one bit for each of them.
#[derive(Clone, Copy, Debug, PartialEq, Eq, Structural)]
pub struct KeyModifiers {
    pub bits: u8,
}

/// The bit of the shift key.
pub const SHIFT: u8 = 1;

/// The bit of the control key.
pub const CONTROL: u8 = 2;

/// The bit of the alt key.
pub const ALT: u8 = 4;

/// The bits of the shift, control and alt keys.
pub const SHIFT_CONTROL_ALT: u8 = 7;

impl KeyModifiers {
    /// All of the keys with these bits are held down.
    pub open spec fn has_all(self, bits: u8) -> bool {
        self.bits & bits == bits
    }

    /// One of the keys with these bits is held down.
    pub open spec fn has_any(self, bits: u8) -> bool {
        self.bits & bits != 0
    }

    /// Are all of the keys with these bits held down?
    pub fn contains(self, bits: u8) -> (r: bool)
        ensures
            r == self.has_all(bits),
    {
        self.bits & bits == bits
    }

    /// Is one of the keys with these bits held down?
    pub fn intersects(self, bits: u8) -> (r: bool)
        ensures
            r == self.has_any(bits),
    {
        self.bits & bits != 0
    }
}

/// Whether a key went down, is held down, or was let go.
#[derive(Clone, Copy, Debug, PartialEq, Eq, Structural)]
pub enum KeyEventKind {
    Press,
    Repeat,
    Release,
}

/// An event of the keyboard.
#[derive(Clone, Copy, Debug, PartialEq, Eq, Structural)]
pub struct KeyEvent {
    pub code: KeyCode,
    pub modifiers: KeyModifiers,
    pub kind: KeyEventKind,
}

/// What the mouse did.
#[derive(Clone, Copy, Debug, PartialEq, Eq, Structural)]
pub enum MouseEventKind {
    /// The left button went down.
    LeftDown,
    ScrollUp,
    ScrollDown,
    Other,
}

/// An event of the mouse, and the cell of the screen where it was.
#[derive(Clone, Copy, Debug, PartialEq, Eq, Structural)]
pub struct MouseEvent {
    pub kind: MouseEventKind,
    pub column: u16,
    pub row: u16,
}

/// An event of the terminal.
#[derive(Clone, Copy, Debug, PartialEq, Eq, Structural)]
pub enum Event {
    Key(KeyEvent),
    Mouse(MouseEvent),
    Resize,
    Other,
}

/// The way the wheel was turned.
#[derive(Clone, Copy, Debug, PartialEq, Eq, Structural)]
pub enum MouseWheelDirection {
    Up,
    Down,
}

/// What the wheel scrolls.
#[derive(Clone, Copy, Debug, PartialEq, Eq, Structural)]
pub enum MouseScrollTarget {
    Jobs,
    Output,
}

/// The way the wheel was turned, if it was.
pub open spec fn wheel_direction(kind: MouseEventKind) -> Option<MouseWheelDirection> {
    match kind {
        MouseEventKind::ScrollUp => Some(MouseWheelDirection::Up),
        MouseEventKind::ScrollDown => Some(MouseWheelDirection::Down),
        _ => None,
    }
}

/// Tells which way the wheel was turned, if it was.
pub fn mouse_wheel_direction(kind: MouseEventKind) -> (r: Option<MouseWheelDirection>)
    ensures
        r == wheel_direction(kind),
{
    match kind {
        MouseEventKind::ScrollUp => Some(MouseWheelDirection::Up),
        MouseEventKind::ScrollDown => Some(MouseWheelDirection::Down),
        _ => None,
    }
}

} // verus!
