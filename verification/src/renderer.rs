use vstd::prelude::*;

verus! {

/// Change that the game asks of the window.
#[derive(Clone, Copy, Debug, PartialEq, Eq, Structural)]
pub enum WindowAction {
    SetFullscreen(bool),
    SetCursor(bool),
}

/// Mouse button of an event.
#[derive(Copy, Clone, Debug, PartialEq, Eq, Structural)]
pub enum MouseButton {
    Left,
    Right,
    Other,
}

/// Whether a button or key went down or up.
#[derive(Copy, Clone, Debug, PartialEq, Eq, Structural)]
pub enum PressedOrReleased {
    Pressed,
    Released,
}

impl PressedOrReleased {
    /// The button or key went down.
    pub fn is_pressed(&self) -> (r: bool)
        ensures
            r == (*self is Pressed),
    {
        match self {
            PressedOrReleased::Pressed => true,
            PressedOrReleased::Released => false,
        }
    }
}

/// A mouse button went down or up.
#[derive(Copy, Clone, Debug, PartialEq, Eq, Structural)]
pub struct MouseEvent {
    pub button: MouseButton,
    pub state: PressedOrReleased,
}

/// Keys the game reacts to; `Unknown` stands for any other key.
#[derive(Debug, Clone, Copy, PartialEq, Eq, Structural)]
pub enum KeyCode {
    Escape,
    KeyE,
    KeyW,
    KeyS,
    KeyD,
    KeyA,
    KeyK,
    KeyJ,
    Space,
    Digit1,
    Digit2,
    Digit3,
    Digit4,
    Digit5,
    Digit6,
    Digit7,
    Digit8,
    Digit9,
    KeyP,
    KeyX,
    F3,
    F10,
    F11,
    F12,
    Unknown,
}

/// A key went down or up.
#[derive(Copy, Clone, Debug, PartialEq, Eq, Structural)]
pub struct KeyEvent {
    pub key: KeyCode,
    pub state: PressedOrReleased,
}

} // verus!
