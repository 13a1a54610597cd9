//! Keyboard values as the browser engine receives them: a logical key, a
//! physical key code, modifier flags, and key-down/key-up events.

use vstd::prelude::*;

verus! {

/// The named (non-character) keys the terminal can deliver.
#[derive(Clone, Copy, Debug, PartialEq, Eq, Structural)]
pub enum NamedKey {
    Enter,
    Tab,
    Escape,
    Backspace,
    Delete,
    ArrowUp,
    ArrowDown,
    ArrowLeft,
    ArrowRight,
    /// Any other named key.
    Unidentified,
}

/// A logical key: a named key or the text a key produces.
#[derive(Clone, Debug)]
pub enum Key {
    Named(NamedKey),
    Character(String),
}

/// The name of a named key.
pub open spec fn key_name(k: Key) -> Option<NamedKey> {
    match k {
        Key::Named(n) => Some(n),
        Key::Character(_) => None,
    }
}

/// The text of a character key.
pub open spec fn key_text(k: Key) -> Option<Seq<char>> {
    match k {
        Key::Named(_) => None,
        Key::Character(s) => Some(s@),
    }
}

/// Modifier flags held with a key or mouse event.
#[derive(Clone, Copy, Debug, PartialEq, Eq, Structural)]
pub struct Modifiers {
    pub shift: bool,
    pub control: bool,
    pub alt: bool,
    pub meta: bool,
}

impl Modifiers {
    pub open spec fn none() -> Modifiers {
        Modifiers { shift: false, control: false, alt: false, meta: false }
    }

    /// No modifier held.
    pub fn empty() -> (m: Modifiers)
        ensures
            m == Modifiers::none(),
    {
        Modifiers { shift: false, control: false, alt: false, meta: false }
    }

    pub open spec fn union(self, other: Modifiers) -> Modifiers {
        Modifiers {
            shift: self.shift || other.shift,
            control: self.control || other.control,
            alt: self.alt || other.alt,
            meta: self.meta || other.meta,
        }
    }

    /// The flags held in either set.
    pub fn or(self, other: Modifiers) -> (m: Modifiers)
        ensures
            m == self.union(other),
    {
        Modifiers {
            shift: self.shift || other.shift,
            control: self.control || other.control,
            alt: self.alt || other.alt,
            meta: self.meta || other.meta,
        }
    }
}

/// Physical key codes (positions on a US keyboard).
#[derive(Clone, Copy, Debug, PartialEq, Eq, Structural)]
pub enum Code {
    Tab,
    Enter,
    Escape,
    Backspace,
    ArrowUp,
    ArrowDown,
    ArrowLeft,
    ArrowRight,
    KeyA,
    KeyB,
    KeyC,
    KeyD,
    KeyE,
    KeyF,
    KeyG,
    KeyH,
    KeyI,
    KeyJ,
    KeyK,
    KeyL,
    KeyM,
    KeyN,
    KeyO,
    KeyP,
    KeyQ,
    KeyR,
    KeyS,
    KeyT,
    KeyU,
    KeyV,
    KeyW,
    KeyX,
    KeyY,
    KeyZ,
    Digit0,
    Digit1,
    Digit2,
    Digit3,
    Digit4,
    Digit5,
    Digit6,
    Digit7,
    Digit8,
    Digit9,
    Space,
    Minus,
    Equal,
    BracketLeft,
    BracketRight,
    Backslash,
    Semicolon,
    Quote,
    Comma,
    Period,
    Slash,
    Backquote,
}

/// Whether a keyboard event is a press or a release.
#[derive(Clone, Copy, Debug, PartialEq, Eq, Structural)]
pub enum KeyState {
    Down,
    Up,
}

/// A key event as handed to the browser engine (standard key location, not
/// repeating, not composing).
#[derive(Clone, Debug)]
pub struct KeyboardEvent {
    pub state: KeyState,
    pub key: Key,
    pub code: Code,
    pub modifiers: Modifiers,
}

} // verus!
