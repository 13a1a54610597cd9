//! Terminal input events and their translation into the browser's events.

use vstd::prelude::*;

use crate::keyboard::{logical_key_spec, map_keyboard_event, mods_spec, engine_key_matches, KeyMods, LogicalKey, TerminalKey};
use crate::keys::{KeyState, KeyboardEvent, Modifiers};

verus! {

/// A mouse button of the browser.
#[derive(Clone, Copy, Debug, PartialEq, Eq, Structural)]
pub enum MouseButton {
    Left,
    Middle,
    Right,
}

/// Whether a mouse button went down or up.
#[derive(Clone, Copy, Debug, PartialEq, Eq, Structural)]
pub enum MouseButtonState {
    Down,
    Up,
}

/// An input event for the browser. Rows and columns are terminal cells.
#[derive(Debug)]
pub enum Event {
    Keyboard(KeyboardEvent),
    MouseButton { button: MouseButton, state: MouseButtonState, row: u16, col: u16, modifiers: Modifiers },
    MouseMove { row: u16, col: u16, modifiers: Modifiers },
    Scroll { delta_x: isize, delta_y: isize, row: u16, col: u16, modifiers: Modifiers },
    Exit,
}

/// Modifier flags reported by the terminal.
#[derive(Clone, Copy, Debug, PartialEq, Eq, Structural)]
pub struct TermModifiers {
    pub shift: bool,
    pub control: bool,
    pub alt: bool,
    pub super_key: bool,
    pub hyper: bool,
    pub meta: bool,
}

/// A key as the terminal reports it.
#[derive(Clone, Copy, Debug, PartialEq, Eq, Structural)]
pub enum TermKeyCode {
    Char(char),
    Enter,
    Tab,
    Esc,
    Backspace,
    Delete,
    Up,
    Down,
    Left,
    Right,
    /// Any other key (function keys, Home, End, ...).
    Other,
}

/// A key event from the terminal.
#[derive(Clone, Copy, Debug, PartialEq, Eq, Structural)]
pub struct TermKeyEvent {
    pub code: TermKeyCode,
    pub modifiers: TermModifiers,
}

/// A mouse button as the terminal reports it.
#[derive(Clone, Copy, Debug, PartialEq, Eq, Structural)]
pub enum TermMouseButton {
    Left,
    Right,
    Middle,
}

/// What a mouse event from the terminal was.
#[derive(Clone, Copy, Debug, PartialEq, Eq, Structural)]
pub enum MouseEventKind {
    Down(TermMouseButton),
    Up(TermMouseButton),
    Drag(TermMouseButton),
    Moved,
    ScrollDown,
    ScrollUp,
    ScrollLeft,
    ScrollRight,
}

/// A mouse event from the terminal, at a cell.
#[derive(Clone, Copy, Debug, PartialEq, Eq, Structural)]
pub struct TermMouseEvent {
    pub kind: MouseEventKind,
    pub column: u16,
    pub row: u16,
    pub modifiers: TermModifiers,
}

/// An event from the terminal.
#[derive(Clone, Debug)]
pub enum TermEvent {
    Key(TermKeyEvent),
    Mouse(TermMouseEvent),
    Resize(u16, u16),
    FocusGained,
    FocusLost,
    Paste(String),
}

/// The browser's mouse button for a terminal one.
pub open spec fn button_spec(b: TermMouseButton) -> MouseButton {
    match b {
        TermMouseButton::Left => MouseButton::Left,
        TermMouseButton::Middle => MouseButton::Middle,
        TermMouseButton::Right => MouseButton::Right,
    }
}

fn map_mouse_button(button: TermMouseButton) -> (b: Option<MouseButton>)
    ensures
        b == Some(button_spec(button)),
{
    Some(match button {
        TermMouseButton::Left => MouseButton::Left,
        TermMouseButton::Middle => MouseButton::Middle,
        TermMouseButton::Right => MouseButton::Right,
    })
}

/// The browser's modifiers for a mouse event: Shift, Control, Alt, and
/// Super as Meta.
pub open spec fn mouse_mods_spec(m: TermModifiers) -> Modifiers {
    Modifiers { shift: m.shift, control: m.control, alt: m.alt, meta: m.super_key }
}

pub fn map_mouse_modifiers(mods: TermModifiers) -> (m: Modifiers)
    ensures
        m == mouse_mods_spec(mods),
{
    let mut out = Modifiers::empty();
    if mods.shift {
        out.shift = true;
    }
    if mods.control {
        out.control = true;
    }
    if mods.alt {
        out.alt = true;
    }
    if mods.super_key {
        out.meta = true;
    }
    out
}

/// The browser event for a terminal mouse event.
pub open spec fn mouse_event_spec(m: TermMouseEvent) -> Event {
    let mods = mouse_mods_spec(m.modifiers);
    match m.kind {
        MouseEventKind::Down(b) => Event::MouseButton {
            button: button_spec(b),
            state: MouseButtonState::Down,
            row: m.row,
            col: m.column,
            modifiers: mods,
        },
        MouseEventKind::Up(b) => Event::MouseButton {
            button: button_spec(b),
            state: MouseButtonState::Up,
            row: m.row,
            col: m.column,
            modifiers: mods,
        },
        MouseEventKind::Drag(_) => Event::MouseMove { row: m.row, col: m.column, modifiers: mods },
        MouseEventKind::Moved => Event::MouseMove { row: m.row, col: m.column, modifiers: mods },
        MouseEventKind::ScrollUp => Event::Scroll { delta_x: 0, delta_y: 1, row: m.row, col: m.column, modifiers: mods },
        MouseEventKind::ScrollDown => Event::Scroll { delta_x: 0, delta_y: -1isize, row: m.row, col: m.column, modifiers: mods },
        MouseEventKind::ScrollLeft => Event::Scroll { delta_x: -1isize, delta_y: 0, row: m.row, col: m.column, modifiers: mods },
        MouseEventKind::ScrollRight => Event::Scroll { delta_x: 1, delta_y: 0, row: m.row, col: m.column, modifiers: mods },
    }
}

/// The terminal key of a terminal key event, if it is one the browser
/// knows (characters, Enter, Tab, Escape, Backspace, Delete, arrows).
pub open spec fn terminal_key_spec(k: TermKeyEvent) -> Option<TerminalKey> {
    let mods = KeyMods { alt: k.modifiers.alt, ctrl: k.modifiers.control, meta: k.modifiers.meta, shift: k.modifiers.shift };
    let logical = match k.code {
        TermKeyCode::Char(c) => Some(LogicalKey::Char(c)),
        TermKeyCode::Enter => Some(LogicalKey::Enter),
        TermKeyCode::Tab => Some(LogicalKey::Tab),
        TermKeyCode::Esc => Some(LogicalKey::Escape),
        TermKeyCode::Backspace => Some(LogicalKey::Backspace),
        TermKeyCode::Delete => Some(LogicalKey::Delete),
        TermKeyCode::Up => Some(LogicalKey::ArrowUp),
        TermKeyCode::Down => Some(LogicalKey::ArrowDown),
        TermKeyCode::Left => Some(LogicalKey::ArrowLeft),
        TermKeyCode::Right => Some(LogicalKey::ArrowRight),
        TermKeyCode::Other => None,
    };
    match logical {
        Some(l) => Some(TerminalKey { logical: l, modifiers: mods }),
        None => None,
    }
}

/// The terminal key of a terminal key event, if the browser knows it.
pub fn terminal_key(k: TermKeyEvent) -> (t: Option<TerminalKey>)
    ensures
        t == terminal_key_spec(k),
{
    let mods = KeyMods { alt: k.modifiers.alt, ctrl: k.modifiers.control, meta: k.modifiers.meta, shift: k.modifiers.shift };
    let logical = match k.code {
        TermKeyCode::Char(c) => LogicalKey::Char(c),
        TermKeyCode::Enter => LogicalKey::Enter,
        TermKeyCode::Tab => LogicalKey::Tab,
        TermKeyCode::Esc => LogicalKey::Escape,
        TermKeyCode::Backspace => LogicalKey::Backspace,
        TermKeyCode::Delete => LogicalKey::Delete,
        TermKeyCode::Up => LogicalKey::ArrowUp,
        TermKeyCode::Down => LogicalKey::ArrowDown,
        TermKeyCode::Left => LogicalKey::ArrowLeft,
        TermKeyCode::Right => LogicalKey::ArrowRight,
        TermKeyCode::Other => return None,
    };
    Some(TerminalKey { logical, modifiers: mods })
}

/// The event is Ctrl+C, which quits.
pub open spec fn is_exit_key(k: TermKeyEvent) -> bool {
    k.code == TermKeyCode::Char('c') && k.modifiers.control
}

/// `e` is the engine event of state `state` for terminal key `t`.
pub open spec fn keyboard_event_for(e: Event, t: TerminalKey, state: KeyState) -> bool {
    e matches Event::Keyboard(k) && k.state == state && engine_key_matches(k.key, t.logical)
        && k.code == logical_key_spec(t).unwrap().0
        && k.modifiers == logical_key_spec(t).unwrap().1.union(mods_spec(t.modifiers))
}

impl Event {
    /// Translate a terminal event: Ctrl+C quits; a key the engine knows
    /// becomes its key-down and key-up events; mouse presses, releases,
    /// moves, drags and wheel turns become the browser's mouse events (one
    /// wheel notch is one unit, up and right positive); resizes, focus
    /// changes and pastes produce nothing.
    pub fn from_crossterm(event: TermEvent) -> (events: Vec<Event>)
        ensures
            event matches TermEvent::Key(k) ==> {
                if is_exit_key(k) {
                    events@.len() == 1 && events@[0] is Exit
                } else {
                    match terminal_key_spec(k) {
                        None => events@.len() == 0,
                        Some(t) => if logical_key_spec(t) is None {
                            events@.len() == 0
                        } else {
                            &&& events@.len() == 2
                            &&& keyboard_event_for(events@[0], t, KeyState::Down)
                            &&& keyboard_event_for(events@[1], t, KeyState::Up)
                        },
                    }
                }
            },
            event matches TermEvent::Mouse(m) ==> events@ == seq![mouse_event_spec(m)],
            !(event is Key || event is Mouse) ==> events@.len() == 0,
    {
        let mut out: Vec<Event> = Vec::new();
        match event {
            TermEvent::Key(key_event) => {
                if key_event.code == TermKeyCode::Char('c') && key_event.modifiers.control {
                    out.push(Event::Exit);
                    return out;
                }
                if let Some(key) = terminal_key(key_event) {
                    if let Some((down, up)) = map_keyboard_event(&key) {
                        out.push(Event::Keyboard(down));
                        out.push(Event::Keyboard(up));
                    }
                }
                out
            },
            TermEvent::Mouse(m) => {
                let modifiers = map_mouse_modifiers(m.modifiers);
                let row = m.row;
                let col = m.column;
                let ev = match m.kind {
                    MouseEventKind::Down(button) => {
                        let button = map_mouse_button(button).unwrap();
                        Event::MouseButton { button, state: MouseButtonState::Down, row, col, modifiers }
                    },
                    MouseEventKind::Up(button) => {
                        let button = map_mouse_button(button).unwrap();
                        Event::MouseButton { button, state: MouseButtonState::Up, row, col, modifiers }
                    },
                    MouseEventKind::Drag(_) => Event::MouseMove { row, col, modifiers },
                    MouseEventKind::Moved => Event::MouseMove { row, col, modifiers },
                    MouseEventKind::ScrollUp => Event::Scroll { delta_x: 0, delta_y: 1, row, col, modifiers },
                    MouseEventKind::ScrollDown => Event::Scroll { delta_x: 0, delta_y: -1, row, col, modifiers },
                    MouseEventKind::ScrollLeft => Event::Scroll { delta_x: -1, delta_y: 0, row, col, modifiers },
                    MouseEventKind::ScrollRight => Event::Scroll { delta_x: 1, delta_y: 0, row, col, modifiers },
                };
                out.push(ev);
                proof {
                    assert(out@ =~= seq![mouse_event_spec(m)]);
                }
                out
            },
            TermEvent::Resize(..) => out,
            TermEvent::FocusGained => out,
            TermEvent::FocusLost => out,
            TermEvent::Paste(_) => out,
        }
    }
}

/// Mouse events keep their meaning: the wheel turned up scrolls by +1
/// vertically and turned down by -1, left by -1 and right by +1
/// horizontally (opposite directions give opposite deltas); a press or a
/// release is one of the same button, in the same state; a move or a drag
/// is a move; each at the same cell, with Super as Meta.
pub proof fn lemma_mouse_events_keep_their_meaning(m: TermMouseEvent)
    ensures
        m.kind is ScrollUp ==> mouse_event_spec(m) == (Event::Scroll {
            delta_x: 0,
            delta_y: 1,
            row: m.row,
            col: m.column,
            modifiers: (Modifiers { shift: m.modifiers.shift, control: m.modifiers.control, alt: m.modifiers.alt, meta: m.modifiers.super_key }),
        }),
        m.kind is ScrollDown ==> mouse_event_spec(m) == (Event::Scroll {
            delta_x: 0,
            delta_y: -1isize,
            row: m.row,
            col: m.column,
            modifiers: (Modifiers { shift: m.modifiers.shift, control: m.modifiers.control, alt: m.modifiers.alt, meta: m.modifiers.super_key }),
        }),
        m.kind is ScrollLeft ==> mouse_event_spec(m) == (Event::Scroll {
            delta_x: -1isize,
            delta_y: 0,
            row: m.row,
            col: m.column,
            modifiers: (Modifiers { shift: m.modifiers.shift, control: m.modifiers.control, alt: m.modifiers.alt, meta: m.modifiers.super_key }),
        }),
        m.kind is ScrollRight ==> mouse_event_spec(m) == (Event::Scroll {
            delta_x: 1,
            delta_y: 0,
            row: m.row,
            col: m.column,
            modifiers: (Modifiers { shift: m.modifiers.shift, control: m.modifiers.control, alt: m.modifiers.alt, meta: m.modifiers.super_key }),
        }),
        (m.kind is Moved || m.kind is Drag) ==> mouse_event_spec(m) == (Event::MouseMove {
            row: m.row,
            col: m.column,
            modifiers: (Modifiers { shift: m.modifiers.shift, control: m.modifiers.control, alt: m.modifiers.alt, meta: m.modifiers.super_key }),
        }),
        m.kind == MouseEventKind::Down(TermMouseButton::Left) ==> mouse_event_spec(m) == (Event::MouseButton {
            button: MouseButton::Left,
            state: MouseButtonState::Down,
            row: m.row,
            col: m.column,
            modifiers: (Modifiers { shift: m.modifiers.shift, control: m.modifiers.control, alt: m.modifiers.alt, meta: m.modifiers.super_key }),
        }),
        m.kind == MouseEventKind::Down(TermMouseButton::Right) ==> mouse_event_spec(m) == (Event::MouseButton {
            button: MouseButton::Right,
            state: MouseButtonState::Down,
            row: m.row,
            col: m.column,
            modifiers: (Modifiers { shift: m.modifiers.shift, control: m.modifiers.control, alt: m.modifiers.alt, meta: m.modifiers.super_key }),
        }),
        m.kind == MouseEventKind::Down(TermMouseButton::Middle) ==> mouse_event_spec(m) == (Event::MouseButton {
            button: MouseButton::Middle,
            state: MouseButtonState::Down,
            row: m.row,
            col: m.column,
            modifiers: (Modifiers { shift: m.modifiers.shift, control: m.modifiers.control, alt: m.modifiers.alt, meta: m.modifiers.super_key }),
        }),
        m.kind == MouseEventKind::Up(TermMouseButton::Left) ==> mouse_event_spec(m) == (Event::MouseButton {
            button: MouseButton::Left,
            state: MouseButtonState::Up,
            row: m.row,
            col: m.column,
            modifiers: (Modifiers { shift: m.modifiers.shift, control: m.modifiers.control, alt: m.modifiers.alt, meta: m.modifiers.super_key }),
        }),
        m.kind == MouseEventKind::Up(TermMouseButton::Right) ==> mouse_event_spec(m) == (Event::MouseButton {
            button: MouseButton::Right,
            state: MouseButtonState::Up,
            row: m.row,
            col: m.column,
            modifiers: (Modifiers { shift: m.modifiers.shift, control: m.modifiers.control, alt: m.modifiers.alt, meta: m.modifiers.super_key }),
        }),
        m.kind == MouseEventKind::Up(TermMouseButton::Middle) ==> mouse_event_spec(m) == (Event::MouseButton {
            button: MouseButton::Middle,
            state: MouseButtonState::Up,
            row: m.row,
            col: m.column,
            modifiers: (Modifiers { shift: m.modifiers.shift, control: m.modifiers.control, alt: m.modifiers.alt, meta: m.modifiers.super_key }),
        }),
{
}

/// Terminal keys keep their names: Up becomes the Up arrow, Down the Down
/// arrow, Left the Left arrow, Right the Right arrow, Esc Escape, and Enter,
/// Tab, Backspace, Delete and characters themselves, with the modifiers
/// the terminal reported; other keys are not passed on.
pub proof fn lemma_terminal_keys_keep_their_names(k: TermKeyEvent)
    ensures
        ({
            let mods = (KeyMods {
                alt: k.modifiers.alt,
                ctrl: k.modifiers.control,
                meta: k.modifiers.meta,
                shift: k.modifiers.shift,
            });
            &&& k.code is Up ==> terminal_key_spec(k) == Some((TerminalKey { logical: LogicalKey::ArrowUp, modifiers: mods }))
            &&& k.code is Down ==> terminal_key_spec(k) == Some((TerminalKey { logical: LogicalKey::ArrowDown, modifiers: mods }))
            &&& k.code is Left ==> terminal_key_spec(k) == Some((TerminalKey { logical: LogicalKey::ArrowLeft, modifiers: mods }))
            &&& k.code is Right ==> terminal_key_spec(k) == Some((TerminalKey { logical: LogicalKey::ArrowRight, modifiers: mods }))
            &&& k.code is Esc ==> terminal_key_spec(k) == Some((TerminalKey { logical: LogicalKey::Escape, modifiers: mods }))
            &&& k.code is Enter ==> terminal_key_spec(k) == Some((TerminalKey { logical: LogicalKey::Enter, modifiers: mods }))
            &&& k.code is Tab ==> terminal_key_spec(k) == Some((TerminalKey { logical: LogicalKey::Tab, modifiers: mods }))
            &&& k.code is Backspace ==> terminal_key_spec(k) == Some((TerminalKey { logical: LogicalKey::Backspace, modifiers: mods }))
            &&& k.code is Delete ==> terminal_key_spec(k) == Some((TerminalKey { logical: LogicalKey::Delete, modifiers: mods }))
            &&& k.code matches TermKeyCode::Char(c) ==> terminal_key_spec(k) == Some((TerminalKey { logical: LogicalKey::Char(c), modifiers: mods }))
            &&& k.code is Other ==> terminal_key_spec(k) is None
        }),
{
}

} // verus!
