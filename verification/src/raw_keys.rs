//! Translation of raw terminal key bytes (as a legacy input parser reports
//! them: ASCII, control bytes, and 0x11-0x14 for the arrows) into engine
//! key events.

use vstd::prelude::*;

use crate::keyboard::{ascii_lower, code_for_lower, code_of_lower, to_ascii_lowercase, KeyMods, mods_spec};
use crate::keys::{key_name, key_text, Code, Key, KeyState, KeyboardEvent, Modifiers, NamedKey};
use crate::text::char_to_string;

verus! {

/// A key byte with its modifiers.
#[derive(Clone, Copy, Debug, PartialEq, Eq, Structural)]
pub struct RawKey {
    pub char: u8,
    pub modifiers: KeyMods,
}

/// The physical key of a character among letters, digits and the US
/// punctuation keys (space has no entry here).
pub open spec fn character_code_spec(c: char) -> Option<Code> {
    code_of_lower(ascii_lower(c))
}

/// The physical key code of a letter, digit or punctuation character.
pub fn character_code(ch: char) -> (code: Option<Code>)
    ensures
        code == character_code_spec(ch),
{
    code_for_lower(to_ascii_lowercase(ch))
}

/// The named key and code of a key byte that stands for a named key.
pub open spec fn named_byte(b: u8) -> Option<(NamedKey, Code)> {
    if b == 0x09 { Some((NamedKey::Tab, Code::Tab)) }
    else if b == 0x0a || b == 0x0d { Some((NamedKey::Enter, Code::Enter)) }
    else if b == 0x11 { Some((NamedKey::ArrowUp, Code::ArrowUp)) }
    else if b == 0x12 { Some((NamedKey::ArrowDown, Code::ArrowDown)) }
    else if b == 0x13 { Some((NamedKey::ArrowRight, Code::ArrowRight)) }
    else if b == 0x14 { Some((NamedKey::ArrowLeft, Code::ArrowLeft)) }
    else if b == 0x1b { Some((NamedKey::Escape, Code::Escape)) }
    else if b == 0x7f { Some((NamedKey::Backspace, Code::Backspace)) }
    else { None }
}

/// The character a key byte types: control bytes 0x01-0x1a stand for
/// Ctrl with `a`-`z`.
pub open spec fn typed_byte(b: u8) -> (u8, bool) {
    if 0x01 <= b && b <= 0x1a { ((b + 0x60) as u8, true) } else { (b, false) }
}

/// What `map_logical_key` gives a key byte: the named key for the named
/// bytes; otherwise the typed character (space, or ASCII with a key code)
/// with the control flag for control bytes; `None` for anything else.
pub open spec fn raw_key_spec(b: u8) -> Option<(Seq<char>, Code, Modifiers)> {
    match named_byte(b) {
        Some(_) => None,
        None => {
            let (c, ctrl) = typed_byte(b);
            let mods = if ctrl { Modifiers { control: true, ..Modifiers::none() } } else { Modifiers::none() };
            if c == 0x20 {
                Some((seq![' '], Code::Space, mods))
            } else if c < 0x80 {
                match character_code_spec(c as char) {
                    Some(code) => Some((seq![c as char], code, mods)),
                    None => None,
                }
            } else {
                None
            }
        },
    }
}

/// The engine key, code and extra modifiers for a key byte.
pub fn map_logical_key(key: &RawKey) -> (r: Option<(Key, Code, Modifiers)>)
    ensures
        named_byte(key.char) is Some ==> r is Some,
        named_byte(key.char) is None ==> (raw_key_spec(key.char) is None <==> r is None),
        r matches Some(t) ==> (named_byte(key.char) matches Some(nc) ==> key_name(t.0) == Some(nc.0)
            && t.1 == nc.1 && t.2 == Modifiers::none()),
        r matches Some(t) ==> (named_byte(key.char) is None ==> key_text(t.0) is Some
            && raw_key_spec(key.char) == Some((key_text(t.0).unwrap(), t.1, t.2))),
{
    let empty = Modifiers::empty();
    match key.char {
        0x09 => return Some((Key::Named(NamedKey::Tab), Code::Tab, empty)),
        0x0a | 0x0d => return Some((Key::Named(NamedKey::Enter), Code::Enter, empty)),
        0x11 => return Some((Key::Named(NamedKey::ArrowUp), Code::ArrowUp, empty)),
        0x12 => return Some((Key::Named(NamedKey::ArrowDown), Code::ArrowDown, empty)),
        0x13 => return Some((Key::Named(NamedKey::ArrowRight), Code::ArrowRight, empty)),
        0x14 => return Some((Key::Named(NamedKey::ArrowLeft), Code::ArrowLeft, empty)),
        0x1b => return Some((Key::Named(NamedKey::Escape), Code::Escape, empty)),
        0x7f => return Some((Key::Named(NamedKey::Backspace), Code::Backspace, empty)),
        _ => {},
    }
    let (char_code, forced_ctrl) = if 0x01 <= key.char && key.char <= 0x1a {
        (key.char + 0x61 - 1, true)
    } else {
        (key.char, false)
    };
    let modifiers = if forced_ctrl {
        Modifiers { shift: false, control: true, alt: false, meta: false }
    } else {
        empty
    };
    if char_code == 0x20 {
        Some((Key::Character(char_to_string(' ')), Code::Space, modifiers))
    } else if char_code < 0x80 {
        let ch = char_code as char;
        match character_code(ch) {
            Some(code) => Some((Key::Character(char_to_string(ch)), code, modifiers)),
            None => None,
        }
    } else {
        None
    }
}

/// The engine's modifier flags for a key's modifiers.
pub fn modifiers_from_key(key: &RawKey) -> (m: Modifiers)
    ensures
        m == mods_spec(key.modifiers),
{
    Modifiers {
        shift: key.modifiers.shift,
        control: key.modifiers.ctrl,
        alt: key.modifiers.alt,
        meta: key.modifiers.meta,
    }
}

/// Map a key byte to a (key-down, key-up) pair of engine events carrying
/// the same key and code, with the key's modifiers plus any it implies.
pub fn map_keyboard_event(key: &RawKey) -> (r: Option<(KeyboardEvent, KeyboardEvent)>)
    ensures
        (named_byte(key.char) is Some || raw_key_spec(key.char) is Some) <==> r is Some,
        r matches Some(p) ==> {
            &&& p.0.state == KeyState::Down
            &&& p.1.state == KeyState::Up
            &&& p.1.code == p.0.code
            &&& p.1.modifiers == p.0.modifiers
            &&& key_name(p.1.key) == key_name(p.0.key)
            &&& key_text(p.1.key) == key_text(p.0.key)
            &&& (named_byte(key.char) matches Some(nc) ==> key_name(p.0.key) == Some(nc.0)
                && p.0.code == nc.1 && p.0.modifiers == mods_spec(key.modifiers))
            &&& (named_byte(key.char) is None ==> key_text(p.0.key) is Some
                && raw_key_spec(key.char) == Some((key_text(p.0.key).unwrap(), p.0.code, raw_key_spec(key.char).unwrap().2))
                && p.0.modifiers == raw_key_spec(key.char).unwrap().2.union(mods_spec(key.modifiers)))
        },
{
    let (logical_key, code, extra) = match map_logical_key(key) {
        Some(t) => t,
        None => return None,
    };
    let modifiers = extra.or(modifiers_from_key(key));
    let up_key = match &logical_key {
        Key::Named(n) => Key::Named(*n),
        Key::Character(s) => Key::Character(s.clone()),
    };
    let down = KeyboardEvent { state: KeyState::Down, key: logical_key, code, modifiers };
    let up = KeyboardEvent { state: KeyState::Up, key: up_key, code, modifiers };
    Some((down, up))
}

} // verus!
