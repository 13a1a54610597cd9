//! Translation of terminal keys into key-down/key-up events for the browser
//! engine.

use vstd::prelude::*;

use crate::keys::{Code, Key, KeyState, KeyboardEvent, Modifiers, NamedKey};
use crate::text::char_to_string;

verus! {

/// Modifier keys held with a terminal key.
#[derive(Clone, Copy, Debug, PartialEq, Eq, Structural)]
pub struct KeyMods {
    pub alt: bool,
    pub ctrl: bool,
    pub meta: bool,
    pub shift: bool,
}

/// A terminal key as the input parser reports it.
#[derive(Clone, Copy, Debug, PartialEq, Eq, Structural)]
pub enum LogicalKey {
    Tab,
    Enter,
    Escape,
    Backspace,
    Delete,
    ArrowUp,
    ArrowDown,
    ArrowRight,
    ArrowLeft,
    Char(char),
}

/// A terminal key with its modifiers.
#[derive(Clone, Copy, Debug, PartialEq, Eq, Structural)]
pub struct TerminalKey {
    pub logical: LogicalKey,
    pub modifiers: KeyMods,
}

/// ASCII lower-casing of a character (other characters are unchanged).
pub open spec fn ascii_lower(c: char) -> char {
    if 'A' <= c && c <= 'Z' { ((c as u32) + 32) as char } else { c }
}

/// The physical key of a (lower-cased) character on a US keyboard.
pub open spec fn code_of_lower(c: char) -> Option<Code> {
    if c == 'a' { Some(Code::KeyA) }
    else if c == 'b' { Some(Code::KeyB) }
    else if c == 'c' { Some(Code::KeyC) }
    else if c == 'd' { Some(Code::KeyD) }
    else if c == 'e' { Some(Code::KeyE) }
    else if c == 'f' { Some(Code::KeyF) }
    else if c == 'g' { Some(Code::KeyG) }
    else if c == 'h' { Some(Code::KeyH) }
    else if c == 'i' { Some(Code::KeyI) }
    else if c == 'j' { Some(Code::KeyJ) }
    else if c == 'k' { Some(Code::KeyK) }
    else if c == 'l' { Some(Code::KeyL) }
    else if c == 'm' { Some(Code::KeyM) }
    else if c == 'n' { Some(Code::KeyN) }
    else if c == 'o' { Some(Code::KeyO) }
    else if c == 'p' { Some(Code::KeyP) }
    else if c == 'q' { Some(Code::KeyQ) }
    else if c == 'r' { Some(Code::KeyR) }
    else if c == 's' { Some(Code::KeyS) }
    else if c == 't' { Some(Code::KeyT) }
    else if c == 'u' { Some(Code::KeyU) }
    else if c == 'v' { Some(Code::KeyV) }
    else if c == 'w' { Some(Code::KeyW) }
    else if c == 'x' { Some(Code::KeyX) }
    else if c == 'y' { Some(Code::KeyY) }
    else if c == 'z' { Some(Code::KeyZ) }
    else if c == '0' { Some(Code::Digit0) }
    else if c == '1' { Some(Code::Digit1) }
    else if c == '2' { Some(Code::Digit2) }
    else if c == '3' { Some(Code::Digit3) }
    else if c == '4' { Some(Code::Digit4) }
    else if c == '5' { Some(Code::Digit5) }
    else if c == '6' { Some(Code::Digit6) }
    else if c == '7' { Some(Code::Digit7) }
    else if c == '8' { Some(Code::Digit8) }
    else if c == '9' { Some(Code::Digit9) }
    else if c == '-' { Some(Code::Minus) }
    else if c == '=' { Some(Code::Equal) }
    else if c == '[' { Some(Code::BracketLeft) }
    else if c == ']' { Some(Code::BracketRight) }
    else if c == '\\' { Some(Code::Backslash) }
    else if c == ';' { Some(Code::Semicolon) }
    else if c == '\'' { Some(Code::Quote) }
    else if c == ',' { Some(Code::Comma) }
    else if c == '.' { Some(Code::Period) }
    else if c == '/' { Some(Code::Slash) }
    else if c == '`' { Some(Code::Backquote) }
    else { None }
}

/// The physical key of a character: letters (either case), digits, space
/// and the US punctuation keys.
pub open spec fn character_code_spec(c: char) -> Option<Code> {
    if ascii_lower(c) == ' ' { Some(Code::Space) } else { code_of_lower(ascii_lower(c)) }
}

pub fn to_ascii_lowercase(c: char) -> (l: char)
    ensures
        l == ascii_lower(c),
{
    if 'A' <= c && c <= 'Z' {
        ((c as u8) + 32) as char
    } else {
        c
    }
}

pub(crate) fn code_for_lower(c: char) -> (code: Option<Code>)
    ensures
        code == code_of_lower(c),
{
    match c {
        'a' => Some(Code::KeyA),
        'b' => Some(Code::KeyB),
        'c' => Some(Code::KeyC),
        'd' => Some(Code::KeyD),
        'e' => Some(Code::KeyE),
        'f' => Some(Code::KeyF),
        'g' => Some(Code::KeyG),
        'h' => Some(Code::KeyH),
        'i' => Some(Code::KeyI),
        'j' => Some(Code::KeyJ),
        'k' => Some(Code::KeyK),
        'l' => Some(Code::KeyL),
        'm' => Some(Code::KeyM),
        'n' => Some(Code::KeyN),
        'o' => Some(Code::KeyO),
        'p' => Some(Code::KeyP),
        'q' => Some(Code::KeyQ),
        'r' => Some(Code::KeyR),
        's' => Some(Code::KeyS),
        't' => Some(Code::KeyT),
        'u' => Some(Code::KeyU),
        'v' => Some(Code::KeyV),
        'w' => Some(Code::KeyW),
        'x' => Some(Code::KeyX),
        'y' => Some(Code::KeyY),
        'z' => Some(Code::KeyZ),
        '0' => Some(Code::Digit0),
        '1' => Some(Code::Digit1),
        '2' => Some(Code::Digit2),
        '3' => Some(Code::Digit3),
        '4' => Some(Code::Digit4),
        '5' => Some(Code::Digit5),
        '6' => Some(Code::Digit6),
        '7' => Some(Code::Digit7),
        '8' => Some(Code::Digit8),
        '9' => Some(Code::Digit9),
        '-' => Some(Code::Minus),
        '=' => Some(Code::Equal),
        '[' => Some(Code::BracketLeft),
        ']' => Some(Code::BracketRight),
        '\\' => Some(Code::Backslash),
        ';' => Some(Code::Semicolon),
        '\'' => Some(Code::Quote),
        ',' => Some(Code::Comma),
        '.' => Some(Code::Period),
        '/' => Some(Code::Slash),
        '`' => Some(Code::Backquote),
        _ => None,
    }
}

/// The physical key code of a character, if it has one.
pub fn character_code(ch: char) -> (code: Option<Code>)
    ensures
        code == character_code_spec(ch),
{
    let lower = to_ascii_lowercase(ch);
    if lower == ' ' {
        Some(Code::Space)
    } else {
        code_for_lower(lower)
    }
}

/// The engine's modifier flags for the terminal's modifiers.
pub open spec fn mods_spec(m: KeyMods) -> Modifiers {
    Modifiers { shift: m.shift, control: m.ctrl, alt: m.alt, meta: m.meta }
}

/// The engine's modifier flags for the terminal's modifiers.
pub fn modifiers_from_mods(mods: &KeyMods) -> (m: Modifiers)
    ensures
        m == mods_spec(*mods),
{
    let mut m = Modifiers::empty();
    if mods.alt {
        m.alt = true;
    }
    if mods.ctrl {
        m.control = true;
    }
    if mods.meta {
        m.meta = true;
    }
    if mods.shift {
        m.shift = true;
    }
    m
}

/// The named engine key and code of a non-character terminal key.
pub open spec fn named_of(k: LogicalKey) -> Option<(NamedKey, Code)> {
    match k {
        LogicalKey::Tab => Some((NamedKey::Tab, Code::Tab)),
        LogicalKey::Enter => Some((NamedKey::Enter, Code::Enter)),
        LogicalKey::Escape => Some((NamedKey::Escape, Code::Escape)),
        LogicalKey::Backspace => Some((NamedKey::Backspace, Code::Backspace)),
        LogicalKey::Delete => Some((NamedKey::Backspace, Code::Backspace)),
        LogicalKey::ArrowUp => Some((NamedKey::ArrowUp, Code::ArrowUp)),
        LogicalKey::ArrowDown => Some((NamedKey::ArrowDown, Code::ArrowDown)),
        LogicalKey::ArrowRight => Some((NamedKey::ArrowRight, Code::ArrowRight)),
        LogicalKey::ArrowLeft => Some((NamedKey::ArrowLeft, Code::ArrowLeft)),
        LogicalKey::Char(_) => None,
    }
}

/// `key` is the engine key for `k`: the named key for a named terminal key
/// (Delete is sent as Backspace), the character's text for a character.
pub open spec fn engine_key_matches(key: Key, k: LogicalKey) -> bool {
    match k {
        LogicalKey::Char(c) => key matches Key::Character(s) && s@ == seq![c],
        _ => key matches Key::Named(n) && n == named_of(k).unwrap().0,
    }
}

/// The code and extra modifiers `map_logical_key` gives a terminal key, or
/// `None` when the key has no engine equivalent (a character without a
/// physical key code). Control with a letter adds the control flag.
pub open spec fn logical_key_spec(key: TerminalKey) -> Option<(Code, Modifiers)> {
    match key.logical {
        LogicalKey::Char(c) => match character_code_spec(c) {
            Some(code) => Some((
                code,
                if key.modifiers.ctrl && is_ascii_alpha(c) {
                    Modifiers { control: true, ..Modifiers::none() }
                } else {
                    Modifiers::none()
                },
            )),
            None => None,
        },
        _ => Some((named_of(key.logical).unwrap().1, Modifiers::none())),
    }
}

pub open spec fn is_ascii_alpha(c: char) -> bool {
    ('a' <= c && c <= 'z') || ('A' <= c && c <= 'Z')
}

/// The engine key, code and extra modifiers for a terminal key.
pub fn map_logical_key(key: &TerminalKey) -> (r: Option<(Key, Code, Modifiers)>)
    ensures
        logical_key_spec(*key) is None <==> r is None,
        r matches Some(t) ==> {
            &&& engine_key_matches(t.0, key.logical)
            &&& logical_key_spec(*key) == Some((t.1, t.2))
        },
{
    let empty = Modifiers::empty();
    match key.logical {
        LogicalKey::Tab => Some((Key::Named(NamedKey::Tab), Code::Tab, empty)),
        LogicalKey::Enter => Some((Key::Named(NamedKey::Enter), Code::Enter, empty)),
        LogicalKey::Escape => Some((Key::Named(NamedKey::Escape), Code::Escape, empty)),
        LogicalKey::Backspace | LogicalKey::Delete => {
            Some((Key::Named(NamedKey::Backspace), Code::Backspace, empty))
        },
        LogicalKey::ArrowUp => Some((Key::Named(NamedKey::ArrowUp), Code::ArrowUp, empty)),
        LogicalKey::ArrowDown => Some((Key::Named(NamedKey::ArrowDown), Code::ArrowDown, empty)),
        LogicalKey::ArrowRight => Some((Key::Named(NamedKey::ArrowRight), Code::ArrowRight, empty)),
        LogicalKey::ArrowLeft => Some((Key::Named(NamedKey::ArrowLeft), Code::ArrowLeft, empty)),
        LogicalKey::Char(c) => {
            let alpha = ('a' <= c && c <= 'z') || ('A' <= c && c <= 'Z');
            let ctrl_mod = if key.modifiers.ctrl && alpha {
                Modifiers { shift: false, control: true, alt: false, meta: false }
            } else {
                empty
            };
            match character_code(c) {
                Some(code) => Some((Key::Character(char_to_string(c)), code, ctrl_mod)),
                None => None,
            }
        },
    }
}

/// Map a terminal key to a (key-down, key-up) pair of engine events, or
/// `None` for keys without an engine equivalent. Both events carry the same
/// key and code, with the terminal's modifiers plus any the key implies.
pub fn map_keyboard_event(key: &TerminalKey) -> (r: Option<(KeyboardEvent, KeyboardEvent)>)
    ensures
        logical_key_spec(*key) is None <==> r is None,
        r matches Some(p) ==> {
            &&& p.0.state == KeyState::Down
            &&& p.1.state == KeyState::Up
            &&& engine_key_matches(p.0.key, key.logical)
            &&& engine_key_matches(p.1.key, key.logical)
            &&& p.0.code == logical_key_spec(*key).unwrap().0
            &&& p.1.code == p.0.code
            &&& p.0.modifiers == logical_key_spec(*key).unwrap().1.union(mods_spec(key.modifiers))
            &&& p.1.modifiers == p.0.modifiers
        },
{
    let (logical_key, code, extra_mods) = match map_logical_key(key) {
        Some(t) => t,
        None => return None,
    };
    let mods = extra_mods.or(modifiers_from_mods(&key.modifiers));
    let up_key = match &logical_key {
        Key::Named(n) => Key::Named(*n),
        Key::Character(s) => Key::Character(s.clone()),
    };
    let down = KeyboardEvent { state: KeyState::Down, key: logical_key, code, modifiers: mods };
    let up = KeyboardEvent { state: KeyState::Up, key: up_key, code, modifiers: mods };
    Some((down, up))
}

/// Every named terminal key reaches the engine as the key of the same
/// name, with the code of that name and no modifier of its own: Up as
/// ArrowUp, Down as ArrowDown, Left as ArrowLeft, Right as ArrowRight, and
/// so on; only Delete is sent as Backspace.
pub proof fn lemma_named_keys_keep_their_names(k: TerminalKey, key: Key)
    ensures
        k.logical is Tab ==> logical_key_spec(k) == Some((Code::Tab, (Modifiers { shift: false, control: false, alt: false, meta: false }))) && (engine_key_matches(
            key,
            k.logical,
        ) <==> key == Key::Named(NamedKey::Tab)),
        k.logical is Enter ==> logical_key_spec(k) == Some((Code::Enter, (Modifiers { shift: false, control: false, alt: false, meta: false }))) && (engine_key_matches(
            key,
            k.logical,
        ) <==> key == Key::Named(NamedKey::Enter)),
        k.logical is Escape ==> logical_key_spec(k) == Some((Code::Escape, (Modifiers { shift: false, control: false, alt: false, meta: false }))) && (engine_key_matches(
            key,
            k.logical,
        ) <==> key == Key::Named(NamedKey::Escape)),
        k.logical is Backspace ==> logical_key_spec(k) == Some((Code::Backspace, (Modifiers { shift: false, control: false, alt: false, meta: false }))) && (engine_key_matches(
            key,
            k.logical,
        ) <==> key == Key::Named(NamedKey::Backspace)),
        k.logical is Delete ==> logical_key_spec(k) == Some((Code::Backspace, (Modifiers { shift: false, control: false, alt: false, meta: false }))) && (engine_key_matches(
            key,
            k.logical,
        ) <==> key == Key::Named(NamedKey::Backspace)),
        k.logical is ArrowUp ==> logical_key_spec(k) == Some((Code::ArrowUp, (Modifiers { shift: false, control: false, alt: false, meta: false }))) && (engine_key_matches(
            key,
            k.logical,
        ) <==> key == Key::Named(NamedKey::ArrowUp)),
        k.logical is ArrowDown ==> logical_key_spec(k) == Some((Code::ArrowDown, (Modifiers { shift: false, control: false, alt: false, meta: false }))) && (engine_key_matches(
            key,
            k.logical,
        ) <==> key == Key::Named(NamedKey::ArrowDown)),
        k.logical is ArrowRight ==> logical_key_spec(k) == Some((Code::ArrowRight, (Modifiers { shift: false, control: false, alt: false, meta: false }))) && (engine_key_matches(
            key,
            k.logical,
        ) <==> key == Key::Named(NamedKey::ArrowRight)),
        k.logical is ArrowLeft ==> logical_key_spec(k) == Some((Code::ArrowLeft, (Modifiers { shift: false, control: false, alt: false, meta: false }))) && (engine_key_matches(
            key,
            k.logical,
        ) <==> key == Key::Named(NamedKey::ArrowLeft)),
{
}

/// Characters reach the engine with the physical key a US keyboard types
/// them on: each letter, in either case, on its letter key, digits on their
/// digit keys, space and the punctuation keys on theirs; characters
/// outside ASCII have no key code.
pub proof fn lemma_character_codes()
    ensures
        character_code_spec('a') == Some(Code::KeyA) && character_code_spec('A') == Some(Code::KeyA),
        character_code_spec('b') == Some(Code::KeyB) && character_code_spec('B') == Some(Code::KeyB),
        character_code_spec('c') == Some(Code::KeyC) && character_code_spec('C') == Some(Code::KeyC),
        character_code_spec('d') == Some(Code::KeyD) && character_code_spec('D') == Some(Code::KeyD),
        character_code_spec('e') == Some(Code::KeyE) && character_code_spec('E') == Some(Code::KeyE),
        character_code_spec('f') == Some(Code::KeyF) && character_code_spec('F') == Some(Code::KeyF),
        character_code_spec('g') == Some(Code::KeyG) && character_code_spec('G') == Some(Code::KeyG),
        character_code_spec('h') == Some(Code::KeyH) && character_code_spec('H') == Some(Code::KeyH),
        character_code_spec('i') == Some(Code::KeyI) && character_code_spec('I') == Some(Code::KeyI),
        character_code_spec('j') == Some(Code::KeyJ) && character_code_spec('J') == Some(Code::KeyJ),
        character_code_spec('k') == Some(Code::KeyK) && character_code_spec('K') == Some(Code::KeyK),
        character_code_spec('l') == Some(Code::KeyL) && character_code_spec('L') == Some(Code::KeyL),
        character_code_spec('m') == Some(Code::KeyM) && character_code_spec('M') == Some(Code::KeyM),
        character_code_spec('n') == Some(Code::KeyN) && character_code_spec('N') == Some(Code::KeyN),
        character_code_spec('o') == Some(Code::KeyO) && character_code_spec('O') == Some(Code::KeyO),
        character_code_spec('p') == Some(Code::KeyP) && character_code_spec('P') == Some(Code::KeyP),
        character_code_spec('q') == Some(Code::KeyQ) && character_code_spec('Q') == Some(Code::KeyQ),
        character_code_spec('r') == Some(Code::KeyR) && character_code_spec('R') == Some(Code::KeyR),
        character_code_spec('s') == Some(Code::KeyS) && character_code_spec('S') == Some(Code::KeyS),
        character_code_spec('t') == Some(Code::KeyT) && character_code_spec('T') == Some(Code::KeyT),
        character_code_spec('u') == Some(Code::KeyU) && character_code_spec('U') == Some(Code::KeyU),
        character_code_spec('v') == Some(Code::KeyV) && character_code_spec('V') == Some(Code::KeyV),
        character_code_spec('w') == Some(Code::KeyW) && character_code_spec('W') == Some(Code::KeyW),
        character_code_spec('x') == Some(Code::KeyX) && character_code_spec('X') == Some(Code::KeyX),
        character_code_spec('y') == Some(Code::KeyY) && character_code_spec('Y') == Some(Code::KeyY),
        character_code_spec('z') == Some(Code::KeyZ) && character_code_spec('Z') == Some(Code::KeyZ),
        character_code_spec('0') == Some(Code::Digit0) && character_code_spec('1') == Some(Code::Digit1) && character_code_spec('2') == Some(Code::Digit2) && character_code_spec('3') == Some(Code::Digit3) && character_code_spec('4') == Some(Code::Digit4),
        character_code_spec('5') == Some(Code::Digit5) && character_code_spec('6') == Some(Code::Digit6) && character_code_spec('7') == Some(Code::Digit7) && character_code_spec('8') == Some(Code::Digit8) && character_code_spec('9') == Some(Code::Digit9),
        character_code_spec(' ') == Some(Code::Space) && character_code_spec('-') == Some(Code::Minus) && character_code_spec('=') == Some(Code::Equal) && character_code_spec('[') == Some(Code::BracketLeft) && character_code_spec(']') == Some(Code::BracketRight) && character_code_spec('\\') == Some(Code::Backslash),
        character_code_spec(';') == Some(Code::Semicolon) && character_code_spec('\'') == Some(Code::Quote) && character_code_spec(',') == Some(Code::Comma) && character_code_spec('.') == Some(Code::Period) && character_code_spec('/') == Some(Code::Slash) && character_code_spec('`') == Some(Code::Backquote),
        forall|c: char| #[trigger] character_code_spec(c) is Some ==> (c as u32) < 0x80,
{
}

/// A named key or a character with a key code carries the terminal's
/// modifiers unchanged (Shift, Control, Alt, Meta), and Control with a
/// letter also sets the control flag the letter needs.
pub proof fn lemma_modifiers_carried(k: TerminalKey)
    requires
        logical_key_spec(k) is Some,
    ensures
        logical_key_spec(k).unwrap().1.union(mods_spec(k.modifiers)) == (Modifiers {
            shift: k.modifiers.shift,
            control: k.modifiers.ctrl,
            alt: k.modifiers.alt,
            meta: k.modifiers.meta,
        }),
{
}

} // verus!
