use carboxyl::input::{
    Event, MouseButton, MouseButtonState, MouseEventKind, TermEvent, TermKeyCode, TermKeyEvent,
    TermModifiers, TermMouseButton, TermMouseEvent,
};
use carboxyl::keyboard::{
    character_code, map_keyboard_event, map_logical_key, modifiers_from_mods, to_ascii_lowercase,
    KeyMods, LogicalKey, TerminalKey,
};
use carboxyl::keys::{Code, Key, KeyState, Modifiers, NamedKey};
use carboxyl::raw_keys::{self, RawKey};

fn no_mods() -> KeyMods {
    KeyMods { alt: false, ctrl: false, meta: false, shift: false }
}

fn term_mods() -> TermModifiers {
    TermModifiers { shift: false, control: false, alt: false, super_key: false, hyper: false, meta: false }
}

#[test]
fn character_codes_of_a_us_keyboard() {
    assert_eq!(character_code('a'), Some(Code::KeyA));
    assert_eq!(character_code('Z'), Some(Code::KeyZ));
    assert_eq!(character_code('7'), Some(Code::Digit7));
    assert_eq!(character_code(' '), Some(Code::Space));
    assert_eq!(character_code('`'), Some(Code::Backquote));
    assert_eq!(character_code('é'), None);
    assert_eq!(character_code('!'), None);
    assert_eq!(to_ascii_lowercase('Q'), 'q');
    assert_eq!(to_ascii_lowercase('ß'), 'ß');
}

#[test]
fn delete_is_sent_as_backspace() {
    let k = TerminalKey { logical: LogicalKey::Delete, modifiers: no_mods() };
    let (key, code, mods) = map_logical_key(&k).unwrap();
    assert!(matches!(key, Key::Named(NamedKey::Backspace)));
    assert_eq!(code, Code::Backspace);
    assert_eq!(mods, Modifiers::empty());
}

#[test]
fn ctrl_letter_carries_control() {
    let k = TerminalKey { logical: LogicalKey::Char('x'), modifiers: KeyMods { ctrl: true, ..no_mods() } };
    let (down, up) = map_keyboard_event(&k).unwrap();
    assert_eq!(down.state, KeyState::Down);
    assert_eq!(up.state, KeyState::Up);
    assert_eq!(down.code, Code::KeyX);
    assert!(down.modifiers.control);
    assert!(matches!(&down.key, Key::Character(s) if s == "x"));
    assert!(matches!(&up.key, Key::Character(s) if s == "x"));
}

#[test]
fn keys_without_code_produce_nothing() {
    let k = TerminalKey { logical: LogicalKey::Char('é'), modifiers: no_mods() };
    assert!(map_keyboard_event(&k).is_none());
}

#[test]
fn modifiers_are_copied() {
    let m = modifiers_from_mods(&KeyMods { alt: true, ctrl: false, meta: true, shift: true });
    assert_eq!(m, Modifiers { shift: true, control: false, alt: true, meta: true });
}

#[test]
fn raw_bytes_map_to_keys() {
    let r = |b: u8| RawKey { char: b, modifiers: no_mods() };
    let (key, code, _) = raw_keys::map_logical_key(&r(0x13)).unwrap();
    assert!(matches!(key, Key::Named(NamedKey::ArrowRight)));
    assert_eq!(code, Code::ArrowRight);
    let (key, code, mods) = raw_keys::map_logical_key(&r(0x01)).unwrap();
    assert!(matches!(key, Key::Character(s) if s == "a"));
    assert_eq!(code, Code::KeyA);
    assert!(mods.control);
    assert!(raw_keys::map_logical_key(&r(0xc3)).is_none());
    assert!(raw_keys::map_keyboard_event(&r(b'q')).is_some());
    assert_eq!(raw_keys::character_code('m'), Some(Code::KeyM));
}

#[test]
fn ctrl_c_exits() {
    let ev = TermEvent::Key(TermKeyEvent { code: TermKeyCode::Char('c'), modifiers: TermModifiers { control: true, ..term_mods() } });
    let out = Event::from_crossterm(ev);
    assert_eq!(out.len(), 1);
    assert!(matches!(out[0], Event::Exit));
}

#[test]
fn keys_become_down_and_up() {
    let ev = TermEvent::Key(TermKeyEvent { code: TermKeyCode::Enter, modifiers: term_mods() });
    let out = Event::from_crossterm(ev);
    assert_eq!(out.len(), 2);
    assert!(matches!(&out[0], Event::Keyboard(k) if k.state == KeyState::Down && k.code == Code::Enter));
    assert!(matches!(&out[1], Event::Keyboard(k) if k.state == KeyState::Up));
    let other = TermEvent::Key(TermKeyEvent { code: TermKeyCode::Other, modifiers: term_mods() });
    assert!(Event::from_crossterm(other).is_empty());
}

#[test]
fn mouse_events_translate() {
    let m = |kind| TermEvent::Mouse(TermMouseEvent { kind, column: 4, row: 2, modifiers: term_mods() });
    let down = Event::from_crossterm(m(MouseEventKind::Down(TermMouseButton::Right)));
    assert!(matches!(
        down.as_slice(),
        [Event::MouseButton { button: MouseButton::Right, state: MouseButtonState::Down, row: 2, col: 4, .. }]
    ));
    let up = Event::from_crossterm(m(MouseEventKind::ScrollUp));
    assert!(matches!(up.as_slice(), [Event::Scroll { delta_x: 0, delta_y: 1, row: 2, col: 4, .. }]));
    let left = Event::from_crossterm(m(MouseEventKind::ScrollLeft));
    assert!(matches!(left.as_slice(), [Event::Scroll { delta_x: -1, delta_y: 0, .. }]));
    let drag = Event::from_crossterm(m(MouseEventKind::Drag(TermMouseButton::Left)));
    assert!(matches!(drag.as_slice(), [Event::MouseMove { row: 2, col: 4, .. }]));
    assert!(Event::from_crossterm(TermEvent::Resize(10, 10)).is_empty());
    assert!(Event::from_crossterm(TermEvent::Paste("x".to_string())).is_empty());
}
