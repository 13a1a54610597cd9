use carboxyl::keys::{Key, Modifiers, NamedKey};
use carboxyl::layout::Rect;
use carboxyl::color::TerminalColor;
use carboxyl::nav_widget::{bar_colors, col_to_byte_offset, NavAction, NavState, NavWidget, NavigationCapability, URL_FIELD_START};

fn alt() -> Modifiers {
    Modifiers { shift: false, control: false, alt: true, meta: false }
}

fn key(c: &str) -> Key {
    Key::Character(c.to_string())
}

fn focused(url: &str, col_offset: u16) -> NavState {
    let mut st = NavState::new();
    st.push(url.to_string(), NavigationCapability { back: false, forward: false });
    let action = st.mouse_down(URL_FIELD_START + col_offset, 0);
    assert!(matches!(action, NavAction::Ignore));
    st
}

#[test]
fn starts_blank_and_unfocused() {
    let st = NavState::new();
    assert_eq!(st.displayed_url(), "about:blank");
    assert_eq!(st.cursor, None);
    assert_eq!(st.staged, None);
}

#[test]
fn unfocused_alt_arrows_navigate_history() {
    let mut st = NavState::new();
    assert!(matches!(st.keyboard(&Key::Named(NamedKey::ArrowLeft), alt()), NavAction::GoBack));
    assert!(matches!(st.keyboard(&Key::Named(NamedKey::ArrowRight), alt()), NavAction::GoForward));
    assert!(matches!(st.keyboard(&Key::Named(NamedKey::ArrowLeft), Modifiers::empty()), NavAction::Forward));
    assert!(matches!(st.keyboard(&key("x"), Modifiers::empty()), NavAction::Forward));
}

#[test]
fn click_on_field_focuses_at_column() {
    let st = focused("about:blank", 2);
    assert_eq!(st.cursor, Some(2));
    assert_eq!(st.staged.as_deref(), Some("about:blank"));
}

#[test]
fn buttons_navigate() {
    let mut st = NavState::new();
    assert!(matches!(st.mouse_down(1, 0), NavAction::GoBack));
    assert!(matches!(st.mouse_down(4, 0), NavAction::GoForward));
    assert!(matches!(st.mouse_down(7, 0), NavAction::Refresh));
    assert!(matches!(st.mouse_down(7, 3), NavAction::Forward));
}

#[test]
fn typing_inserts_at_caret() {
    let mut st = focused("about:blank", 2);
    assert!(matches!(st.keyboard(&key("x"), Modifiers::empty()), NavAction::Ignore));
    assert_eq!(st.displayed_url(), "abxout:blank");
    assert_eq!(st.cursor, Some(3));
}

#[test]
fn typing_then_backspace_restores_text_and_caret() {
    let mut st = focused("héllo", 2);
    let before = st.displayed_url().to_string();
    let caret = st.cursor;
    st.keyboard(&key("ß"), Modifiers::empty());
    assert_eq!(st.displayed_url(), "héßllo");
    st.keyboard(&Key::Named(NamedKey::Backspace), Modifiers::empty());
    assert_eq!(st.displayed_url(), before);
    assert_eq!(st.cursor, caret);
}

#[test]
fn arrows_move_by_whole_characters() {
    let mut st = focused("héllo", 1);
    assert_eq!(st.cursor, Some(1));
    st.keyboard(&Key::Named(NamedKey::ArrowRight), Modifiers::empty());
    assert_eq!(st.cursor, Some(3));
    st.keyboard(&Key::Named(NamedKey::ArrowLeft), Modifiers::empty());
    assert_eq!(st.cursor, Some(1));
    st.keyboard(&Key::Named(NamedKey::ArrowDown), Modifiers::empty());
    assert_eq!(st.cursor, Some(6));
    st.keyboard(&Key::Named(NamedKey::ArrowUp), Modifiers::empty());
    assert_eq!(st.cursor, Some(0));
}

#[test]
fn delete_removes_character_after_caret() {
    let mut st = focused("héllo", 1);
    st.keyboard(&Key::Named(NamedKey::Delete), Modifiers::empty());
    assert_eq!(st.displayed_url(), "hllo");
    assert_eq!(st.cursor, Some(1));
}

#[test]
fn control_characters_are_not_inserted() {
    let mut st = focused("ab", 1);
    st.keyboard(&key("\u{7}"), Modifiers::empty());
    assert_eq!(st.displayed_url(), "ab");
}

#[test]
fn enter_submits_and_unfocuses() {
    let mut st = focused("example.com", 0);
    st.keyboard(&key("x"), Modifiers::empty());
    match st.keyboard(&Key::Named(NamedKey::Enter), Modifiers::empty()) {
        NavAction::GoTo(raw) => assert_eq!(raw, "xexample.com"),
        other => panic!("unexpected {:?}", other),
    }
    assert_eq!(st.cursor, None);
    assert_eq!(st.displayed_url(), "example.com");
}

#[test]
fn release_below_bar_unfocuses() {
    let mut st = focused("ab", 1);
    assert!(matches!(st.mouse_up(3, 0), NavAction::Ignore));
    assert_eq!(st.cursor, Some(1));
    assert!(matches!(st.mouse_up(3, 2), NavAction::Forward));
    assert_eq!(st.cursor, None);
}

#[test]
fn push_while_editing_moves_caret_to_end_of_new_url() {
    let mut st = focused("ab", 1);
    st.push("https://x.org/".to_string(), NavigationCapability { back: true, forward: false });
    assert_eq!(st.displayed_url(), "https://x.org/");
    assert_eq!(st.cursor, Some(14));
    assert_eq!(st.staged, None);
}

#[test]
fn col_to_byte_offset_counts_columns() {
    assert_eq!(col_to_byte_offset("héllo", 2), 3);
    assert_eq!(col_to_byte_offset("ab", 10), 2);
    assert_eq!(col_to_byte_offset("", 0), 0);
}

#[test]
fn cursor_position_follows_caret() {
    let st = focused("about:blank", 3);
    let w = NavWidget::new(&st);
    assert_eq!(w.cursor_position(Rect::new(0, 0, 80, 1)), Some((URL_FIELD_START + 3, 0)));
    assert_eq!(w.cursor_position(Rect::new(0, 0, 5, 1)), Some((4, 0)));
    let unfocused = NavState::new();
    assert_eq!(NavWidget::new(&unfocused).cursor_position(Rect::new(0, 0, 80, 1)), None);
}

#[test]
fn capability_getters() {
    let c = NavigationCapability { back: true, forward: false };
    assert!(c.can_go_back());
    assert!(!c.can_go_forward());
}

#[test]
fn right_then_left_returns_the_caret() {
    let mut st = focused("aé日b", 1);
    let caret = st.cursor;
    st.keyboard(&Key::Named(NamedKey::ArrowRight), Modifiers::empty());
    assert_eq!(st.cursor, Some(3));
    st.keyboard(&Key::Named(NamedKey::ArrowLeft), Modifiers::empty());
    assert_eq!(st.cursor, caret);
}

#[test]
fn dropping_a_differing_edit_moves_the_caret_to_the_end() {
    let mut st = focused("aé", 2);
    let none = Modifiers::empty();
    st.keyboard(&Key::Named(NamedKey::ArrowUp), none);
    st.keyboard(&Key::Named(NamedKey::Delete), none);
    st.keyboard(&Key::Named(NamedKey::ArrowRight), none);
    st.keyboard(&key("a"), none);
    st.keyboard(&Key::Named(NamedKey::ArrowLeft), none);
    assert_eq!(st.displayed_url(), "éa");
    assert_eq!(st.cursor, Some(2));
    // the same URL committed again: the differing edit is dropped and the
    // caret goes to the end of the URL
    st.push("aé".to_string(), NavigationCapability { back: false, forward: false });
    assert_eq!(st.displayed_url(), "aé");
    assert_eq!(st.cursor, Some(3));
    assert!(st.caret_in_text());
}

#[test]
fn committing_the_shown_url_keeps_the_caret() {
    let mut st = focused("ab", 1);
    st.push("ab".to_string(), NavigationCapability { back: true, forward: false });
    assert_eq!(st.cursor, Some(1));
}

#[test]
fn only_keys_that_edit_at_the_caret_need_a_boundary() {
    let st = NavState {
        url: "aé".to_string(),
        staged: None,
        nav: NavigationCapability { back: false, forward: false },
        cursor: Some(2),
        history_meta: false,
    };
    assert!(!st.caret_in_text());
    assert!(!st.accepts_key(&Key::Named(NamedKey::ArrowLeft)));
    assert!(!st.accepts_key(&Key::Named(NamedKey::Backspace)));
    assert!(!st.accepts_key(&key("x")));
    assert!(st.accepts_key(&key("\u{7}")));
    assert!(st.accepts_key(&Key::Named(NamedKey::Enter)));
    assert!(st.accepts_key(&Key::Named(NamedKey::ArrowUp)));
    let mut st = st;
    match st.keyboard(&Key::Named(NamedKey::Enter), Modifiers::empty()) {
        NavAction::GoTo(raw) => assert_eq!(raw, "aé"),
        other => panic!("unexpected {:?}", other),
    }
    assert_eq!(st.cursor, None);
}

#[test]
fn buttons_follow_the_history() {
    let mut st = NavState::new();
    st.push("https://a.org/".to_string(), NavigationCapability { back: true, forward: false });
    let b = NavWidget::new(&st).buttons();
    assert_eq!(b, vec![("\u{2039}".to_string(), true), ("\u{203a}".to_string(), false), ("\u{21bb}".to_string(), true)]);
    assert_eq!(bar_colors(true), (TerminalColor::Black, TerminalColor::White));
    assert_eq!(bar_colors(false), (TerminalColor::DarkGray, TerminalColor::White));
}

#[test]
fn meta_navigates_history_where_asked_for() {
    let meta = Modifiers { shift: false, control: false, alt: false, meta: true };
    let mut st = NavState::new();
    st.history_meta = true;
    assert!(matches!(st.keyboard(&Key::Named(NamedKey::ArrowLeft), meta), NavAction::GoBack));
    assert!(matches!(st.keyboard(&Key::Named(NamedKey::ArrowRight), meta), NavAction::GoForward));
    assert!(matches!(st.keyboard(&Key::Named(NamedKey::ArrowLeft), alt()), NavAction::Forward));
    let mut plain = NavState::new();
    assert!(matches!(plain.keyboard(&Key::Named(NamedKey::ArrowLeft), meta), NavAction::Forward));
}

#[test]
fn a_click_on_the_field_puts_the_cursor_on_the_clicked_column() {
    let mut st = NavState::new();
    st.push("https://a.org/".to_string(), NavigationCapability { back: false, forward: false });
    assert_eq!(NavWidget::new(&st).cursor_position(Rect::new(0, 0, 80, 1)), None);
    for offset in [0u16, 3, 14] {
        let col = URL_FIELD_START + offset;
        assert!(matches!(st.mouse_down(col, 0), NavAction::Ignore));
        assert_eq!(NavWidget::new(&st).cursor_position(Rect::new(0, 0, 80, 1)), Some((col, 0)));
    }
}
