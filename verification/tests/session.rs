use carboxyl::browser_widget::{BrowserFrame, Extent};
use carboxyl::events::DelegateEvent;
use carboxyl::input::{Event, MouseButton, MouseButtonState};
use carboxyl::keys::{Code, Key, KeyState, KeyboardEvent, Modifiers, NamedKey};
use carboxyl::nav_widget::{NavState, NavigationCapability, URL_FIELD_START};
use carboxyl::session::{
    dispatch_nav, handle_input, AppState, Drained, EngineStep, PendingOps, RuntimeEvent, ServoCommand, Session, WindowSize,
};
use carboxyl::nav_widget::NavAction;

fn window(cols: u32, rows: u32) -> WindowSize {
    WindowSize { cells: Extent { x: cols, y: rows }, browser: Extent { x: cols * 6, y: rows * 13 } }
}

fn key_event(key: Key, code: Code) -> KeyboardEvent {
    KeyboardEvent { state: KeyState::Down, key, code, modifiers: Modifiers::empty() }
}

#[test]
fn window_size_difference() {
    assert!(!window(80, 23).differs_from(&window(80, 23)));
    assert!(window(81, 23).differs_from(&window(80, 23)));
}

#[test]
fn new_state_is_running_and_dirty() {
    let app = AppState::new(window(80, 23));
    assert!(app.running);
    assert!(app.pending_paint);
    assert_eq!(app.nav.displayed_url(), "about:blank");
    assert!(app.frame.is_none());
}

#[test]
fn exit_stops_the_session() {
    let mut app = AppState::new(window(80, 23));
    let (reqs, scroll) = handle_input(Event::Exit, &mut app);
    assert!(reqs.is_empty());
    assert!(!scroll);
    assert!(!app.running);
}

#[test]
fn unfocused_key_goes_to_the_page() {
    let mut app = AppState::new(window(80, 23));
    let ev = key_event(Key::Character("a".to_string()), Code::KeyA);
    let (reqs, _) = handle_input(Event::Keyboard(ev), &mut app);
    assert_eq!(reqs.len(), 1);
    assert!(matches!(&reqs[0], ServoCommand::Key(k) if k.code == Code::KeyA));
}

#[test]
fn enter_in_the_bar_loads_the_url() {
    let mut app = AppState::new(window(80, 23));
    let (reqs, _) = handle_input(
        Event::MouseButton { button: MouseButton::Left, state: MouseButtonState::Down, row: 0, col: URL_FIELD_START, modifiers: Modifiers::empty() },
        &mut app,
    );
    assert!(reqs.is_empty());
    assert_eq!(app.pointer, Some((URL_FIELD_START, 0)));
    // replace the text: select-all is not offered, so edit "about:blank" into a URL
    for _ in 0..11 {
        handle_input(Event::Keyboard(key_event(Key::Named(NamedKey::Delete), Code::Backspace)), &mut app);
    }
    for c in "https://example.com".chars() {
        handle_input(Event::Keyboard(key_event(Key::Character(c.to_string()), Code::KeyA)), &mut app);
    }
    let (reqs, _) = handle_input(Event::Keyboard(key_event(Key::Named(NamedKey::Enter), Code::Enter)), &mut app);
    assert_eq!(reqs.len(), 1);
    assert!(matches!(&reqs[0], ServoCommand::Load(u) if u == "https://example.com/"));
}

#[test]
fn clicks_on_buttons_and_page() {
    let mut app = AppState::new(window(80, 23));
    let down = |col: u16, row: u16| Event::MouseButton {
        button: MouseButton::Left,
        state: MouseButtonState::Down,
        row,
        col,
        modifiers: Modifiers::empty(),
    };
    let (reqs, _) = handle_input(down(0, 0), &mut app);
    assert!(matches!(reqs.as_slice(), [ServoCommand::GoBack]));
    let (reqs, _) = handle_input(down(7, 0), &mut app);
    assert!(matches!(reqs.as_slice(), [ServoCommand::Reload]));
    let (reqs, _) = handle_input(down(9, 4), &mut app);
    assert!(matches!(
        reqs.as_slice(),
        [ServoCommand::Button { button: MouseButton::Left, state: MouseButtonState::Down, col: 9, row: 4 }]
    ));
}

#[test]
fn scroll_and_move_are_forwarded() {
    let mut app = AppState::new(window(80, 23));
    let (reqs, scroll) = handle_input(
        Event::Scroll { delta_x: 0, delta_y: -1, row: 3, col: 4, modifiers: Modifiers::empty() },
        &mut app,
    );
    assert!(scroll);
    assert!(matches!(reqs.as_slice(), [ServoCommand::Wheel { delta_x: 0, delta_y: -1, col: 4, row: 3 }]));
    let (reqs, scroll) = handle_input(Event::MouseMove { row: 5, col: 6, modifiers: Modifiers::empty() }, &mut app);
    assert!(!scroll);
    assert!(matches!(reqs.as_slice(), [ServoCommand::Move { col: 6, row: 5 }]));
    assert_eq!(app.pointer, Some((6, 5)));
}

#[test]
fn dispatch_drops_history_free_actions() {
    assert!(dispatch_nav(NavAction::Ignore).is_empty());
    assert!(dispatch_nav(NavAction::Forward).is_empty());
    assert!(matches!(dispatch_nav(NavAction::GoForward).as_slice(), [ServoCommand::GoForward]));
    assert!(dispatch_nav(NavAction::GoTo("http://[::1".to_string())).is_empty());
}

#[test]
fn resize_only_when_geometry_changes() {
    let mut app = AppState::new(window(80, 23));
    app.pending_paint = false;
    assert_eq!(app.apply_resize(window(80, 23)), None);
    assert!(!app.pending_paint);
    assert_eq!(app.apply_resize(window(100, 30)), Some(window(100, 30)));
    assert!(app.pending_paint);
    assert_eq!(app.window, window(100, 30));
}

#[test]
fn delegate_events_update_the_bar() {
    let mut app = AppState::new(window(80, 23));
    let t = app.apply_delegate(DelegateEvent::HistoryChanged {
        url: "https://a.org/".to_string(),
        can_go_back: true,
        can_go_forward: false,
    });
    assert!(t.is_none());
    assert_eq!(app.nav.displayed_url(), "https://a.org/");
    assert_eq!(app.nav.nav, NavigationCapability { back: true, forward: false });
    app.apply_delegate(DelegateEvent::UrlChanged("https://b.org/".to_string()));
    assert_eq!(app.nav.displayed_url(), "https://b.org/");
    assert_eq!(app.nav.nav, NavigationCapability { back: true, forward: false });
    assert_eq!(app.apply_delegate(DelegateEvent::TitleChanged("T".to_string())), Some("T".to_string()));
    assert!(app.running);
    app.apply_delegate(DelegateEvent::Closed);
    assert!(!app.running);
}

#[test]
fn stale_layout_snapshots_are_dropped() {
    let mut app = AppState::new(window(80, 23));
    assert!(app.apply_display_list(5));
    assert!(!app.apply_display_list(4));
    assert_eq!(app.display_epoch, Some(5));
    assert!(app.apply_display_list(5));
    assert!(app.apply_display_list(9));
    app.apply_delegate(DelegateEvent::HistoryChanged { url: "x:".to_string(), can_go_back: false, can_go_forward: false });
    assert_eq!(app.display_epoch, None);
    assert!(app.apply_display_list(1));
}

#[test]
fn frames_are_kept() {
    let mut app = AppState::new(window(80, 23));
    app.pending_paint = false;
    app.apply_frame(BrowserFrame { pixels: vec![0; 4], size: Extent { x: 1, y: 1 } });
    assert!(app.pending_paint);
    assert_eq!(app.frame.as_ref().map(|f| f.size), Some(Extent { x: 1, y: 1 }));
}

#[test]
fn session_first_paint_and_requests() {
    let mut s = Session::new(window(80, 23), false, true, 60);
    assert!(s.maybe_paint());
    assert!(!s.app.pending_paint);
    assert!(!s.maybe_paint());
    let reqs = s.finish_inputs(true);
    assert!(matches!(reqs.as_slice(), [ServoCommand::ExtractText]));
    assert!(s.app.pending_paint);
    let (reqs, title) = s.handle_event(RuntimeEvent::TextExtractRequested);
    assert!(matches!(reqs.as_slice(), [ServoCommand::ExtractText]));
    assert!(title.is_none());
    let (reqs, title) = s.handle_event(RuntimeEvent::Delegate(DelegateEvent::TitleChanged("Page".to_string())));
    assert!(reqs.is_empty());
    assert_eq!(title.as_deref(), Some("Page"));
    let (reqs, _) = s.handle_event(RuntimeEvent::Resize(window(90, 23)));
    assert!(matches!(reqs.first(), Some(ServoCommand::Resize(e)) if *e == Extent { x: 540, y: 299 }));
    s.handle_event(RuntimeEvent::Exit);
    assert!(!s.app.running);
}

#[test]
fn session_without_native_text_never_extracts() {
    let mut s = Session::new(window(80, 23), true, false, 30);
    assert!(s.finish_inputs(true).is_empty());
    let (reqs, _) = s.handle_event(RuntimeEvent::TextExtractRequested);
    assert!(reqs.is_empty());
    let (reqs, _) = s.handle_event(RuntimeEvent::Wake);
    assert!(reqs.iter().all(|r| matches!(r, ServoCommand::Paint)));
}

#[test]
fn pending_ops_batch_and_check_history() {
    let mut ops = PendingOps::new();
    let none = NavigationCapability { back: false, forward: false };
    let both = NavigationCapability { back: true, forward: true };
    assert!(ops.apply(ServoCommand::Paint, none).is_none());
    assert!(ops.apply(ServoCommand::Resize(Extent { x: 1, y: 2 }), none).is_none());
    assert!(ops.apply(ServoCommand::Resize(Extent { x: 3, y: 4 }), none).is_none());
    assert!(ops.apply(ServoCommand::GoBack, none).is_none());
    assert!(matches!(ops.apply(ServoCommand::GoBack, both), Some(ServoCommand::GoBack)));
    assert!(matches!(ops.apply(ServoCommand::GoForward, both), Some(ServoCommand::GoForward)));
    assert!(matches!(ops.apply(ServoCommand::Reload, none), Some(ServoCommand::Reload)));
    assert!(!ops.shutdown);
    assert!(ops.apply(ServoCommand::Shutdown, none).is_none());
    assert!(ops.shutdown && ops.paint);
    assert_eq!(ops.resize, Some(Extent { x: 3, y: 4 }));
}

#[test]
fn enter_with_the_caret_inside_a_character_still_loads() {
    let mut app = AppState::new(window(80, 23));
    app.nav = NavState {
        url: "https://\u{e9}.org/".to_string(),
        staged: None,
        nav: NavigationCapability { back: false, forward: false },
        cursor: Some(9),
        history_meta: false,
    };
    let (reqs, scroll) = handle_input(Event::Keyboard(key_event(Key::Named(NamedKey::Enter), Code::Enter)), &mut app);
    assert!(!scroll);
    assert_eq!(reqs.len(), 1);
    assert!(matches!(&reqs[0], ServoCommand::Load(u) if u == "https://xn--9ca.org/"));
    assert_eq!(app.nav.cursor, None);
}

#[test]
fn a_tick_sends_what_is_due() {
    let mut s = Session::new(window(80, 23), false, true, 60);
    assert!(s.tick(false, false).is_empty());
    assert!(matches!(s.tick(true, false).as_slice(), [ServoCommand::Paint]));
    assert!(matches!(s.tick(false, true).as_slice(), [ServoCommand::ExtractText]));
    assert!(matches!(s.tick(true, true).as_slice(), [ServoCommand::Paint, ServoCommand::ExtractText]));
    let mut plain = Session::new(window(80, 23), false, false, 60);
    assert!(plain.tick(false, true).is_empty());
    assert!(matches!(plain.tick(true, true).as_slice(), [ServoCommand::Paint]));
}

#[test]
fn a_zero_frame_budget_paints_on_every_wake() {
    let mut s = Session::new(window(80, 23), false, false, 2000);
    for _ in 0..3 {
        let (reqs, title) = s.handle_event(RuntimeEvent::Wake);
        assert!(matches!(reqs.as_slice(), [ServoCommand::Paint]));
        assert!(title.is_none());
    }
}

#[test]
fn draining_hands_back_the_first_other_event() {
    let mut s = Session::new(window(80, 23), false, true, 60);
    let (reqs, scroll, left) = s.drain_step(Drained::<u8>::Input(Event::Scroll {
        delta_x: 0,
        delta_y: 2,
        row: 1,
        col: 1,
        modifiers: Modifiers::empty(),
    }));
    assert!(scroll);
    assert!(left.is_none());
    assert!(matches!(reqs.as_slice(), [ServoCommand::Wheel { delta_x: 0, delta_y: 2, col: 1, row: 1 }]));
    let (reqs, scroll, left) = s.drain_step(Drained::Other(7u8));
    assert!(reqs.is_empty());
    assert!(!scroll);
    assert_eq!(left, Some(7));
    assert!(s.app.running);
}

#[test]
fn a_drained_batch_decides_what_the_engine_does() {
    let none = NavigationCapability { back: false, forward: false };
    let mut ops = PendingOps::new();
    assert!(matches!(ops.after_batch(), EngineStep::Run { resize: None, paint: false }));
    ops.apply(ServoCommand::Resize(Extent { x: 10, y: 20 }), none);
    ops.apply(ServoCommand::Paint, none);
    ops.apply(ServoCommand::Resize(Extent { x: 30, y: 40 }), none);
    assert!(matches!(
        ops.after_batch(),
        EngineStep::Run { resize: Some(Extent { x: 30, y: 40 }), paint: true }
    ));
    ops.apply(ServoCommand::Shutdown, none);
    assert!(matches!(ops.after_batch(), EngineStep::Stop));
}

#[test]
fn a_draw_needs_a_pending_redraw_and_a_due_frame() {
    let mut s = Session::new(window(80, 23), false, false, 60);
    assert!(s.app.pending_paint);
    assert!(!s.draw_step(false));
    assert!(s.app.pending_paint);
    assert!(s.draw_step(true));
    assert!(!s.app.pending_paint);
    assert!(!s.draw_step(true));
}

#[test]
fn a_resize_step_takes_whether_an_extraction_is_due() {
    let mut s = Session::new(window(80, 23), false, true, 60);
    s.app.pending_paint = false;
    assert!(s.resize_step(window(80, 23), false).is_empty());
    assert!(!s.app.pending_paint);
    assert!(matches!(s.resize_step(window(80, 23), true).as_slice(), [ServoCommand::ExtractText]));
    let reqs = s.resize_step(window(90, 24), true);
    assert!(matches!(
        reqs.as_slice(),
        [ServoCommand::Resize(e), ServoCommand::ExtractText] if *e == Extent { x: 540, y: 312 }
    ));
    assert!(s.app.pending_paint);
    let mut plain = Session::new(window(80, 23), false, false, 60);
    assert!(matches!(plain.resize_step(window(90, 24), true).as_slice(), [ServoCommand::Resize(_)]));
}
