//! The decisions of the browser session's main loop: how input events,
//! engine notifications, frames and resizes change the session state and
//! which requests go to the browser engine. Receiving events, talking to the
//! engine and drawing are left to the caller, which hands each event in and
//! carries out the requests that come back.

use vstd::prelude::*;

use crate::browser_widget::{BrowserFrame, Extent};
use crate::events::DelegateEvent;
use crate::input::{Event, MouseButton, MouseButtonState};
use crate::keys::KeyboardEvent;
use crate::nav_widget::{
    keyboard_accepts, keyboard_spec, mouse_down_spec, mouse_up_spec, push_spec, NavAction,
    NavActionView, NavState, NavigationCapability,
};
use crate::timing::{nanos_of, RenderConfig, TimingState};
use crate::url::{consults_disk, normalize_spec, normalize_url};

verus! {

/// The integer part of the terminal window's geometry: its size in cells
/// (navigation bar excluded) and the browser viewport in pixels.
#[derive(Clone, Copy, Debug, PartialEq, Eq, Structural)]
pub struct WindowSize {
    pub cells: Extent,
    pub browser: Extent,
}

/// Rows the navigation bar takes.
pub const NAV_BAR_ROWS: u16 = 1;

/// Terminal size assumed when the terminal cannot be asked.
pub const FALLBACK_COLS: u16 = 80;
pub const FALLBACK_ROWS: u16 = 24;

/// Smallest usable terminal: one column, and a row for the bar plus one.
pub const MIN_COLS: u16 = 1;
pub const MIN_ROWS: u16 = 2;

/// The page's cell grid for a terminal of the given size (or
/// the fallback size where the terminal could not be asked): at least the
/// smallest usable terminal, less the navigation bar's row.
pub fn terminal_cells(size: Option<(u16, u16)>) -> (e: Extent)
    ensures
        ({
            let (c, r) = match size {
                Some(s) => s,
                None => (FALLBACK_COLS, FALLBACK_ROWS),
            };
            &&& e.x == (if c < MIN_COLS { MIN_COLS } else { c })
            &&& e.y == (if r < MIN_ROWS { MIN_ROWS } else { r }) - NAV_BAR_ROWS
        }),
{
    let (c, r) = match size {
        Some(s) => s,
        None => (FALLBACK_COLS, FALLBACK_ROWS),
    };
    let cols = if c < MIN_COLS { MIN_COLS } else { c };
    let rows = if r < MIN_ROWS { MIN_ROWS } else { r };
    Extent { x: cols as u32, y: (rows - NAV_BAR_ROWS) as u32 }
}

/// The page's cell grid after the terminal was resized to `cols` by
/// `rows`: the bar's row comes off (down to none).
pub fn resized_cells(cols: u16, rows: u16) -> (e: Extent)
    ensures
        e.x == cols,
        e.y == (if rows >= NAV_BAR_ROWS { rows - NAV_BAR_ROWS } else { 0 }),
{
    Extent { x: cols as u32, y: if rows >= NAV_BAR_ROWS { (rows - NAV_BAR_ROWS) as u32 } else { 0 } }
}

impl WindowSize {
    /// Whether the cell grid or the viewport differ.
    pub fn differs_from(&self, other: &WindowSize) -> (b: bool)
        ensures
            b == (self.cells != other.cells || self.browser != other.browser),
    {
        self.cells.x != other.cells.x || self.cells.y != other.cells.y || self.browser.x
            != other.browser.x || self.browser.y != other.browser.y
    }
}

/// A request for the browser engine. Positions are terminal cells; the
/// caller turns them into page coordinates.
#[derive(Debug)]
pub enum ServoCommand {
    /// Load the URL with this serialisation.
    Load(String),
    GoBack,
    GoForward,
    Reload,
    Key(KeyboardEvent),
    Wheel { delta_x: isize, delta_y: isize, col: u16, row: u16 },
    Button { button: MouseButton, state: MouseButtonState, col: u16, row: u16 },
    Move { col: u16, row: u16 },
    /// Resize the viewport to this many pixels.
    Resize(Extent),
    Paint,
    ExtractText,
    /// Keep the engine from painting page text itself.
    SuppressText,
    /// Stop the engine.
    Shutdown,
}

/// All mutable state of a browser session.
pub struct AppState {
    pub running: bool,
    pub pending_paint: bool,
    pub window: WindowSize,
    pub nav: NavState,
    /// The cell of the last pointer event.
    pub pointer: Option<(u16, u16)>,
    pub frame: Option<BrowserFrame>,
    /// Epoch of the layout snapshot in use.
    pub display_epoch: Option<u64>,
}

/// The engine requests for an action of the address bar: none for
/// `Ignore` and `Forward`, one for the history and reload buttons, and for
/// an entered text the load of its URL, or none where no URL can be made
/// of it. Whether a file exists at the text's path is asked of the file
/// system, so either answer is admitted where it is asked.
pub open spec fn dispatch_ok(act: NavActionView, reqs: Seq<ServoCommand>) -> bool {
    match act {
        NavActionView::Ignore => reqs.len() == 0,
        NavActionView::Forward => reqs.len() == 0,
        NavActionView::GoBack => reqs.len() == 1 && reqs[0] is GoBack,
        NavActionView::GoForward => reqs.len() == 1 && reqs[0] is GoForward,
        NavActionView::Refresh => reqs.len() == 1 && reqs[0] is Reload,
        NavActionView::GoTo(raw) => load_ok(raw, reqs, false) || (consults_disk(Some(raw))
            && load_ok(raw, reqs, true)),
    }
}

/// `reqs` is the load of the URL `raw` becomes when `exists` tells whether
/// a file is at that path, or nothing where no URL can be made.
pub open spec fn load_ok(raw: Seq<char>, reqs: Seq<ServoCommand>, exists: bool) -> bool {
    match normalize_spec(Some(raw), exists) {
        Ok(u) => reqs.len() == 1 && (reqs[0] matches ServoCommand::Load(v) && v@ == u),
        Err(_) => reqs.len() == 0,
    }
}

/// The requests for an address-bar action; an entered text that makes no
/// URL is dropped.
pub fn dispatch_nav(action: NavAction) -> (reqs: Vec<ServoCommand>)
    ensures
        dispatch_ok(action@, reqs@),
{
    let mut reqs: Vec<ServoCommand> = Vec::new();
    match action {
        NavAction::Ignore | NavAction::Forward => {},
        NavAction::GoBack => reqs.push(ServoCommand::GoBack),
        NavAction::GoForward => reqs.push(ServoCommand::GoForward),
        NavAction::Refresh => reqs.push(ServoCommand::Reload),
        NavAction::GoTo(raw) => {
            match normalize_url(Some(raw)) {
                Ok(url) => reqs.push(ServoCommand::Load(url)),
                Err(_) => {},
            }
        },
    }
    reqs
}

/// The other parts of the state are as they were.
pub open spec fn same_but_nav_pointer(a: AppState, b: AppState) -> bool {
    &&& a.running == b.running
    &&& a.pending_paint == b.pending_paint
    &&& a.window == b.window
    &&& a.frame == b.frame
    &&& a.display_epoch == b.display_epoch
}

/// `b` is `a` after the page notification `ev`, with `title` handed back:
/// see `AppState::apply_delegate`.
pub open spec fn applies_delegate(a: AppState, b: AppState, ev: DelegateEvent, title: Option<String>) -> bool {
    &&& b.pending_paint
    &&& b.window == a.window
    &&& b.pointer == a.pointer
    &&& b.frame == a.frame
    &&& match ev {
        DelegateEvent::UrlChanged(url) => {
            &&& b.nav@ == push_spec(a.nav@, url@, a.nav.nav)
            &&& b.running == a.running
            &&& b.display_epoch == a.display_epoch
            &&& title is None
        },
        DelegateEvent::HistoryChanged { url, can_go_back, can_go_forward } => {
            &&& b.nav@ == push_spec(
                a.nav@,
                url@,
                NavigationCapability { back: can_go_back, forward: can_go_forward },
            )
            &&& b.running == a.running
            &&& b.display_epoch is None
            &&& title is None
        },
        DelegateEvent::TitleChanged(t) => {
            &&& b.nav@ == a.nav@
            &&& b.running == a.running
            &&& b.display_epoch == a.display_epoch
            &&& title matches Some(s) && s@ == t@
        },
        DelegateEvent::Closed => {
            &&& b.nav@ == a.nav@
            &&& !b.running
            &&& b.display_epoch == a.display_epoch
            &&& title is None
        },
    }
}

/// `b` is `a` after a layout snapshot of epoch `epoch` arrived: taken
/// unless older than the one in use.
pub open spec fn applies_display_list(a: AppState, b: AppState, epoch: u64) -> bool {
    if a.display_epoch matches Some(cur) && epoch < cur {
        b == a
    } else {
        b == (AppState { display_epoch: Some(epoch), pending_paint: true, ..a })
    }
}

/// `b` is `a` after the input event `event`, with the requests `reqs` and
/// the scroll flag `scroll`: see `handle_input`.
pub open spec fn handles_input(a: AppState, b: AppState, event: Event, reqs: Seq<ServoCommand>, scroll: bool) -> bool {
    &&& scroll == (event is Scroll)
    &&& same_but_nav_pointer(b, a) || (event is Exit && b == (AppState { running: false, ..a }))
    &&& match event {
        Event::Exit => b == (AppState { running: false, ..a }) && reqs.len() == 0,
        Event::Keyboard(ke) => {
            let (nv, act) = keyboard_spec(a.nav@, ke.key, ke.modifiers);
            &&& b.nav@ == nv
            &&& b.pointer == a.pointer
            &&& act is Forward ==> reqs.len() == 1 && reqs[0] == ServoCommand::Key(ke)
            &&& !(act is Forward) ==> dispatch_ok(act, reqs)
        },
        Event::Scroll { delta_x, delta_y, row, col, .. } => {
            &&& b.nav@ == a.nav@
            &&& b.pointer == Some((col, row))
            &&& reqs.len() == 1
            &&& reqs[0] == (ServoCommand::Wheel { delta_x, delta_y, col, row })
        },
        Event::MouseButton { button, state, row, col, .. } => {
            let (nv, act) = if state == MouseButtonState::Down {
                mouse_down_spec(a.nav@, col as int, row as int)
            } else {
                mouse_up_spec(a.nav@, row as int)
            };
            &&& b.nav@ == nv
            &&& b.pointer == Some((col, row))
            &&& act is Forward ==> reqs.len() == 1 && reqs[0] == (ServoCommand::Button {
                button,
                state,
                col,
                row,
            })
            &&& !(act is Forward) ==> dispatch_ok(act, reqs)
        },
        Event::MouseMove { row, col, .. } => {
            &&& b.nav@ == a.nav@
            &&& b.pointer == Some((col, row))
            &&& reqs.len() == 1
            &&& reqs[0] == (ServoCommand::Move { col, row })
        },
    }
}

/// An input event may be handed to `handle_input` in this state: a key
/// only where the address bar can take it.
pub open spec fn input_accepted(app: AppState, event: Event) -> bool {
    event matches Event::Keyboard(ke) ==> keyboard_accepts(app.nav@, ke.key)
}

impl AppState {
    /// A running session with nothing drawn yet and a paint pending.
    pub fn new(window: WindowSize) -> (app: AppState)
        ensures
            app.running,
            app.pending_paint,
            app.window == window,
            app.nav@ == NavState::new_view(),
            app.pointer is None,
            app.frame is None,
            app.display_epoch is None,
    {
        AppState {
            running: true,
            pending_paint: true,
            window,
            nav: NavState::new(),
            pointer: None,
            frame: None,
            display_epoch: None,
        }
    }

    pub fn mark_dirty(&mut self)
        ensures
            *final(self) == (AppState { pending_paint: true, ..*old(self) }),
    {
        self.pending_paint = true;
    }

    pub fn stop(&mut self)
        ensures
            *final(self) == (AppState { running: false, ..*old(self) }),
    {
        self.running = false;
    }

    /// Keep a newly painted frame and ask for a redraw.
    pub fn apply_frame(&mut self, frame: BrowserFrame)
        ensures
            *final(self) == (AppState { frame: Some(frame), pending_paint: true, ..*old(self) }),
    {
        self.frame = Some(frame);
        self.mark_dirty();
    }

    /// Take the window geometry after a terminal resize. Where it differs
    /// from the current one it replaces it, a redraw is asked for, and it is
    /// returned so the engine's viewport can follow; otherwise nothing
    /// changes.
    pub fn apply_resize(&mut self, next: WindowSize) -> (r: Option<WindowSize>)
        ensures
            next.differs_from_spec(old(self).window) ==> r == Some(next) && *final(self) == (
            AppState { window: next, pending_paint: true, ..*old(self) }),
            !next.differs_from_spec(old(self).window) ==> r is None && *final(self) == *old(
                self,
            ),
    {
        if next.differs_from(&self.window) {
            self.window = next;
            self.mark_dirty();
            Some(next)
        } else {
            None
        }
    }

    /// Take a notification about the page: URL and history changes update
    /// the address bar (a history change also drops the layout snapshot),
    /// closing stops the session, and a new title is handed back for the
    /// terminal's title bar. Every notification asks for a redraw.
    pub fn apply_delegate(&mut self, ev: DelegateEvent) -> (title: Option<String>)
        ensures
            applies_delegate(*old(self), *final(self), ev, title),
    {
        match ev {
            DelegateEvent::UrlChanged(url) => {
                let nav = self.nav.nav;
                self.nav.push(url, nav);
            },
            DelegateEvent::HistoryChanged { url, can_go_back, can_go_forward } => {
                self.nav.push(url, NavigationCapability { back: can_go_back, forward: can_go_forward });
                self.display_epoch = None;
            },
            DelegateEvent::TitleChanged(title) => {
                self.mark_dirty();
                return Some(title);
            },
            DelegateEvent::Closed => {
                self.stop();
            },
        }
        self.mark_dirty();
        None
    }

    /// Take a layout snapshot of epoch `epoch`, unless it is older than the
    /// one in use. Returns whether it was taken (and a redraw asked for).
    pub fn apply_display_list(&mut self, epoch: u64) -> (taken: bool)
        ensures
            taken == !(old(self).display_epoch matches Some(cur) && epoch < cur),
            taken ==> *final(self) == (AppState {
                display_epoch: Some(epoch),
                pending_paint: true,
                ..*old(self)
            }),
            !taken ==> *final(self) == *old(self),
    {
        if let Some(cur) = self.display_epoch {
            if epoch < cur {
                return false;
            }
        }
        self.display_epoch = Some(epoch);
        self.mark_dirty();
        true
    }
}

impl WindowSize {
    pub open spec fn differs_from_spec(self, other: WindowSize) -> bool {
        self.cells != other.cells || self.browser != other.browser
    }
}

/// Handle one input event: the address bar sees keys and clicks first;
/// what it does not consume goes to the page, and its actions become
/// engine requests. Returns the requests and whether the event was a
/// scroll.
pub fn handle_input(event: Event, app: &mut AppState) -> (r: (Vec<ServoCommand>, bool))
    requires
        input_accepted(*old(app), event),
    ensures
        handles_input(*old(app), *final(app), event, r.0@, r.1),
{
    let is_scroll = match &event {
        Event::Scroll { .. } => true,
        _ => false,
    };
    match event {
        Event::Exit => {
            app.stop();
            (Vec::new(), is_scroll)
        },
        Event::Keyboard(key_event) => {
            let action = app.nav.keyboard(&key_event.key, key_event.modifiers);
            let forward = match &action {
                NavAction::Forward => true,
                _ => false,
            };
            let mut reqs = dispatch_nav(action);
            if forward {
                reqs.push(ServoCommand::Key(key_event));
            }
            (reqs, is_scroll)
        },
        Event::Scroll { delta_x, delta_y, row, col, .. } => {
            app.pointer = Some((col, row));
            let mut reqs = Vec::new();
            reqs.push(ServoCommand::Wheel { delta_x, delta_y, col, row });
            (reqs, is_scroll)
        },
        Event::MouseButton { button, state, row, col, .. } => {
            app.pointer = Some((col, row));
            let nav_action = match state {
                MouseButtonState::Down => app.nav.mouse_down(col, row),
                MouseButtonState::Up => app.nav.mouse_up(col, row),
            };
            match nav_action {
                NavAction::Forward => {
                    let mut reqs = Vec::new();
                    reqs.push(ServoCommand::Button { button, state, col, row });
                    (reqs, is_scroll)
                },
                other => (dispatch_nav(other), is_scroll),
            }
        },
        Event::MouseMove { row, col, .. } => {
            app.pointer = Some((col, row));
            let mut reqs = Vec::new();
            reqs.push(ServoCommand::Move { col, row });
            (reqs, is_scroll)
        },
    }
}

/// An event for the session loop other than input.
pub enum RuntimeEvent {
    /// The engine wants the loop to consider painting.
    Wake,
    /// A composited frame from the engine.
    Frame(BrowserFrame),
    Delegate(DelegateEvent),
    /// The terminal was resized; the window geometry that results.
    Resize(WindowSize),
    /// A layout snapshot of this epoch arrived.
    DisplayList(u64),
    /// The page asks for its text to be extracted again.
    TextExtractRequested,
    Exit,
}

/// The requests of an idle tick: a paint where one is due, and, with
/// native text on, a text extraction where one is due.
pub open spec fn wake_requests(paint_due: bool, extract_due: bool, native_text: bool) -> Seq<
    ServoCommand,
> {
    (if paint_due { seq![ServoCommand::Paint] } else { Seq::empty() }) + (if extract_due
        && native_text {
        seq![ServoCommand::ExtractText]
    } else {
        Seq::empty()
    })
}

/// The requests after a resize: the new viewport where the geometry
/// changed, and, with native text on, a text extraction where one is due.
pub open spec fn resize_requests(
    old: WindowSize,
    next: WindowSize,
    extract_due: bool,
    native_text: bool,
) -> Seq<ServoCommand> {
    (if next.differs_from_spec(old) {
        seq![ServoCommand::Resize(next.browser)]
    } else {
        Seq::empty()
    }) + (if extract_due && native_text {
        seq![ServoCommand::ExtractText]
    } else {
        Seq::empty()
    })
}

/// An event taken from the queue while queued input is drained: input, or
/// some other event, which ends the draining.
pub enum Drained<T> {
    Input(Event),
    Other(T),
}

/// A browser session: its state, rendering parameters, whether page text
/// is drawn natively, and the frame timing.
pub struct Session {
    pub app: AppState,
    pub cfg: RenderConfig,
    pub native_text: bool,
    pub timing: TimingState,
}

impl Session {
    pub fn new(window: WindowSize, true_color: bool, native_text: bool, fps: u16) -> (s: Session)
        ensures
            s.app.running,
            s.app.pending_paint,
            s.app.window == window,
            s.app.nav@ == NavState::new_view(),
            s.cfg.true_color == true_color,
            s.native_text == native_text,
    {
        let cfg = RenderConfig::new(true_color, fps);
        let timing = TimingState::new(cfg.frame_budget);
        Session { app: AppState::new(window), cfg, native_text, timing }
    }

    /// Ask for a text extraction now.
    fn schedule_extract(&mut self, reqs: &mut Vec<ServoCommand>)
        ensures
            final(reqs)@ == old(reqs)@.push(ServoCommand::ExtractText),
            final(self).app == old(self).app,
            final(self).native_text == old(self).native_text,
            final(self).cfg == old(self).cfg,
            final(self).timing.last_draw == old(self).timing.last_draw,
            final(self).timing.last_paint_cmd == old(self).timing.last_paint_cmd,
    {
        reqs.push(ServoCommand::ExtractText);
        self.timing.mark_extracted();
    }

    /// Handle one input event; see `handle_input`.
    pub fn handle_input(&mut self, event: Event) -> (r: (Vec<ServoCommand>, bool))
        requires
            input_accepted(old(self).app, event),
        ensures
            handles_input(old(self).app, final(self).app, event, r.0@, r.1),
            final(self).native_text == old(self).native_text,
    {
        handle_input(event, &mut self.app)
    }

    /// An idle tick, given whether a paint request is due (by the frame
    /// budget) and whether a text extraction is due (by its debounce): a
    /// paint request where one is due, and, with native text on, an
    /// extraction where one is due; each request sent restarts its timer.
    pub fn tick(&mut self, paint_due: bool, extract_due: bool) -> (reqs: Vec<ServoCommand>)
        ensures
            reqs@ == wake_requests(paint_due, extract_due, old(self).native_text),
            final(self).app == old(self).app,
            final(self).native_text == old(self).native_text,
            final(self).cfg == old(self).cfg,
            !paint_due && !(extract_due && old(self).native_text) ==> final(self).timing == old(
                self,
            ).timing,
            !paint_due ==> final(self).timing.last_paint_cmd == old(self).timing.last_paint_cmd,
            !(extract_due && old(self).native_text) ==> final(self).timing.last_extract == old(
                self,
            ).timing.last_extract,
            final(self).timing.last_draw == old(self).timing.last_draw,
    {
        let mut reqs: Vec<ServoCommand> = Vec::new();
        if paint_due {
            reqs.push(ServoCommand::Paint);
            self.timing.mark_paint_cmd();
        }
        if extract_due && self.native_text {
            self.schedule_extract(&mut reqs);
        }
        assert(reqs@ =~= wake_requests(paint_due, extract_due, self.native_text));
        reqs
    }

    /// A terminal resize, given whether a text extraction is due (by its
    /// debounce): the viewport is resized where the geometry changed, and,
    /// with native text on, an extraction is asked for where one is due,
    /// which restarts its timer.
    pub fn resize_step(&mut self, next: WindowSize, extract_due: bool) -> (reqs: Vec<ServoCommand>)
        ensures
            reqs@ == resize_requests(old(self).app.window, next, extract_due, old(self).native_text),
            next.differs_from_spec(old(self).app.window) ==> final(self).app == (AppState {
                window: next,
                pending_paint: true,
                ..old(self).app
            }),
            !next.differs_from_spec(old(self).app.window) ==> final(self).app == old(self).app,
            final(self).native_text == old(self).native_text,
            final(self).cfg == old(self).cfg,
            !(extract_due && old(self).native_text) ==> final(self).timing == old(self).timing,
            final(self).timing.last_draw == old(self).timing.last_draw,
            final(self).timing.last_paint_cmd == old(self).timing.last_paint_cmd,
    {
        let mut reqs: Vec<ServoCommand> = Vec::new();
        let ghost before = self.app.window;
        if let Some(w) = self.app.apply_resize(next) {
            reqs.push(ServoCommand::Resize(w.browser));
        }
        if extract_due && self.native_text {
            self.schedule_extract(&mut reqs);
        }
        assert(reqs@ =~= resize_requests(before, next, extract_due, self.native_text));
        reqs
    }

    /// One step of draining queued input: an input event is handled at
    /// once (see `handle_input`); any other event ends the draining and is
    /// handed back untouched, so that it is handled next rather than lost.
    pub fn drain_step<T>(&mut self, next: Drained<T>) -> (r: (Vec<ServoCommand>, bool, Option<T>))
        requires
            next matches Drained::Input(e) ==> input_accepted(old(self).app, e),
        ensures
            final(self).native_text == old(self).native_text,
            next matches Drained::Input(e) ==> handles_input(
                old(self).app,
                final(self).app,
                e,
                r.0@,
                r.1,
            ) && r.2 is None,
            next matches Drained::Other(t) ==> r.2 == Some(t) && r.0@.len() == 0 && !r.1
                && final(self).app == old(self).app,
    {
        match next {
            Drained::Input(e) => {
                let (reqs, scroll) = self.handle_input(e);
                (reqs, scroll, None)
            },
            Drained::Other(t) => (Vec::new(), false, Some(t)),
        }
    }

    /// After a batch of input events: a scroll among them asks for a text
    /// extraction (with native text on), and a redraw is asked for.
    pub fn finish_inputs(&mut self, any_scroll: bool) -> (reqs: Vec<ServoCommand>)
        ensures
            reqs@ == (if any_scroll && old(self).native_text {
                seq![ServoCommand::ExtractText]
            } else {
                Seq::empty()
            }),
            final(self).app == (AppState { pending_paint: true, ..old(self).app }),
            final(self).native_text == old(self).native_text,
    {
        let mut reqs = Vec::new();
        if any_scroll && self.native_text {
            self.schedule_extract(&mut reqs);
        }
        self.app.mark_dirty();
        reqs
    }

    /// Handle an event other than input: the requests for the engine, and
    /// a title for the terminal's title bar where the page's title changed.
    /// Whether a paint or an extraction is due depends on the clock, so the
    /// requests of an idle tick or a resize hold for some answer of it.
    pub fn handle_event(&mut self, ev: RuntimeEvent) -> (r: (Vec<ServoCommand>, Option<String>))
        ensures
            final(self).native_text == old(self).native_text,
            ev is Wake ==> final(self).app == old(self).app && r.1 is None && exists|p: bool, e: bool|
                r.0@ == #[trigger] wake_requests(p, e, old(self).native_text),
            ev is Wake && nanos_of(old(self).cfg.frame_budget) == 0 ==> r.0@.len() >= 1
                && r.0@[0] is Paint,
            ev matches RuntimeEvent::Resize(next) ==> r.1 is None && exists|e: bool|
                r.0@ == #[trigger] resize_requests(
                    old(self).app.window,
                    next,
                    e,
                    old(self).native_text,
                ) && (next.differs_from_spec(old(self).app.window) ==> final(self).app == (
                AppState { window: next, pending_paint: true, ..old(self).app }))
                && (!next.differs_from_spec(old(self).app.window) ==> final(self).app == old(
                self,
            ).app),
            ev matches RuntimeEvent::Frame(f) ==> final(self).app == (AppState {
                frame: Some(f),
                pending_paint: true,
                ..old(self).app
            }) && r.0@.len() == 0 && r.1 is None,
            ev matches RuntimeEvent::Delegate(d) ==> r.0@.len() == 0 && applies_delegate(
                old(self).app,
                final(self).app,
                d,
                r.1,
            ),
            ev matches RuntimeEvent::DisplayList(epoch) ==> r.0@.len() == 0 && r.1 is None
                && applies_display_list(old(self).app, final(self).app, epoch),
            ev is TextExtractRequested ==> final(self).app == old(self).app && r.1 is None && r.0@
                == (if old(self).native_text {
                seq![ServoCommand::ExtractText]
            } else {
                Seq::empty()
            }),
            ev is Exit ==> final(self).app == (AppState { running: false, ..old(self).app })
                && r.0@.len() == 0 && r.1 is None,
    {
        let mut reqs: Vec<ServoCommand> = Vec::new();
        match ev {
            RuntimeEvent::Wake => {
                let paint = self.timing.paint_cmd_due(self.cfg.frame_budget);
                let extract = self.native_text && self.timing.extract_due();
                (self.tick(paint, extract), None)
            },
            RuntimeEvent::Resize(next) => {
                let extract = self.native_text && self.timing.extract_due();
                (self.resize_step(next, extract), None)
            },
            RuntimeEvent::Frame(f) => {
                self.app.apply_frame(f);
                (reqs, None)
            },
            RuntimeEvent::Delegate(d) => {
                let title = self.app.apply_delegate(d);
                self.timing.invalidate_extract();
                (reqs, title)
            },
            RuntimeEvent::DisplayList(epoch) => {
                self.app.apply_display_list(epoch);
                (reqs, None)
            },
            RuntimeEvent::TextExtractRequested => {
                if self.native_text {
                    self.schedule_extract(&mut reqs);
                }
                (reqs, None)
            },
            RuntimeEvent::Exit => {
                self.app.stop();
                (reqs, None)
            },
        }
    }

    /// The draw decision, given whether a frame budget has passed since the
    /// last draw: draw exactly when a redraw is pending and one is due.
    /// Drawing clears the pending redraw and restarts the draw timer;
    /// otherwise nothing changes.
    pub fn draw_step(&mut self, due: bool) -> (draw: bool)
        ensures
            draw == (old(self).app.pending_paint && due),
            draw ==> final(self).app == (AppState { pending_paint: false, ..old(self).app }),
            !draw ==> final(self).app == old(self).app && final(self).timing == old(self).timing,
            final(self).timing.last_paint_cmd == old(self).timing.last_paint_cmd,
            final(self).timing.last_extract == old(self).timing.last_extract,
            final(self).native_text == old(self).native_text,
            final(self).cfg == old(self).cfg,
    {
        if self.app.pending_paint && due {
            self.app.pending_paint = false;
            self.timing.mark_drawn();
            true
        } else {
            false
        }
    }

    /// Whether to draw now: a redraw is pending and a frame budget has
    /// passed since the last draw (which depends on the clock; see
    /// `draw_step`). Drawing clears the pending redraw.
    pub fn maybe_paint(&mut self) -> (draw: bool)
        ensures
            draw ==> old(self).app.pending_paint && final(self).app == (AppState {
                pending_paint: false,
                ..old(self).app
            }),
            !draw ==> final(self).app == old(self).app,
            !old(self).app.pending_paint ==> !draw,
            old(self).app.pending_paint && nanos_of(old(self).cfg.frame_budget) == 0 ==> draw,
            !draw ==> final(self).timing == old(self).timing,
            final(self).timing.last_paint_cmd == old(self).timing.last_paint_cmd,
            final(self).timing.last_extract == old(self).timing.last_extract,
            final(self).native_text == old(self).native_text,
            final(self).cfg == old(self).cfg,
    {
        let due = self.timing.draw_due(self.cfg.frame_budget);
        self.draw_step(due)
    }
}

/// What one request adds to a batch: a stop, a paint, or a new viewport
/// size; other requests leave it as it is.
pub open spec fn batch_step(ops: PendingOps, req: ServoCommand) -> PendingOps {
    match req {
        ServoCommand::Shutdown => PendingOps { shutdown: true, ..ops },
        ServoCommand::Paint => PendingOps { paint: true, ..ops },
        ServoCommand::Resize(size) => PendingOps { resize: Some(size), ..ops },
        _ => ops,
    }
}

/// The batch after the requests `reqs`, taken in order.
pub open spec fn batch_all(ops: PendingOps, reqs: Seq<ServoCommand>) -> PendingOps
    decreases reqs.len(),
{
    if reqs.len() == 0 {
        ops
    } else {
        batch_all(batch_step(ops, reqs[0]), reqs.drop_first())
    }
}

/// Draining requests into a batch: it stops the engine exactly when a stop
/// was asked for (before or among them), paints exactly when a paint was
/// asked for, and resizes to the last size asked for, or keeps the size it
/// had where none was.
pub proof fn lemma_batch(ops: PendingOps, reqs: Seq<ServoCommand>)
    ensures
        batch_all(ops, reqs).shutdown == (ops.shutdown || exists|i: int|
            0 <= i < reqs.len() && #[trigger] reqs[i] is Shutdown),
        batch_all(ops, reqs).paint == (ops.paint || exists|i: int|
            0 <= i < reqs.len() && #[trigger] reqs[i] is Paint),
        (forall|i: int| 0 <= i < reqs.len() ==> !(#[trigger] reqs[i] is Resize)) ==> batch_all(
            ops,
            reqs,
        ).resize == ops.resize,
        forall|i: int|
            0 <= i < reqs.len() && #[trigger] reqs[i] is Resize && (forall|j: int|
                i < j < reqs.len() ==> !(#[trigger] reqs[j] is Resize)) ==> batch_all(ops, reqs).resize
                == Some(reqs[i]->Resize_0),
    decreases reqs.len(),
{
    if reqs.len() > 0 {
        let next = batch_step(ops, reqs[0]);
        let rest = reqs.drop_first();
        lemma_batch(next, rest);
        assert forall|i: int| 0 <= i < rest.len() implies #[trigger] rest[i] == reqs[i + 1] by {}
        if exists|i: int| 0 <= i < reqs.len() && #[trigger] reqs[i] is Shutdown {
            let i = choose|i: int| 0 <= i < reqs.len() && #[trigger] reqs[i] is Shutdown;
            if i > 0 {
                assert(rest[i - 1] is Shutdown);
            }
        }
        if exists|i: int| 0 <= i < reqs.len() && #[trigger] reqs[i] is Paint {
            let i = choose|i: int| 0 <= i < reqs.len() && #[trigger] reqs[i] is Paint;
            if i > 0 {
                assert(rest[i - 1] is Paint);
            }
        }
        if exists|i: int| 0 <= i < rest.len() && #[trigger] rest[i] is Shutdown {
            let i = choose|i: int| 0 <= i < rest.len() && #[trigger] rest[i] is Shutdown;
            assert(reqs[i + 1] is Shutdown);
        }
        if exists|i: int| 0 <= i < rest.len() && #[trigger] rest[i] is Paint {
            let i = choose|i: int| 0 <= i < rest.len() && #[trigger] rest[i] is Paint;
            assert(reqs[i + 1] is Paint);
        }
        if forall|i: int| 0 <= i < reqs.len() ==> !(#[trigger] reqs[i] is Resize) {
            assert(!(reqs[0] is Resize));
            assert forall|i: int| 0 <= i < rest.len() implies !(#[trigger] rest[i] is Resize) by {
                assert(reqs[i + 1] == rest[i]);
            }
        }
        assert forall|i: int|
            0 <= i < reqs.len() && #[trigger] reqs[i] is Resize && (forall|j: int|
                i < j < reqs.len() ==> !(#[trigger] reqs[j] is Resize)) implies batch_all(ops, reqs).resize
            == Some(reqs[i]->Resize_0) by {
            if i > 0 {
                assert(rest[i - 1] == reqs[i]);
                assert forall|j: int| i - 1 < j < rest.len() implies !(#[trigger] rest[j] is Resize) by {
                    assert(reqs[j + 1] == rest[j]);
                }
            } else {
                assert forall|j: int| 0 <= j < rest.len() implies !(#[trigger] rest[j] is Resize) by {
                    assert(reqs[j + 1] == rest[j]);
                }
            }
        }
    }
}

/// What the engine does once a batch is drained.
pub enum EngineStep {
    /// Stop: a stop was asked for.
    Stop,
    /// Resize the viewport where a size was asked for, let the engine run,
    /// then paint one frame where a paint was asked for.
    Run { resize: Option<Extent>, paint: bool },
}

/// What the engine side batches from the requests it drains at once: a
/// stop, a paint, and the last viewport size asked for.
pub struct PendingOps {
    pub shutdown: bool,
    pub paint: bool,
    pub resize: Option<Extent>,
}

impl PendingOps {
    pub fn new() -> (p: PendingOps)
        ensures
            p == (PendingOps { shutdown: false, paint: false, resize: None }),
    {
        PendingOps { shutdown: false, paint: false, resize: None }
    }

    /// Take one request. Stops, paints and resizes are batched; history
    /// moves the engine cannot make (per `history`) are dropped; every other
    /// request is handed back to be carried out at once.
    pub fn apply(&mut self, req: ServoCommand, history: NavigationCapability) -> (now: Option<
        ServoCommand,
    >)
        ensures
            *final(self) == batch_step(*old(self), req),
            req is Shutdown ==> *final(self) == (PendingOps { shutdown: true, ..*old(self) })
                && now is None,
            req is Paint ==> *final(self) == (PendingOps { paint: true, ..*old(self) }) && now is None,
            req matches ServoCommand::Resize(size) ==> *final(self) == (PendingOps {
                resize: Some(size),
                ..*old(self)
            }) && now is None,
            req is GoBack ==> *final(self) == *old(self) && (now is Some <==> history.back) && (
            now is Some ==> now == Some(req)),
            req is GoForward ==> *final(self) == *old(self) && (now is Some <==> history.forward)
                && (now is Some ==> now == Some(req)),
            !(req is Shutdown || req is Paint || req is Resize || req is GoBack || req is GoForward)
                ==> *final(self) == *old(self) && now == Some(req),
    {
        match req {
            ServoCommand::Shutdown => {
                self.shutdown = true;
                None
            },
            ServoCommand::Paint => {
                self.paint = true;
                None
            },
            ServoCommand::Resize(size) => {
                self.resize = Some(size);
                None
            },
            ServoCommand::GoBack => if history.can_go_back() {
                Some(ServoCommand::GoBack)
            } else {
                None
            },
            ServoCommand::GoForward => if history.can_go_forward() {
                Some(ServoCommand::GoForward)
            } else {
                None
            },
            other => Some(other),
        }
    }

    /// What to do with the drained batch: stop where a stop was asked
    /// for; otherwise resize where a size was asked for, run, and paint
    /// once where a paint was asked for.
    pub fn after_batch(&self) -> (step: EngineStep)
        ensures
            step == (if self.shutdown {
                EngineStep::Stop
            } else {
                EngineStep::Run { resize: self.resize, paint: self.paint }
            }),
    {
        if self.shutdown {
            EngineStep::Stop
        } else {
            EngineStep::Run { resize: self.resize, paint: self.paint }
        }
    }
}

} // verus!
