//! The navigation bar: back/forward/reload buttons and an editable address
//! field. `NavState` is its state machine; `NavWidget` lays it out.
//!
//! Layout, left to right: `[‹]` (columns 0-2), `[›]` (3-5), `[↻]` (6-8),
//! two spacer columns, then the URL field from column 11.

use vstd::prelude::*;

use crate::keys::{Key, Modifiers, NamedKey};
use crate::layout::Rect;
use crate::text::{
    byte_len, byte_offset, char_len, char_to_string, is_char_boundary_at, chars_before, concat, insert_char, is_boundary, is_control,
    is_control_spec, len_utf8, lemma_byte_offset_full, lemma_byte_offset_mono, lemma_byte_offset_step,
    lemma_byte_offset_zero, lemma_chars_before_bounds, lemma_chars_before_offset, lemma_end_is_boundary,
    lemma_utf8_len_concat, lemma_utf8_len_single, remove_char, split_at_boundary, str_eq, utf8_len,
};
use crate::width::{char_width, char_width_of, col_width, is_printable_ascii, str_width, str_width_of};
use crate::color::TerminalColor;

verus! {

/// Width of each button: "[", glyph, "]".
pub const BTN_WIDTH: u16 = 3;

/// First column of the back button.
pub const BTN_BACK_START: u16 = 0;

/// First column of the forward button.
pub const BTN_FORWARD_START: u16 = BTN_BACK_START + BTN_WIDTH;

/// First column of the reload button.
pub const BTN_RELOAD_START: u16 = BTN_FORWARD_START + BTN_WIDTH;

/// Spacer between the reload button and the URL field.
pub const URL_FIELD_PADDING: u16 = 2;

/// Column at which the URL field begins.
pub const URL_FIELD_START: u16 = BTN_RELOAD_START + BTN_WIDTH + URL_FIELD_PADDING;

/// Columns taken by the URL field's leading and trailing spaces.
pub const URL_FIELD_INNER_PADDING: u16 = 2;

/// Which history directions are currently navigable.
#[derive(Clone, Copy, Debug, PartialEq, Eq, Structural)]
pub struct NavigationCapability {
    pub back: bool,
    pub forward: bool,
}

impl NavigationCapability {
    pub fn can_go_back(self) -> (b: bool)
        ensures
            b == self.back,
    {
        self.back
    }

    pub fn can_go_forward(self) -> (b: bool)
        ensures
            b == self.forward,
    {
        self.forward
    }
}

impl Default for NavigationCapability {
    fn default() -> (c: Self)
        ensures
            c == (NavigationCapability { back: false, forward: false }),
    {
        NavigationCapability { back: false, forward: false }
    }
}

/// What the caller should do after the bar saw an input event.
#[derive(Debug)]
pub enum NavAction {
    /// The bar consumed the event.
    Ignore,
    /// The event belongs to the page.
    Forward,
    /// Navigate to the raw text the user entered (not yet parsed as a URL).
    GoTo(String),
    GoBack,
    GoForward,
    Refresh,
}

/// `NavAction` with the entered text as a character sequence.
pub enum NavActionView {
    Ignore,
    Forward,
    GoTo(Seq<char>),
    GoBack,
    GoForward,
    Refresh,
}

impl View for NavAction {
    type V = NavActionView;

    open spec fn view(&self) -> NavActionView {
        match self {
            NavAction::Ignore => NavActionView::Ignore,
            NavAction::Forward => NavActionView::Forward,
            NavAction::GoTo(s) => NavActionView::GoTo(s@),
            NavAction::GoBack => NavActionView::GoBack,
            NavAction::GoForward => NavActionView::GoForward,
            NavAction::Refresh => NavActionView::Refresh,
        }
    }
}

/// Full state of the navigation bar.
#[derive(Clone, Debug)]
pub struct NavState {
    /// The committed URL (its serialisation) shown in the address bar.
    pub url: String,
    /// The edit in progress while the address bar is focused.
    pub staged: Option<String>,
    pub nav: NavigationCapability,
    /// Byte offset of the caret in the displayed text; `None` when the
    /// address bar is not focused.
    pub cursor: Option<usize>,
    /// Whether Meta (the macOS convention) rather than Alt is held with
    /// Left/Right to go back/forward.
    pub history_meta: bool,
}

/// `NavState` with its texts as character sequences.
pub struct NavView {
    pub url: Seq<char>,
    pub staged: Option<Seq<char>>,
    pub nav: NavigationCapability,
    pub cursor: Option<usize>,
    pub history_meta: bool,
}

impl View for NavState {
    type V = NavView;

    open spec fn view(&self) -> NavView {
        NavView {
            url: self.url@,
            staged: match self.staged {
                Some(s) => Some(s@),
                None => None,
            },
            nav: self.nav,
            cursor: self.cursor,
            history_meta: self.history_meta,
        }
    }
}

/// The text shown in the address bar: the staged edit if there is one,
/// otherwise the committed URL.
pub open spec fn displayed(v: NavView) -> Seq<char> {
    match v.staged {
        Some(s) => s,
        None => v.url,
    }
}

/// The caret may be used as a position in the displayed text: every offset
/// up to the text's end that the caret holds is a character boundary.
pub open spec fn cursor_in_text(v: NavView) -> bool {
    v.cursor matches Some(c) ==> (c <= utf8_len(displayed(v)) ==> is_boundary(displayed(v), c as int))
}

/// The key is Left or Right arrow.
pub open spec fn is_horizontal_arrow(key: Key) -> bool {
    key matches Key::Named(k) && (k == NamedKey::ArrowLeft || k == NamedKey::ArrowRight)
}

/// The key reads or edits the text at the caret: Left, Right, Backspace,
/// Delete, or a character that would be typed (its text starts with a
/// character that is not a control character).
pub open spec fn slices_at_caret(key: Key) -> bool {
    ||| is_horizontal_arrow(key)
    ||| key matches Key::Named(NamedKey::Backspace)
    ||| key matches Key::Named(NamedKey::Delete)
    ||| (key matches Key::Character(t) && t@.len() > 0 && !is_control_spec(t@[0]))
}

/// A key event is safe for `NavState::keyboard` in state `v`: a key that
/// reads or edits the text at the caret needs the caret usable, and Left
/// and Right need it inside the text. Enter, Up, Down and the other keys
/// take any caret.
pub open spec fn keyboard_accepts(v: NavView, key: Key) -> bool {
    v.cursor matches Some(c) ==> {
        &&& slices_at_caret(key) ==> cursor_in_text(v)
        &&& is_horizontal_arrow(key) ==> c <= utf8_len(displayed(v))
    }
}

/// The state after the edit buffer is set to `s` (keeping URL, history
/// flags and caret).
pub open spec fn with_staged(v: NavView, s: Seq<char>) -> NavView {
    NavView { staged: Some(s), ..v }
}

/// The state with the caret at `c`.
pub open spec fn with_cursor(v: NavView, c: int) -> NavView {
    NavView { cursor: Some(c as usize), ..v }
}

/// What a key does while the address bar is focused with the caret at `c`.
pub open spec fn focused_key_spec(v: NavView, key: Key, c: int) -> NavView {
    let s = displayed(v);
    let n = utf8_len(s);
    match key {
        Key::Named(NamedKey::ArrowUp) => with_cursor(v, 0),
        Key::Named(NamedKey::ArrowDown) => with_cursor(v, n),
        Key::Named(NamedKey::ArrowRight) => {
            let k = chars_before(s, c);
            with_cursor(v, if k < s.len() { byte_offset(s, k + 1) } else { n })
        },
        Key::Named(NamedKey::ArrowLeft) => {
            let k = chars_before(s, c);
            with_cursor(v, if k > 0 { byte_offset(s, k - 1) } else { 0 })
        },
        Key::Named(NamedKey::Backspace) => {
            if c > 0 {
                let k = chars_before(s, if c < n { c } else { n });
                if k > 0 {
                    with_cursor(with_staged(v, remove_char(s, k - 1)), byte_offset(s, k - 1))
                } else {
                    with_staged(v, s)
                }
            } else {
                v
            }
        },
        Key::Named(NamedKey::Delete) => {
            if c < n {
                with_staged(v, remove_char(s, chars_before(s, c)))
            } else {
                with_staged(v, s)
            }
        },
        Key::Character(t) => {
            if t@.len() > 0 && !is_control_spec(t@[0]) {
                let pos = if c < n { c } else { n };
                with_cursor(
                    with_staged(v, insert_char(s, chars_before(s, pos), t@[0])),
                    pos + char_len(t@[0]),
                )
            } else {
                v
            }
        },
        _ => v,
    }
}

/// The modifier that, with Left/Right, goes back/forward: Meta where the
/// state asks for it (macOS), Alt otherwise.
pub open spec fn history_modifier(v: NavView, modifiers: Modifiers) -> bool {
    if v.history_meta {
        modifiers.meta
    } else {
        modifiers.alt
    }
}

/// What `NavState::keyboard` does: with the bar unfocused, the history
/// modifier (see `history_modifier`) with Left/Right navigates back/forward
/// and every other key goes to the page; with it
/// focused, Enter submits the displayed text and leaves the bar, and the
/// other keys edit the text or move the caret, by whole characters.
pub open spec fn keyboard_spec(v: NavView, key: Key, modifiers: Modifiers) -> (NavView, NavActionView) {
    match v.cursor {
        None => (
            v,
            if history_modifier(v, modifiers) && key matches Key::Named(NamedKey::ArrowLeft) {
                NavActionView::GoBack
            } else if history_modifier(v, modifiers) && key matches Key::Named(NamedKey::ArrowRight) {
                NavActionView::GoForward
            } else {
                NavActionView::Forward
            },
        ),
        Some(c) => {
            if key matches Key::Named(NamedKey::Enter) {
                (NavView { staged: None, cursor: None, ..v }, NavActionView::GoTo(displayed(v)))
            } else {
                (focused_key_spec(v, key, c as int), NavActionView::Ignore)
            }
        },
    }
}

/// Index of the first character at which the column count of the
/// characters before it reaches `col` (the text's length if none does).
pub open spec fn col_char_index(s: Seq<char>, col: int, k: int, width: int) -> int
    decreases s.len() - k,
{
    if k >= s.len() {
        s.len() as int
    } else if width >= col {
        k
    } else {
        col_char_index(s, col, k + 1, width + col_width(s[k]))
    }
}

/// Byte offset of the character at visual column offset `col` of `s`, or the
/// end of `s` when `col` is past its width.
pub open spec fn col_to_byte_offset_spec(s: Seq<char>, col: int) -> int {
    byte_offset(s, col_char_index(s, col, 0, 0))
}

/// Convert a visual column offset within `s` to the byte offset of the
/// character found there; the length of `s` when `col` exceeds its width.
pub fn col_to_byte_offset(s: &str, col: usize) -> (pos: usize)
    ensures
        pos == col_to_byte_offset_spec(s@, col as int),
        is_boundary(s@, pos as int),
{
    let n = s.unicode_len();
    let total = byte_len(s);
    let mut width: u128 = 0;
    let mut byte_pos: usize = 0;
    let mut k: usize = 0;
    proof {
        lemma_byte_offset_zero(s@);
        lemma_byte_offset_full(s@);
    }
    while k < n
        invariant
            n == s@.len(),
            total == utf8_len(s@),
            k <= n,
            byte_pos == byte_offset(s@, k as int),
            width <= 3 * k,
            col_char_index(s@, col as int, 0, 0) == col_char_index(s@, col as int, k as int, width as int),
        decreases n - k,
    {
        if width >= col as u128 {
            proof {
                lemma_chars_before_offset(s@, k as int);
            }
            return byte_pos;
        }
        let ch = s.get_char(k);
        let w = match char_width(ch) {
            Some(w) => w,
            None => 0,
        };
        proof {
            lemma_byte_offset_step(s@, k as int);
            lemma_byte_offset_mono(s@, k as int + 1, n as int);
            lemma_byte_offset_full(s@);
        }
        width = width + w as u128;
        byte_pos = byte_pos + len_utf8(ch);
        k = k + 1;
    }
    proof {
        lemma_end_is_boundary(s@);
    }
    total
}

impl NavState {
    /// The state the bar starts in.
    pub open spec fn new_view() -> NavView {
        NavView {
            url: seq!['a', 'b', 'o', 'u', 't', ':', 'b', 'l', 'a', 'n', 'k'],
            staged: None,
            nav: NavigationCapability { back: false, forward: false },
            cursor: None,
            history_meta: false,
        }
    }

    /// The bar as it starts: `about:blank`, nothing staged, no history,
    /// unfocused, with Alt as the history modifier.
    pub fn new() -> (st: NavState)
        ensures
            st@ == NavState::new_view(),
    {
        let url = "about:blank".to_owned();
        proof {
            reveal_strlit("about:blank");
            assert(url@ =~= NavState::new_view().url);
        }
        NavState {
            url,
            staged: None,
            nav: NavigationCapability { back: false, forward: false },
            cursor: None,
            history_meta: false,
        }
    }

    /// The text shown in the address bar.
    pub fn displayed_url(&self) -> (s: &str)
        ensures
            s@ == displayed(self@),
    {
        match &self.staged {
            Some(s) => s.as_str(),
            None => self.url.as_str(),
        }
    }

    /// Whether the caret, if any, is on a character boundary of the text
    /// shown or past its end.
    pub fn caret_in_text(&self) -> (b: bool)
        ensures
            b == cursor_in_text(self@),
    {
        match self.cursor {
            None => true,
            Some(c) => {
                let s = self.displayed_url();
                let n = byte_len(s);
                c > n || is_char_boundary_at(s, c)
            },
        }
    }

    /// Whether `keyboard` can take `key` in this state; see
    /// `keyboard_accepts`.
    pub fn accepts_key(&self, key: &Key) -> (b: bool)
        ensures
            b == keyboard_accepts(self@, *key),
    {
        match self.cursor {
            None => true,
            Some(c) => {
                let n = byte_len(self.displayed_url());
                let horizontal = match key {
                    Key::Named(NamedKey::ArrowLeft) | Key::Named(NamedKey::ArrowRight) => true,
                    _ => false,
                };
                let slices = match key {
                    Key::Named(NamedKey::ArrowLeft) | Key::Named(NamedKey::ArrowRight)
                    | Key::Named(NamedKey::Backspace) | Key::Named(NamedKey::Delete) => true,
                    Key::Character(t) => {
                        if t.as_str().is_empty() {
                            false
                        } else {
                            !is_control(t.as_str().get_char(0))
                        }
                    },
                    _ => false,
                };
                (!slices || self.caret_in_text()) && (!horizontal || c <= n)
            },
        }
    }

    fn edit_buffer(&self) -> (s: String)
        ensures
            s@ == displayed(self@),
    {
        match &self.staged {
            Some(s) => s.clone(),
            None => self.url.clone(),
        }
    }

    /// Feed a key to the bar; see `keyboard_spec`.
    #[verifier::rlimit(40)]
    pub fn keyboard(&mut self, key: &Key, modifiers: Modifiers) -> (action: NavAction)
        requires
            keyboard_accepts(old(self)@, *key),
        ensures
            final(self)@ == keyboard_spec(old(self)@, *key, modifiers).0,
            action@ == keyboard_spec(old(self)@, *key, modifiers).1,
    {
        let cursor = match self.cursor {
            None => {
                let modifier = if self.history_meta {
                    modifiers.meta
                } else {
                    modifiers.alt
                };
                return match key {
                    Key::Named(NamedKey::ArrowLeft) => {
                        if modifier {
                            NavAction::GoBack
                        } else {
                            NavAction::Forward
                        }
                    },
                    Key::Named(NamedKey::ArrowRight) => {
                        if modifier {
                            NavAction::GoForward
                        } else {
                            NavAction::Forward
                        }
                    },
                    _ => NavAction::Forward,
                };
            },
            Some(c) => c,
        };
        let ghost v = self@;
        let ghost s = displayed(v);
        match key {
            Key::Named(NamedKey::Enter) => {
                let raw = self.displayed_url().to_owned();
                self.staged = None;
                self.cursor = None;
                return NavAction::GoTo(raw);
            },
            Key::Named(NamedKey::ArrowUp) => {
                self.cursor = Some(0);
            },
            Key::Named(NamedKey::ArrowDown) => {
                let n = byte_len(self.displayed_url());
                self.cursor = Some(n);
            },
            Key::Named(NamedKey::ArrowRight) => {
                let new = {
                    let d = self.displayed_url();
                    let n = byte_len(d);
                    let (_, rest) = split_at_boundary(d, cursor);
                    proof {
                        lemma_chars_before_bounds(s, cursor as int);
                    }
                    if rest.is_empty() {
                        n
                    } else {
                        let ch = rest.get_char(0);
                        proof {
                            let k = chars_before(s, cursor as int);
                            lemma_byte_offset_step(s, k);
                            lemma_byte_offset_mono(s, k + 1, s.len() as int);
                            lemma_byte_offset_full(s);
                        }
                        cursor + len_utf8(ch)
                    }
                };
                self.cursor = Some(new);
            },
            Key::Named(NamedKey::ArrowLeft) => {
                let new = {
                    let d = self.displayed_url();
                    let (before, _) = split_at_boundary(d, cursor);
                    let m = before.unicode_len();
                    proof {
                        lemma_chars_before_bounds(s, cursor as int);
                    }
                    if m == 0 {
                        0
                    } else {
                        let ch = before.get_char(m - 1);
                        proof {
                            let k = chars_before(s, cursor as int);
                            lemma_byte_offset_step(s, k - 1);
                        }
                        cursor - len_utf8(ch)
                    }
                };
                self.cursor = Some(new);
            },
            Key::Named(NamedKey::Backspace) => {
                if cursor > 0 {
                    let buf = self.edit_buffer();
                    let n = byte_len(buf.as_str());
                    let clamped = if cursor < n { cursor } else { n };
                    proof {
                        lemma_end_is_boundary(s);
                    }
                    let (before, after) = split_at_boundary(buf.as_str(), clamped);
                    let m = before.unicode_len();
                    proof {
                        lemma_chars_before_bounds(s, clamped as int);
                    }
                    if m > 0 {
                        let ch = before.get_char(m - 1);
                        let head = before.substring_char(0, m - 1);
                        let edited = concat(head, after);
                        proof {
                            let k = chars_before(s, clamped as int);
                            lemma_byte_offset_step(s, k - 1);
                            assert(head@ =~= s.take(k - 1));
                            assert(edited@ =~= remove_char(s, k - 1));
                        }
                        let prev = clamped - len_utf8(ch);
                        self.staged = Some(edited);
                        self.cursor = Some(prev);
                    } else {
                        self.staged = Some(buf);
                    }
                }
            },
            Key::Named(NamedKey::Delete) => {
                let buf = self.edit_buffer();
                let n = byte_len(buf.as_str());
                if cursor < n {
                    let (before, after) = split_at_boundary(buf.as_str(), cursor);
                    proof {
                        lemma_chars_before_bounds(s, cursor as int);
                        lemma_byte_offset_full(s);
                        let k = chars_before(s, cursor as int);
                        if k == s.len() {
                            assert(false);
                        }
                    }
                    let rest = after.substring_char(1, after.unicode_len());
                    let edited = concat(before, rest);
                    proof {
                        let k = chars_before(s, cursor as int);
                        assert(rest@ =~= s.skip(k + 1));
                        assert(edited@ =~= remove_char(s, k));
                    }
                    self.staged = Some(edited);
                } else {
                    self.staged = Some(buf);
                }
            },
            Key::Character(text) => {
                if !text.as_str().is_empty() {
                    let ch = text.as_str().get_char(0);
                    if !is_control(ch) {
                        let buf = self.edit_buffer();
                        let n = byte_len(buf.as_str());
                        let pos = if cursor < n { cursor } else { n };
                        proof {
                            lemma_end_is_boundary(s);
                        }
                        let (before, after) = split_at_boundary(buf.as_str(), pos);
                        let ch_text = text.as_str().substring_char(0, 1);
                        let left = concat(before, ch_text);
                        let edited = concat(left.as_str(), after);
                        let total = byte_len(edited.as_str());
                        proof {
                            let k = chars_before(s, pos as int);
                            lemma_chars_before_bounds(s, pos as int);
                            assert(ch_text@ =~= seq![text@[0]]);
                            assert(edited@ =~= insert_char(s, k, text@[0]));
                            assert(edited@ =~= s.take(k) + (seq![text@[0]] + s.skip(k)));
                            lemma_utf8_len_concat(s.take(k), seq![text@[0]] + s.skip(k));
                            lemma_utf8_len_concat(seq![text@[0]], s.skip(k));
                            lemma_utf8_len_single(text@[0]);
                        }
                        self.staged = Some(edited);
                        self.cursor = Some(pos + len_utf8(ch));
                    }
                }
            },
            _ => {},
        }
        NavAction::Ignore
    }
}

/// What `mouse_down` does: outside the bar (row other than 0) it unfocuses
/// and forwards; on the bar it unfocuses, then the buttons navigate, and a
/// click in the URL field focuses it with the caret at the clicked column.
pub open spec fn mouse_down_spec(v: NavView, col: int, row: int) -> (NavView, NavActionView) {
    let cleared = NavView { cursor: None, staged: None, ..v };
    if row != 0 {
        (cleared, NavActionView::Forward)
    } else if col <= 2 {
        (cleared, NavActionView::GoBack)
    } else if col <= 5 {
        (cleared, NavActionView::GoForward)
    } else if col <= 8 {
        (cleared, NavActionView::Refresh)
    } else if col >= URL_FIELD_START {
        (
            NavView {
                cursor: Some(col_to_byte_offset_spec(v.url, col - URL_FIELD_START) as usize),
                staged: Some(v.url),
                ..v
            },
            NavActionView::Ignore,
        )
    } else {
        (cleared, NavActionView::Ignore)
    }
}

/// What `mouse_up` does: a release outside the bar unfocuses it and goes
/// to the page; one on the bar changes nothing.
pub open spec fn mouse_up_spec(v: NavView, row: int) -> (NavView, NavActionView) {
    if row != 0 {
        (NavView { cursor: None, staged: None, ..v }, NavActionView::Forward)
    } else {
        (v, NavActionView::Ignore)
    }
}

/// What `push` does: the new URL and history flags replace the old, any
/// edit is dropped, and a focused caret jumps to the end of the new URL
/// when the URL changes or an edit that differs from it is dropped, so
/// that the new URL is seen whole.
pub open spec fn push_spec(v: NavView, url: Seq<char>, nav: NavigationCapability) -> NavView {
    NavView {
        url: url,
        staged: None,
        nav: nav,
        cursor: if v.cursor.is_some() && (v.url != url || (v.staged matches Some(e) && e != url)) {
            Some(utf8_len(url) as usize)
        } else {
            v.cursor
        },
        history_meta: v.history_meta,
    }
}

impl NavState {
    /// A mouse press at terminal column `col`, row `row`.
    pub fn mouse_down(&mut self, col: u16, row: u16) -> (action: NavAction)
        ensures
            final(self)@ == mouse_down_spec(old(self)@, col as int, row as int).0,
            action@ == mouse_down_spec(old(self)@, col as int, row as int).1,
    {
        if row != 0 {
            self.cursor = None;
            self.staged = None;
            return NavAction::Forward;
        }
        self.cursor = None;
        self.staged = None;
        if BTN_BACK_START <= col && col <= BTN_BACK_START + BTN_WIDTH - 1 {
            return NavAction::GoBack;
        }
        if BTN_FORWARD_START <= col && col <= BTN_FORWARD_START + BTN_WIDTH - 1 {
            return NavAction::GoForward;
        }
        if BTN_RELOAD_START <= col && col <= BTN_RELOAD_START + BTN_WIDTH - 1 {
            return NavAction::Refresh;
        }
        if col >= URL_FIELD_START {
            let col_offset = (col - URL_FIELD_START) as usize;
            let pos = col_to_byte_offset(self.url.as_str(), col_offset);
            self.cursor = Some(pos);
            self.staged = Some(self.url.clone());
            return NavAction::Ignore;
        }
        NavAction::Ignore
    }

    /// A mouse release: outside the bar it unfocuses and forwards.
    pub fn mouse_up(&mut self, col: u16, row: u16) -> (action: NavAction)
        ensures
            final(self)@ == mouse_up_spec(old(self)@, row as int).0,
            action@ == mouse_up_spec(old(self)@, row as int).1,
    {
        if row != 0 {
            self.cursor = None;
            self.staged = None;
            NavAction::Forward
        } else {
            NavAction::Ignore
        }
    }

    /// Commit a new URL and history flags after a navigation.
    pub fn push(&mut self, url: String, nav: NavigationCapability)
        ensures
            final(self)@ == push_spec(old(self)@, url@, nav),
    {
        let edit_differs = match &self.staged {
            Some(e) => !str_eq(e.as_str(), url.as_str()),
            None => false,
        };
        if self.cursor.is_some() && (self.url != url || edit_differs) {
            self.cursor = Some(byte_len(url.as_str()));
        }
        self.url = url;
        self.staged = None;
        self.nav = nav;
    }
}

/// The navigation bar widget over a borrowed state.
#[derive(Clone, Copy)]
pub struct NavWidget<'a> {
    pub state: &'a NavState,
}

/// Columns available to the URL text inside the field.
pub open spec fn url_space(width: int) -> int {
    if width >= URL_FIELD_START + URL_FIELD_INNER_PADDING {
        width - URL_FIELD_START - URL_FIELD_INNER_PADDING
    } else {
        0
    }
}

/// The part of the displayed text that the URL field shows: its first
/// `url_space` characters.
pub open spec fn url_display(v: NavView, width: int) -> Seq<char> {
    let s = displayed(v);
    s.take(if url_space(width) < s.len() { url_space(width) } else { s.len() as int })
}

/// `n` spaces.
pub open spec fn spaces(n: int) -> Seq<char> {
    Seq::new(n as nat, |i: int| ' ')
}

/// The text of the URL field: a space, the shown part of the URL, spaces up
/// to the field's width, and a closing space.
pub open spec fn padded_url_spec(v: NavView, width: int) -> Seq<char> {
    let shown = url_display(v, width);
    seq![' '] + shown + spaces(url_space(width) - str_width_of(shown)) + seq![' ']
}

/// Where the terminal cursor goes for a focused bar in `area`: after the
/// width of the text before the caret, clamped to the area's last column.
pub open spec fn cursor_position_spec(v: NavView, area: Rect) -> Option<(u16, u16)> {
    match v.cursor {
        None => None,
        Some(b) => {
            let s = displayed(v);
            let n = utf8_len(s);
            let before = s.take(chars_before(s, if b < n { b as int } else { n }));
            let col = URL_FIELD_START + (str_width_of(before) as u16);
            let last = if area.width >= 1 { area.width - 1 } else { 0 };
            Some(((area.x + if col < last { col } else { last }) as u16, area.y))
        },
    }
}

/// The colours (foreground, background) of a part of the bar: black on
/// white when enabled, dark grey on white when not.
pub open spec fn bar_colors_spec(enabled: bool) -> (TerminalColor, TerminalColor) {
    if enabled {
        (TerminalColor::Black, TerminalColor::White)
    } else {
        (TerminalColor::DarkGray, TerminalColor::White)
    }
}

/// The colours of a part of the bar; see `bar_colors_spec`.
pub fn bar_colors(enabled: bool) -> (c: (TerminalColor, TerminalColor))
    ensures
        c == bar_colors_spec(enabled),
{
    if enabled {
        (TerminalColor::Black, TerminalColor::White)
    } else {
        (TerminalColor::DarkGray, TerminalColor::White)
    }
}

impl<'a> NavWidget<'a> {
    /// The bar's buttons, left to right, each drawn as `[glyph]`: back
    /// (enabled when there is history behind), forward (when there is
    /// history ahead) and reload (always enabled).
    pub fn buttons(&self) -> (b: Vec<(String, bool)>)
        ensures
            b@.len() == 3,
            b@[0].0@ == seq!['\u{2039}'] && b@[0].1 == self.state.nav.back,
            b@[1].0@ == seq!['\u{203a}'] && b@[1].1 == self.state.nav.forward,
            b@[2].0@ == seq!['\u{21bb}'] && b@[2].1,
    {
        let mut b: Vec<(String, bool)> = Vec::new();
        b.push((char_to_string('\u{2039}'), self.state.nav.can_go_back()));
        b.push((char_to_string('\u{203a}'), self.state.nav.can_go_forward()));
        b.push((char_to_string('\u{21bb}'), true));
        b
    }

    pub fn new(state: &'a NavState) -> (w: Self)
        ensures
            w.state == state,
    {
        NavWidget { state }
    }

    /// Terminal cursor position for the address bar drawn in `area`, when
    /// the bar is focused.
    pub fn cursor_position(&self, area: Rect) -> (pos: Option<(u16, u16)>)
        requires
            area.wf(),
            cursor_in_text(self.state@),
        ensures
            pos == cursor_position_spec(self.state@, area),
    {
        let byte_pos = match self.state.cursor {
            Some(b) => b,
            None => return None,
        };
        let s = self.state.displayed_url();
        let n = byte_len(s);
        let end = if byte_pos < n { byte_pos } else { n };
        proof {
            lemma_end_is_boundary(s@);
        }
        let (before, _) = split_at_boundary(s, end);
        let display_col = str_width(before) as u16;
        let col: u32 = URL_FIELD_START as u32 + display_col as u32;
        let last: u32 = if area.width >= 1 { (area.width - 1) as u32 } else { 0 };
        let clamped = if col < last { col } else { last };
        Some(((area.x as u32 + clamped) as u16, area.y))
    }

    /// The URL field's text for a bar `width` columns wide: a space, the
    /// first characters of the displayed URL that fit, padding spaces and a
    /// closing space. Requires the shown characters to fit the field.
    pub fn padded_url(&self, width: u16) -> (text: String)
        requires
            str_width_of(url_display(self.state@, width as int)) <= url_space(width as int),
        ensures
            text@ == padded_url_spec(self.state@, width as int),
    {
        let space: usize = if width >= URL_FIELD_START + URL_FIELD_INNER_PADDING {
            (width - URL_FIELD_START - URL_FIELD_INNER_PADDING) as usize
        } else {
            0
        };
        let s = self.state.displayed_url();
        let len = s.unicode_len();
        let take = if space < len { space } else { len };
        let shown = s.substring_char(0, take);
        let w = str_width(shown);
        proof {
            reveal_strlit(" ");
            assert(shown@ =~= url_display(self.state@, width as int));
        }
        let mut out = concat(" ", shown);
        let pad = space - w;
        let mut i: usize = 0;
        while i < pad
            invariant
                i <= pad,
                out@ =~= seq![' '] + shown@ + spaces(i as int),
            decreases pad - i,
        {
            out.append(" ");
            proof {
                reveal_strlit(" ");
                assert(spaces(i as int + 1) =~= spaces(i as int) + seq![' ']);
            }
            i = i + 1;
        }
        out.append(" ");
        proof {
            reveal_strlit(" ");
        }
        out
    }

    /// The URL field's text, or `None` when the shown characters are wider
    /// than the field (where the bar cannot be laid out).
    pub fn try_padded_url(&self, width: u16) -> (text: Option<String>)
        ensures
            str_width_of(url_display(self.state@, width as int)) <= url_space(width as int)
                ==> (text matches Some(t) && t@ == padded_url_spec(self.state@, width as int)),
            str_width_of(url_display(self.state@, width as int)) > url_space(width as int)
                ==> text.is_none(),
    {
        let space: usize = if width >= URL_FIELD_START + URL_FIELD_INNER_PADDING {
            (width - URL_FIELD_START - URL_FIELD_INNER_PADDING) as usize
        } else {
            0
        };
        let s = self.state.displayed_url();
        let len = s.unicode_len();
        let take = if space < len { space } else { len };
        let shown = s.substring_char(0, take);
        proof {
            assert(shown@ =~= url_display(self.state@, width as int));
        }
        if str_width(shown) > space {
            None
        } else {
            Some(self.padded_url(width))
        }
    }
}

/// Offsets into a prefix that two texts share are the same.
proof fn lemma_byte_offset_shared(s: Seq<char>, t: Seq<char>, j: int)
    requires
        0 <= j <= s.len(),
        j <= t.len(),
        s.take(j) == t.take(j),
    ensures
        byte_offset(s, j) == byte_offset(t, j),
{
}

/// A boundary at or before the end of `s` is the offset of the characters
/// before it.
proof fn lemma_boundary_offset(s: Seq<char>, c: int)
    requires
        is_boundary(s, c),
    ensures
        0 <= chars_before(s, c) <= s.len(),
        byte_offset(s, chars_before(s, c)) == c,
{
    lemma_chars_before_bounds(s, c);
}

/// The character offsets of `insert_char(s, k, ch)` around the new
/// character.
proof fn lemma_insert_offsets(s: Seq<char>, k: int, ch: char)
    requires
        0 <= k <= s.len(),
    ensures
        byte_offset(insert_char(s, k, ch), k) == byte_offset(s, k),
        byte_offset(insert_char(s, k, ch), k + 1) == byte_offset(s, k) + char_len(ch),
        insert_char(s, k, ch).len() == s.len() + 1,
{
    let t = insert_char(s, k, ch);
    assert(t.take(k) =~= s.take(k));
    assert(t.take(k + 1) =~= s.take(k) + seq![ch]);
    lemma_utf8_len_concat(s.take(k), seq![ch]);
    lemma_utf8_len_single(ch);
}

/// The caret, where there is one, is not past the end of the text shown.
pub open spec fn cursor_within(v: NavView) -> bool {
    v.cursor matches Some(c) ==> c <= utf8_len(displayed(v))
}

/// Every key the bar accepts keeps a caret inside the text on a character
/// boundary: the bar never puts its caret in the middle of a character,
/// and never past the end of the text. This holds of every text a
/// `String` can hold (at most `isize::MAX` bytes).
pub proof fn lemma_keyboard_keeps_caret(v: NavView, key: Key, modifiers: Modifiers)
    requires
        cursor_in_text(v),
        keyboard_accepts(v, key),
        utf8_len(displayed(v)) <= isize::MAX,
    ensures
        cursor_in_text(keyboard_spec(v, key, modifiers).0),
        cursor_within(v) ==> cursor_within(keyboard_spec(v, key, modifiers).0),
{
    assert(isize::MAX + 4 <= usize::MAX);
    if let Some(c0) = v.cursor {
        let c = c0 as int;
        let s = displayed(v);
        let n = utf8_len(s);
        lemma_end_is_boundary(s);
        if !(key matches Key::Named(NamedKey::Enter)) {
            let nv = focused_key_spec(v, key, c);
            assert(keyboard_spec(v, key, modifiers).0 == nv);
            match key {
                Key::Named(NamedKey::ArrowUp) => {
                    lemma_chars_before_offset(s, 0);
                    lemma_byte_offset_zero(s);
                    assert(cursor_in_text(nv));
                },
                Key::Named(NamedKey::ArrowRight) => {
                    lemma_boundary_offset(s, c);
                    let k = chars_before(s, c);
                    if k < s.len() {
                        lemma_chars_before_offset(s, k + 1);
                        lemma_byte_offset_mono(s, k + 1, s.len() as int);
                        lemma_byte_offset_full(s);
                    }
                    assert(cursor_in_text(nv));
                },
                Key::Named(NamedKey::ArrowLeft) => {
                    lemma_boundary_offset(s, c);
                    let k = chars_before(s, c);
                    if k > 0 {
                        lemma_chars_before_offset(s, k - 1);
                        lemma_byte_offset_mono(s, k - 1, s.len() as int);
                        lemma_byte_offset_full(s);
                    } else {
                        lemma_chars_before_offset(s, 0);
                        lemma_byte_offset_zero(s);
                    }
                    assert(cursor_in_text(nv));
                },
                Key::Named(NamedKey::Backspace) => {
                    if c > 0 {
                        let p = if c < n { c } else { n };
                        lemma_boundary_offset(s, p);
                        let k = chars_before(s, p);
                        if k > 0 {
                            let t = remove_char(s, k - 1);
                            assert(t.take(k - 1) =~= s.take(k - 1));
                            lemma_byte_offset_shared(s, t, k - 1);
                            lemma_chars_before_offset(t, k - 1);
                            lemma_byte_offset_mono(s, k - 1, s.len() as int);
                            lemma_byte_offset_full(s);
                            lemma_byte_offset_mono(t, k - 1, t.len() as int);
                            lemma_byte_offset_full(t);
                        }
                    }
                    assert(cursor_in_text(nv));
                },
                Key::Named(NamedKey::Delete) => {
                    if c < n {
                        lemma_boundary_offset(s, c);
                        let k = chars_before(s, c);
                        let t = remove_char(s, k);
                        lemma_byte_offset_full(s);
                        assert(k < s.len());
                        assert(t.take(k) =~= s.take(k));
                        lemma_byte_offset_shared(s, t, k);
                        lemma_chars_before_offset(t, k);
                        lemma_byte_offset_mono(t, k, t.len() as int);
                        lemma_byte_offset_full(t);
                    }
                    assert(cursor_in_text(nv));
                },
                Key::Character(text) => {
                    if text@.len() > 0 && !is_control_spec(text@[0]) {
                        let p = if c < n { c } else { n };
                        lemma_boundary_offset(s, p);
                        let k = chars_before(s, p);
                        lemma_insert_offsets(s, k, text@[0]);
                        lemma_chars_before_offset(insert_char(s, k, text@[0]), k + 1);
                        let ins = insert_char(s, k, text@[0]);
                        lemma_byte_offset_mono(ins, k + 1, ins.len() as int);
                        lemma_byte_offset_full(ins);
                    }
                    assert(cursor_in_text(nv));
                },
                _ => {},
            }
            assert(cursor_in_text(nv));
        }
    }
}

/// Typing a character and then Backspace gives back the text shown and
/// the caret: the character typed is the one removed.
pub proof fn lemma_type_then_backspace(v: NavView, text: String, modifiers: Modifiers)
    requires
        cursor_in_text(v),
        v.cursor is Some,
        text@.len() > 0,
        !is_control_spec(text@[0]),
        v.cursor.unwrap() <= utf8_len(displayed(v)),
        utf8_len(displayed(v)) <= isize::MAX,
    ensures
        ({
            let v1 = keyboard_spec(v, Key::Character(text), modifiers).0;
            let v2 = keyboard_spec(v1, Key::Named(NamedKey::Backspace), modifiers).0;
            &&& displayed(v2) == displayed(v)
            &&& v2.cursor == v.cursor
            &&& v2.url == v.url
        }),
{
    assert(isize::MAX + 4 <= usize::MAX);
    let c = v.cursor.unwrap() as int;
    let s = displayed(v);
    let n = utf8_len(s);
    let ch = text@[0];
    lemma_boundary_offset(s, c);
    let k = chars_before(s, c);
    let s1 = insert_char(s, k, ch);
    lemma_insert_offsets(s, k, ch);
    lemma_char_len_pos(ch);
    let c1 = c + char_len(ch);
    let v1 = keyboard_spec(v, Key::Character(text), modifiers).0;
    assert(v1 == with_cursor(with_staged(v, s1), c1));
    assert(displayed(v1) == s1);
    lemma_byte_offset_full(s1);
    lemma_byte_offset_mono(s1, k + 1, s1.len() as int);
    lemma_chars_before_offset(s1, k + 1);
    assert(chars_before(s1, c1) == k + 1);
    let s2 = remove_char(s1, k);
    assert(s2 =~= s);
    assert(s1.take(k) =~= s.take(k));
}

proof fn lemma_char_len_pos(c: char)
    ensures
        1 <= char_len(c) <= 4,
{
    crate::text::lemma_char_len_bounds(c);
}

/// After a navigation is committed the bar shows the new URL, whatever
/// was being edited.
pub proof fn lemma_push_shows_url(v: NavView, url: Seq<char>, nav: NavigationCapability)
    ensures
        displayed(push_spec(v, url, nav)) == url,
        push_spec(v, url, nav).nav == nav,
{
}

proof fn lemma_col_char_index_bounds(s: Seq<char>, col: int, k: int, width: int)
    requires
        0 <= k <= s.len(),
    ensures
        k <= col_char_index(s, col, k, width) <= s.len(),
    decreases s.len() - k,
{
    if k < s.len() && width < col {
        lemma_col_char_index_bounds(s, col, k + 1, width + col_width(s[k]));
    }
}

/// A click on the address field puts the caret on a character boundary of
/// the URL it starts editing.
pub proof fn lemma_mouse_down_keeps_caret(v: NavView, col: int, row: int)
    requires
        utf8_len(v.url) <= usize::MAX,
    ensures
        cursor_in_text(mouse_down_spec(v, col, row).0),
{
    if row == 0 && col > 8 && col >= URL_FIELD_START {
        let k = col_char_index(v.url, col - URL_FIELD_START, 0, 0);
        lemma_col_char_index_bounds(v.url, col - URL_FIELD_START, 0, 0);
        lemma_chars_before_offset(v.url, k);
        lemma_byte_offset_mono(v.url, k, v.url.len() as int);
        lemma_byte_offset_full(v.url);
    }
}

/// Right then Left brings the caret back, when it was before the end of
/// the text on a character boundary.
pub proof fn lemma_right_then_left(v: NavView, modifiers: Modifiers)
    requires
        cursor_in_text(v),
        v.cursor is Some,
        v.cursor.unwrap() < utf8_len(displayed(v)),
        utf8_len(displayed(v)) <= usize::MAX,
    ensures
        ({
            let v1 = keyboard_spec(v, Key::Named(NamedKey::ArrowRight), modifiers).0;
            let v2 = keyboard_spec(v1, Key::Named(NamedKey::ArrowLeft), modifiers).0;
            v2 == v
        }),
{
    let c = v.cursor.unwrap() as int;
    let s = displayed(v);
    lemma_boundary_offset(s, c);
    let k = chars_before(s, c);
    lemma_byte_offset_full(s);
    assert(k < s.len());
    lemma_chars_before_offset(s, k + 1);
    lemma_byte_offset_mono(s, k + 1, s.len() as int);
    let v1 = keyboard_spec(v, Key::Named(NamedKey::ArrowRight), modifiers).0;
    assert(v1 == with_cursor(v, byte_offset(s, k + 1)));
    assert(displayed(v1) == s);
}

/// Committing a navigation keeps a caret inside the text on a character
/// boundary: where the caret stays, the text shown is unchanged.
pub proof fn lemma_push_keeps_caret(v: NavView, url: Seq<char>, nav: NavigationCapability)
    requires
        cursor_in_text(v),
        utf8_len(url) <= usize::MAX,
    ensures
        cursor_in_text(push_spec(v, url, nav)),
{
    lemma_end_is_boundary(url);
    if v.cursor.is_some() && !(v.url != url || (v.staged matches Some(e) && e != url)) {
        assert(displayed(v) == url);
    }
}

/// Where every character is one column wide, the character at column `c`
/// is the `c`-th (or the end, past the text).
proof fn lemma_unit_width_col_index(s: Seq<char>, c: int, k: int)
    requires
        forall|i: int| 0 <= i < s.len() ==> char_width_of(#[trigger] s[i]) == Some(1usize),
        0 <= k <= c,
        k <= s.len(),
    ensures
        col_char_index(s, c, k, k) == if c < s.len() { c } else { s.len() as int },
    decreases s.len() - k,
{
    if k < s.len() && k < c {
        assert(col_width(s[k]) == 1);
        lemma_unit_width_col_index(s, c, k + 1);
    }
}

/// In ASCII text the `k`-th character starts at byte `k`.
proof fn lemma_ascii_offset(s: Seq<char>, k: int)
    requires
        forall|i: int| 0 <= i < s.len() ==> is_printable_ascii(#[trigger] s[i]),
        0 <= k <= s.len(),
    ensures
        byte_offset(s, k) == k,
    decreases k,
{
    if k == 0 {
        lemma_byte_offset_zero(s);
    } else {
        lemma_ascii_offset(s, k - 1);
        lemma_byte_offset_step(s, k - 1);
        crate::text::lemma_char_len_bounds(s[k - 1]);
    }
}

/// A click on the address field, at a column over the URL or just past
/// it, puts the terminal cursor on the clicked column. This is stated for
/// a URL of printable ASCII (what a serialised URL is), where unicode-width
/// gives each character, and so each prefix, one column (see `char_width`
/// and `str_width`). An unfocused bar shows no cursor.
pub proof fn lemma_click_places_cursor(v: NavView, col: int, area: Rect)
    requires
        forall|i: int| 0 <= i < v.url.len() ==> is_printable_ascii(#[trigger] v.url[i]),
        forall|i: int| 0 <= i < v.url.len() ==> char_width_of(#[trigger] v.url[i]) == Some(1usize),
        forall|k: int| 0 <= k <= v.url.len() ==> str_width_of(#[trigger] v.url.take(k)) == k,
        URL_FIELD_START <= col <= URL_FIELD_START + v.url.len(),
        col < area.width,
        area.wf(),
    ensures
        cursor_position_spec(mouse_down_spec(v, col, 0).0, area) == Some(
            ((area.x + col) as u16, area.y),
        ),
        v.cursor is None ==> cursor_position_spec(v, area) is None,
{
    let s = v.url;
    let c = col - URL_FIELD_START;
    lemma_unit_width_col_index(s, c, 0);
    assert(col_char_index(s, c, 0, 0) == c);
    lemma_ascii_offset(s, c);
    lemma_ascii_offset(s, s.len() as int);
    lemma_byte_offset_full(s);
    let v1 = mouse_down_spec(v, col, 0).0;
    assert(v1.cursor == Some(c as usize));
    assert(displayed(v1) == s);
    lemma_chars_before_offset(s, c);
    assert(chars_before(s, c) == c);
    assert(str_width_of(s.take(c)) == c);
}

} // verus!
