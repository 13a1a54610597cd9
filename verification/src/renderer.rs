//! The cell renderer: a double-buffered grid of terminal cells (previous,
//! current). Each cell shows either a grapheme or four quadrant colours
//! sampled from the page's pixels; `render` reports the cells that changed.
//!
//! Row 0 of the grid belongs to the navigation bar; the page viewport of
//! `size.width` by `size.height` cells starts at row 1.

use vstd::prelude::*;

use crate::browser_widget::{source_coord, source_index};
use crate::gfx::{avg_color, Color, Point, Rect, Size};
use crate::keys::{Key, Modifiers};
use crate::text::str_eq;
use crate::width::{graphemes, graphemes_of, str_width, str_width_of};
use crate::nav_widget::{
    keyboard_accepts, keyboard_spec, mouse_down_spec, push_spec, NavAction, NavActionView, NavState,
    NavView, NavigationCapability,
};

verus! {

/// Text drawn in a cell: the `index`-th column of a grapheme `width`
/// columns wide.
#[derive(Debug)]
pub struct Grapheme {
    pub char: String,
    pub index: usize,
    pub width: usize,
    pub color: Color,
}

/// A terminal cell: its position, four quadrant colours (top-left,
/// top-right, bottom-right, bottom-left) and an optional grapheme on top.
#[derive(Debug)]
pub struct Cell {
    pub cursor: (u32, u32),
    pub quadrant: (Color, Color, Color, Color),
    pub grapheme: Option<Grapheme>,
}

/// `Grapheme` with its text as a character sequence.
pub struct GraphemeView {
    pub char: Seq<char>,
    pub index: usize,
    pub width: usize,
    pub color: Color,
}

/// `Cell` with its grapheme's text as a character sequence.
pub struct CellView {
    pub cursor: (u32, u32),
    pub quadrant: (Color, Color, Color, Color),
    pub grapheme: Option<GraphemeView>,
}

impl View for Grapheme {
    type V = GraphemeView;

    open spec fn view(&self) -> GraphemeView {
        GraphemeView { char: self.char@, index: self.index, width: self.width, color: self.color }
    }
}

impl View for Cell {
    type V = CellView;

    open spec fn view(&self) -> CellView {
        CellView {
            cursor: self.cursor,
            quadrant: self.quadrant,
            grapheme: match self.grapheme {
                Some(g) => Some(g@),
                None => None,
            },
        }
    }
}

pub open spec fn black() -> Color {
    Color { r: 0, g: 0, b: 0 }
}

/// A blank cell at (x, y): black quadrants, no grapheme.
pub open spec fn blank_cell(x: u32, y: u32) -> CellView {
    CellView { cursor: (x, y), quadrant: (black(), black(), black(), black()), grapheme: None }
}

impl Grapheme {
    pub fn duplicate(&self) -> (g: Grapheme)
        ensures
            g@ == self@,
    {
        Grapheme { char: self.char.clone(), index: self.index, width: self.width, color: self.color }
    }

    /// Same text, colour, position in the grapheme and width.
    pub fn same(&self, other: &Grapheme) -> (b: bool)
        ensures
            b == (self@ == other@),
    {
        self.char == other.char && self.index == other.index && self.width == other.width
            && self.color == other.color
    }
}

impl Cell {
    /// A blank cell at column `x`, row `y`.
    pub fn new(x: u32, y: u32) -> (c: Cell)
        ensures
            c@ == blank_cell(x, y),
    {
        let black = Color { r: 0, g: 0, b: 0 };
        Cell { cursor: (x, y), quadrant: (black, black, black, black), grapheme: None }
    }

    pub fn duplicate(&self) -> (c: Cell)
        ensures
            c@ == self@,
    {
        Cell {
            cursor: self.cursor,
            quadrant: self.quadrant,
            grapheme: match &self.grapheme {
                Some(g) => Some(g.duplicate()),
                None => None,
            },
        }
    }

    /// Cells are equal: same position, quadrants and grapheme.
    pub fn same(&self, other: &Cell) -> (b: bool)
        ensures
            b == (self@ == other@),
    {
        if self.cursor.0 != other.cursor.0 || self.cursor.1 != other.cursor.1 {
            return false;
        }
        let (a0, a1, a2, a3) = self.quadrant;
        let (b0, b1, b2, b3) = other.quadrant;
        if a0 != b0 || a1 != b1 || a2 != b2 || a3 != b3 {
            return false;
        }
        match (&self.grapheme, &other.grapheme) {
            (None, None) => true,
            (Some(a), Some(b)) => a.same(b),
            _ => false,
        }
    }
}

/// The renderer: navigation-bar state, the double-buffered cells, whether
/// the terminal has 24-bit colour, and the viewport size in cells.
pub struct Renderer {
    pub nav: NavState,
    pub cells: Vec<(Cell, Cell)>,
    pub true_color: bool,
    pub size: Size,
}

impl Renderer {
    /// One pair of cells per cell of the viewport plus the navigation row.
    pub open spec fn wf(&self) -> bool {
        self.cells@.len() == self.size.width * (self.size.height + 1)
    }

    pub open spec fn current(&self, i: int) -> CellView {
        self.cells@[i].1@
    }

    pub open spec fn previous(&self, i: int) -> CellView {
        self.cells@[i].0@
    }

    /// An empty renderer: no cells, size 0 by 0, 256-colour mode.
    pub fn new() -> (r: Renderer)
        ensures
            r.wf(),
            r.cells@.len() == 0,
            r.size == (Size { width: 0, height: 0 }),
            !r.true_color,
            r.nav@ == NavState::new_view(),
    {
        let r = Renderer {
            nav: NavState::new(),
            cells: Vec::new(),
            true_color: false,
            size: Size { width: 0, height: 0 },
        };
        assert(r.size.width * (r.size.height + 1) == 0);
        r
    }

    /// Paint with 24-bit colours from now on.
    pub fn enable_true_color(&mut self)
        ensures
            final(self).true_color,
            final(self).nav@ == old(self).nav@,
            final(self).cells@ == old(self).cells@,
            final(self).size == old(self).size,
    {
        self.true_color = true;
    }

    pub fn get_size(&self) -> (s: Size)
        ensures
            s == self.size,
    {
        self.size
    }

    /// Resize the viewport and reset every cell to blank; cell `i` sits at
    /// column `i % width`, row `i / width`. A width of 0 leaves no cells.
    pub fn set_size(&mut self, size: Size)
        requires
            size.width * (size.height + 1) <= u32::MAX,
        ensures
            size.width == 0 ==> final(self).cells@.len() == 0,
            cursors_aligned(*final(self)),
            final(self).wf(),
            final(self).size == size,
            final(self).true_color == old(self).true_color,
            final(self).nav@ == old(self).nav@,
            forall|i: int|
                0 <= i < final(self).cells@.len() ==> {
                    &&& #[trigger] final(self).current(i) == blank_cell((i % size.width as int) as u32, (i / size.width as int) as u32)
                    &&& final(self).previous(i) == blank_cell((i % size.width as int) as u32, (i / size.width as int) as u32)
                },
    {
        self.size = size;
        if size.width == 0 {
            self.cells = Vec::new();
            assert(size.width * (size.height + 1) == 0);
            return;
        }
        let mut x: u32 = 0;
        let mut y: u32 = 0;
        let bound = size.width - 1;
        assert(size.width * size.height + size.width == size.width * (size.height + 1)) by (nonlinear_arith);
        let count = (size.width + size.width * size.height) as usize;
        let mut cells: Vec<(Cell, Cell)> = Vec::new();
        let mut i: usize = 0;
        while i < count
            invariant
                size.width >= 1,
                bound == size.width - 1,
                count == size.width * (size.height + 1),
                size.width * (size.height + 1) <= u32::MAX,
                i <= count,
                cells@.len() == i,
                x == (i as int) % (size.width as int),
                y == (i as int) / (size.width as int),
                forall|j: int|
                    0 <= j < i ==> {
                        &&& (#[trigger] cells@[j]).1@ == blank_cell((j % size.width as int) as u32, (j / size.width as int) as u32)
                        &&& cells@[j].0@ == blank_cell((j % size.width as int) as u32, (j / size.width as int) as u32)
                    },
            decreases count - i,
        {
            cells.push((Cell::new(x, y), Cell::new(x, y)));
            proof {
                let w = size.width as int;
                let ii = i as int;
                assert(ii == y * w + x) by {
                    vstd::arithmetic::div_mod::lemma_fundamental_div_mod(ii, w);
                    assert(w * (ii / w) == (ii / w) * w) by (nonlinear_arith);
                }
                vstd::arithmetic::div_mod::lemma_mod_bound(ii, w);
                assert(y * w <= ii) by (nonlinear_arith)
                    requires
                        ii == y * w + x,
                        x >= 0,
                ;
                assert(y <= ii) by (nonlinear_arith)
                    requires
                        y * w <= ii,
                        w >= 1,
                        y >= 0,
                ;
                if x < bound {
                    vstd::arithmetic::div_mod::lemma_fundamental_div_mod_converse(ii + 1, w, y as int, x + 1);
                } else {
                    assert((y + 1) * w == y * w + w) by (nonlinear_arith);
                    vstd::arithmetic::div_mod::lemma_fundamental_div_mod_converse(ii + 1, w, y + 1, 0);
                }
            }
            if x < bound {
                x = x + 1;
            } else {
                x = 0;
                y = y + 1;
            }
            i = i + 1;
        }
        self.cells = cells;
    }

    /// Drop every grapheme, keeping the quadrant colours.
    pub fn clear_text(&mut self)
        ensures
            cursors_aligned(*old(self)) ==> cursors_aligned(*final(self)),
            final(self).cells@.len() == old(self).cells@.len(),
            final(self).size == old(self).size,
            final(self).true_color == old(self).true_color,
            final(self).nav@ == old(self).nav@,
            forall|i: int|
                0 <= i < final(self).cells@.len() ==> {
                    &&& #[trigger] final(self).current(i) == CellView { grapheme: None, ..old(self).current(i) }
                    &&& final(self).previous(i) == old(self).previous(i)
                },
    {
        let n = self.cells.len();
        let mut i: usize = 0;
        while i < n
            invariant
                n == self.cells@.len(),
                n == old(self).cells@.len(),
                i <= n,
                self.size == old(self).size,
                self.true_color == old(self).true_color,
                self.nav@ == old(self).nav@,
                forall|j: int|
                    0 <= j < n ==> {
                        &&& #[trigger] self.current(j) == if j < i {
                            CellView { grapheme: None, ..old(self).current(j) }
                        } else {
                            old(self).current(j)
                        }
                        &&& self.previous(j) == old(self).previous(j)
                    },
            decreases n - i,
        {
            let ghost before = self.cells@;
            assert forall|j: int| 0 <= j < n implies {
                &&& (#[trigger] before[j]).1@ == if j < i {
                    CellView { grapheme: None, ..old(self).current(j) }
                } else {
                    old(self).current(j)
                }
                &&& before[j].0@ == old(self).previous(j)
            } by {
                assert(self.current(j) == before[j].1@);
            }
            self.cells[i].1.grapheme = None;
            proof {
                assert forall|j: int| 0 <= j < n && j != i implies #[trigger] self.cells@[j] == before[j] by {}
                assert forall|j: int| 0 <= j < n implies {
                    &&& #[trigger] self.current(j) == if j < i + 1 {
                        CellView { grapheme: None, ..old(self).current(j) }
                    } else {
                        old(self).current(j)
                    }
                    &&& self.previous(j) == old(self).previous(j)
                } by {
                    assert(before[j] == before[j]);
                    if j != i {
                        assert(self.cells@[j] == before[j]);
                    }
                }
                assert(self.cells@[i as int].0 == before[i as int].0);
                assert(self.cells@[i as int].1.cursor == before[i as int].1.cursor);
                assert(self.cells@[i as int].1.quadrant == before[i as int].1.quadrant);
                assert(self.cells@[i as int].1.grapheme.is_none());
            }
            i = i + 1;
        }
    }
}

pub open spec fn max0(v: int) -> int {
    if v < 0 { 0 } else { v }
}

pub open spec fn min_int(a: int, b: int) -> int {
    if a < b { a } else { b }
}

pub open spec fn max_int(a: int, b: int) -> int {
    if a < b { b } else { a }
}

/// `a / b` rounded up (for `a >= 0`, `b > 0`).
pub open spec fn ceil_div(a: int, b: int) -> int {
    (a + b - 1) / b
}

/// The cell rows and columns `(top, left, right, bottom)` of a `vw` by `vh`
/// viewport covered by the dirty pixel rectangle `rect` of a `pw` by `ph`
/// frame (its right and bottom edges computed in wrapping `i32`
/// arithmetic): its corners scaled to the 2x4 sub-cell grid and divided down to
/// cells (start rounded down, end rounded up), clamped to the viewport.
/// The right edge of a rectangle, in wrapping `i32` arithmetic.
pub open spec fn rect_right(rect: Rect) -> i32 {
    vstd::wrapping::i32_specs::wrapping_add_unsigned(rect.origin.x, rect.size.width)
}

/// The bottom edge of a rectangle, in wrapping `i32` arithmetic.
pub open spec fn rect_bottom(rect: Rect) -> i32 {
    vstd::wrapping::i32_specs::wrapping_add_unsigned(rect.origin.y, rect.size.height)
}

pub open spec fn dirty_cells(vw: int, vh: int, pw: int, ph: int, rect: Rect) -> (int, int, int, int) {
    let tw = vw * 2;
    let th = vh * 4;
    let dl = (max0(rect.origin.x as int) * tw) / (pw * 2);
    let dt = (max0(rect.origin.y as int) * th) / (ph * 4);
    let dr = ceil_div(max0(rect_right(rect) as int) * tw, pw * 2);
    let db = ceil_div(max0(rect_bottom(rect) as int) * th, ph * 4);
    let top = min_int(dt, vh);
    let left = min_int(dl, vw);
    let right = max_int(min_int(dr, vw), left);
    let bottom = max_int(min_int(db, vh), top);
    (top, left, right, bottom)
}

/// The colour of virtual pixel (tx, ty) of a `tw` by `th` grid sampled
/// from a BGRA frame of `pw` by `ph` pixels.
pub open spec fn bgra_sample(pixels: Seq<u8>, pw: int, ph: int, tw: int, th: int, tx: int, ty: int) -> Color {
    let x = source_coord(tx, pw, tw);
    let y = source_coord(ty, ph, th);
    let i = (x + y * pw) * 4;
    Color { r: pixels[i + 2], g: pixels[i + 1], b: pixels[i] }
}

/// Two vertically adjacent samples, averaged.
pub open spec fn pair_sample(pixels: Seq<u8>, pw: int, ph: int, tw: int, th: int, x: int, y: int) -> Color {
    avg_color(bgra_sample(pixels, pw, ph, tw, th, x, y), bgra_sample(pixels, pw, ph, tw, th, x, y + 1))
}

/// The quadrant colours of viewport cell (cx, cy): top-left, top-right,
/// bottom-right, bottom-left.
pub open spec fn quadrant_at(pixels: Seq<u8>, pw: int, ph: int, vw: int, vh: int, cx: int, cy: int) -> (Color, Color, Color, Color) {
    let tw = vw * 2;
    let th = vh * 4;
    (
        pair_sample(pixels, pw, ph, tw, th, cx * 2, cy * 4),
        pair_sample(pixels, pw, ph, tw, th, cx * 2 + 1, cy * 4),
        pair_sample(pixels, pw, ph, tw, th, cx * 2 + 1, cy * 4 + 2),
        pair_sample(pixels, pw, ph, tw, th, cx * 2, cy * 4 + 2),
    )
}

/// `draw_background` leaves the cells as they are.
pub open spec fn background_skipped(vw: int, vh: int, pixels: Seq<u8>, pw: int, ph: int) -> bool {
    pw == 0 || ph == 0 || vw == 0 || vh == 0 || pixels.len() < pw * ph * 4
}

fn sample_bgra(pixels: &[u8], pw: usize, ph: usize, tw: usize, th: usize, tx: usize, ty: usize) -> (c: Color)
    requires
        pw > 0,
        ph > 0,
        tx < tw,
        ty < th,
        tw <= 0x100_0000_0000,
        th <= 0x100_0000_0000,
        pixels@.len() >= pw * ph * 4,
    ensures
        c == bgra_sample(pixels@, pw as int, ph as int, tw as int, th as int, tx as int, ty as int),
{
    let len = pixels.len();
    let x = source_index(tx, pw, tw);
    let y = source_index(ty, ph, th);
    proof {
        assert((x + y * pw) * 4 + 3 < pw * ph * 4) by (nonlinear_arith)
            requires
                x < pw,
                y < ph,
        ;
        assert(0 <= y * pw) by (nonlinear_arith)
            requires
                0 <= y,
                0 <= pw,
        ;
    }
    let i = (x + y * pw) * 4;
    Color { r: pixels[i + 2], g: pixels[i + 1], b: pixels[i] }
}

fn pair_bgra(pixels: &[u8], pw: usize, ph: usize, tw: usize, th: usize, x: usize, y: usize) -> (c: Color)
    requires
        pw > 0,
        ph > 0,
        x < tw,
        y + 1 < th,
        tw <= 0x100_0000_0000,
        th <= 0x100_0000_0000,
        pixels@.len() >= pw * ph * 4,
    ensures
        c == pair_sample(pixels@, pw as int, ph as int, tw as int, th as int, x as int, y as int),
{
    sample_bgra(pixels, pw, ph, tw, th, x, y).avg_with(sample_bgra(pixels, pw, ph, tw, th, x, y + 1))
}

fn scaled_floor(a: u128, t: u128, d: u128) -> (q: u128)
    requires
        d > 0,
        a <= 0x1_0000_0000,
        t <= 0x100_0000_0000,
    ensures
        q == (a * t) / (d as int),
{
    assert(a * t <= 0x1_0000_0000 * 0x100_0000_0000) by (nonlinear_arith)
        requires
            a <= 0x1_0000_0000,
            t <= 0x100_0000_0000,
    ;
    (a * t) / d
}

fn scaled_ceil(a: u128, t: u128, d: u128) -> (q: u128)
    requires
        d > 0,
        d <= 0x10_0000_0000,
        a <= 0x1_0000_0000,
        t <= 0x100_0000_0000,
    ensures
        q == ceil_div(a * t, d as int),
{
    assert(a * t <= 0x1_0000_0000 * 0x100_0000_0000) by (nonlinear_arith)
        requires
            a <= 0x1_0000_0000,
            t <= 0x100_0000_0000,
    ;
    (a * t + d - 1) / d
}

fn clamp_usize(v: u128, hi: usize) -> (r: usize)
    ensures
        r == min_int(v as int, hi as int),
{
    if v < hi as u128 {
        v as usize
    } else {
        hi
    }
}

impl Renderer {
    /// Draw the background from a BGRA8888 pixel frame of `pixels_size`,
    /// repainting the viewport cells that the dirty pixel rectangle `rect`
    /// covers: each gets the four quadrant colours sampled (nearest
    /// neighbour, two vertical samples averaged) from the frame stretched
    /// over the viewport's 2x4 sub-cell grid. Nothing changes for an empty
    /// frame or viewport, or a pixel buffer shorter than the frame.
    pub fn draw_background(&mut self, pixels: &[u8], pixels_size: Size, rect: Rect)
        requires
            old(self).wf(),
            old(self).size.width * 2 <= usize::MAX,
            old(self).size.height * 4 <= usize::MAX,
        ensures
            cursors_aligned(*old(self)) ==> cursors_aligned(*final(self)),
            final(self).wf(),
            final(self).size == old(self).size,
            final(self).true_color == old(self).true_color,
            final(self).nav@ == old(self).nav@,
            final(self).cells@.len() == old(self).cells@.len(),
            forall|j: int|
                0 <= j < final(self).cells@.len() ==> {
                    let vw = old(self).size.width as int;
                    let vh = old(self).size.height as int;
                    let pw = pixels_size.width as int;
                    let ph = pixels_size.height as int;
                    let (top, left, right, bottom) = dirty_cells(vw, vh, pw, ph, rect);
                    let row = j / vw - 1;
                    let col = j % vw;
                    &&& final(self).previous(j) == old(self).previous(j)
                    &&& #[trigger] final(self).current(j) == if !background_skipped(vw, vh, pixels@, pw, ph)
                        && top <= row < bottom && left <= col < right {
                        CellView { quadrant: quadrant_at(pixels@, pw, ph, vw, vh, col, row), ..old(self).current(j) }
                    } else {
                        old(self).current(j)
                    }
                },
    {
        let vw = self.size.width as usize;
        let vh = self.size.height as usize;
        let pw = pixels_size.width as usize;
        let ph = pixels_size.height as usize;
        let tw = vw * 2;
        let th = vh * 4;
        let total = self.cells.len();
        if pw == 0 || ph == 0 || tw == 0 || th == 0 {
            return;
        }
        proof {
            assert(pw * ph * 4 <= 0x1_0000_0000 * 0x1_0000_0000 * 4) by (nonlinear_arith)
                requires
                    pw <= u32::MAX,
                    ph <= u32::MAX,
            ;
        }
        let expected: u128 = pw as u128 * ph as u128 * 4;
        if (pixels.len() as u128) < expected {
            return;
        }
        let x0: u128 = if rect.origin.x < 0 { 0 } else { rect.origin.x as u128 };
        let y0: u128 = if rect.origin.y < 0 { 0 } else { rect.origin.y as u128 };
        let x1i = rect.origin.x.wrapping_add_unsigned(rect.size.width);
        let y1i = rect.origin.y.wrapping_add_unsigned(rect.size.height);
        let x1: u128 = if x1i < 0 { 0 } else { x1i as u128 };
        let y1: u128 = if y1i < 0 { 0 } else { y1i as u128 };
        let dirty_left = scaled_floor(x0, tw as u128, pw as u128 * 2);
        let dirty_top = scaled_floor(y0, th as u128, ph as u128 * 4);
        let dirty_right = scaled_ceil(x1, tw as u128, pw as u128 * 2);
        let dirty_bottom = scaled_ceil(y1, th as u128, ph as u128 * 4);
        let top = clamp_usize(dirty_top, vh);
        let left = clamp_usize(dirty_left, vw);
        let right = {
            let r = clamp_usize(dirty_right, vw);
            if r < left { left } else { r }
        };
        let bottom = {
            let b = clamp_usize(dirty_bottom, vh);
            if b < top { top } else { b }
        };
        let ghost bounds = dirty_cells(vw as int, vh as int, pw as int, ph as int, rect);
        assert(bounds == (top as int, left as int, right as int, bottom as int));
        let mut y = top;
        while y < bottom
            invariant
                self.wf(),
                self.size == old(self).size,
                self.true_color == old(self).true_color,
                self.nav@ == old(self).nav@,
                vw == self.size.width,
                vh == self.size.height,
                tw == vw * 2,
                th == vh * 4,
                pw > 0,
                ph > 0,
                vw > 0,
                vh > 0,
                pw <= u32::MAX,
                ph <= u32::MAX,
                vw <= u32::MAX,
                vh <= u32::MAX,
                pixels@.len() >= pw * ph * 4,
                top <= y <= bottom,
                bottom <= vh,
                left <= right <= vw,
                self.cells@.len() == old(self).cells@.len(),
                total == self.cells@.len(),
                forall|j: int|
                    0 <= j < self.cells@.len() ==> {
                        let row = j / vw as int - 1;
                        let col = j % vw as int;
                        &&& self.previous(j) == old(self).previous(j)
                        &&& #[trigger] self.current(j) == if top <= row < y && left <= col < right {
                            CellView { quadrant: quadrant_at(pixels@, pw as int, ph as int, vw as int, vh as int, col, row), ..old(self).current(j) }
                        } else {
                            old(self).current(j)
                        }
                    },
            decreases bottom - y,
        {
            let mut cx = left;
            while cx < right
                invariant
                    self.wf(),
                    self.size == old(self).size,
                    self.true_color == old(self).true_color,
                    self.nav@ == old(self).nav@,
                    vw == self.size.width,
                    vh == self.size.height,
                    tw == vw * 2,
                    th == vh * 4,
                    pw > 0,
                    ph > 0,
                    vw > 0,
                    vh > 0,
                    pw <= u32::MAX,
                    ph <= u32::MAX,
                    vw <= u32::MAX,
                    vh <= u32::MAX,
                    pixels@.len() >= pw * ph * 4,
                    top <= y < bottom,
                    bottom <= vh,
                    left <= cx <= right,
                    right <= vw,
                    self.cells@.len() == old(self).cells@.len(),
                    total == self.cells@.len(),
                    forall|j: int|
                        0 <= j < self.cells@.len() ==> {
                            let row = j / vw as int - 1;
                            let col = j % vw as int;
                            &&& self.previous(j) == old(self).previous(j)
                            &&& #[trigger] self.current(j) == if (top <= row < y && left <= col < right)
                                || (row == y && left <= col < cx) {
                                CellView { quadrant: quadrant_at(pixels@, pw as int, ph as int, vw as int, vh as int, col, row), ..old(self).current(j) }
                            } else {
                                old(self).current(j)
                            }
                        },
                decreases right - cx,
            {
                proof {
                    assert((y + 1) * vw + cx < vw * (vh + 1)) by (nonlinear_arith)
                        requires
                            y < vh,
                            cx < vw,
                    ;
                    assert(y * 4 + 3 < vh * 4);
                }
                let index = (y + 1) * vw + cx;
                let x = cx * 2;
                let yy = y * 4;
                let q = (
                    pair_bgra(pixels, pw, ph, tw, th, x, yy),
                    pair_bgra(pixels, pw, ph, tw, th, x + 1, yy),
                    pair_bgra(pixels, pw, ph, tw, th, x + 1, yy + 2),
                    pair_bgra(pixels, pw, ph, tw, th, x, yy + 2),
                );
                let ghost before = self.cells@;
                assert forall|j: int| 0 <= j < before.len() implies {
                    let row = j / vw as int - 1;
                    let col = j % vw as int;
                    &&& (#[trigger] before[j]).0@ == old(self).previous(j)
                    &&& before[j].1@ == if (top <= row < y && left <= col < right) || (row == y && left <= col < cx) {
                        CellView { quadrant: quadrant_at(pixels@, pw as int, ph as int, vw as int, vh as int, col, row), ..old(self).current(j) }
                    } else {
                        old(self).current(j)
                    }
                } by {
                    assert(self.current(j) == before[j].1@);
                }
                self.cells[index].1.quadrant = q;
                proof {
                    let vwi = vw as int;
                    assert(index as int / vwi == y + 1 && index as int % vwi == cx) by {
                        vstd::arithmetic::div_mod::lemma_fundamental_div_mod_converse(index as int, vwi, y + 1, cx as int);
                    }
                    assert forall|j: int| 0 <= j < self.cells@.len() implies {
                        let row = j / vw as int - 1;
                        let col = j % vw as int;
                        &&& self.previous(j) == old(self).previous(j)
                        &&& #[trigger] self.current(j) == if (top <= row < y && left <= col < right)
                            || (row == y && left <= col < cx + 1) {
                            CellView { quadrant: quadrant_at(pixels@, pw as int, ph as int, vw as int, vh as int, col, row), ..old(self).current(j) }
                        } else {
                            old(self).current(j)
                        }
                    } by {
                        assert(before[j] == before[j]);
                        if j != index {
                            assert(self.cells@[j] == before[j]);
                            if j / vw as int - 1 == y && j % vw as int == cx {
                                vstd::arithmetic::div_mod::lemma_fundamental_div_mod(j, vw as int);
                                vstd::arithmetic::div_mod::lemma_fundamental_div_mod(index as int, vw as int);
                            }
                        }
                    }
                }
                cx = cx + 1;
            }
            proof {
                assert forall|j: int| 0 <= j < self.cells@.len() implies {
                    let row = j / vw as int - 1;
                    let col = j % vw as int;
                    &&& self.previous(j) == old(self).previous(j)
                    &&& #[trigger] self.current(j) == if top <= row < y + 1 && left <= col < right {
                        CellView { quadrant: quadrant_at(pixels@, pw as int, ph as int, vw as int, vh as int, col, row), ..old(self).current(j) }
                    } else {
                        old(self).current(j)
                    }
                } by {
                    assert(self.current(j) == self.current(j));
                }
            }
            y = y + 1;
        }
    }
}

/// The current cells that differ from their previous state, in grid order.
pub open spec fn changed_cells(s: Seq<(CellView, CellView)>) -> Seq<CellView>
    decreases s.len(),
{
    if s.len() == 0 {
        Seq::empty()
    } else {
        let last = s.last();
        changed_cells(s.drop_last()) + if last.0 != last.1 { seq![last.1] } else { Seq::empty() }
    }
}

/// The (previous, current) views of all cells.
pub open spec fn cell_views(cells: Seq<(Cell, Cell)>) -> Seq<(CellView, CellView)> {
    cells.map_values(|p: (Cell, Cell)| (p.0@, p.1@))
}

/// Whether the cell with grid index `j` lies in the `bounds` rectangle of
/// a grid `vw` cells wide.
pub open spec fn in_bounds(j: int, vw: int, bounds: Rect) -> bool {
    let row = j / vw;
    let col = j % vw;
    bounds.origin.y <= row < bounds.origin.y + bounds.size.height
        && bounds.origin.x <= col < bounds.origin.x + bounds.size.width
}

/// The filled state of a cell: no grapheme and all four quadrants `color`.
pub open spec fn filled(c: CellView, color: Color) -> CellView {
    CellView { grapheme: None, quadrant: (color, color, color, color), ..c }
}

/// The previous state of a cell after a render: brought up to the current
/// quadrants and grapheme where it differed from the current state.
pub open spec fn rendered_previous(prev: CellView, cur: CellView) -> CellView {
    if prev != cur {
        CellView { quadrant: cur.quadrant, grapheme: cur.grapheme, ..prev }
    } else {
        prev
    }
}

/// `b` holds the cells of `a` after a render: current states unchanged,
/// previous states brought up to date.
pub open spec fn renders_to(a: Renderer, b: Renderer) -> bool {
    &&& b.cells@.len() == a.cells@.len()
    &&& forall|j: int|
        0 <= j < b.cells@.len() ==> {
            &&& #[trigger] b.current(j) == a.current(j)
            &&& b.previous(j) == rendered_previous(a.previous(j), a.current(j))
        }
}

/// Every cell's previous and current state are at the same position:
/// `set_size` makes it so, and rendering, filling, clearing text and
/// drawing the background or text keep it.
pub open spec fn cursors_aligned(r: Renderer) -> bool {
    forall|j: int| 0 <= j < r.cells@.len() ==> #[trigger] r.previous(j).cursor == r.current(j).cursor
}

/// Where every cell's previous state equals its current state, a render
/// returns no cell to paint.
pub proof fn lemma_changed_cells_none(s: Seq<(CellView, CellView)>)
    requires
        forall|j: int| 0 <= j < s.len() ==> (#[trigger] s[j]).0 == s[j].1,
    ensures
        changed_cells(s) == Seq::<CellView>::empty(),
    decreases s.len(),
{
    if s.len() > 0 {
        lemma_changed_cells_none(s.drop_last());
        assert(s.last() == s[s.len() - 1]);
        assert(changed_cells(s) =~= Seq::<CellView>::empty());
    }
}

/// A render settles the renderer: with each cell's previous and current
/// state at the same position, a second render with nothing changed in
/// between returns no cell (`render` returns exactly
/// `changed_cells(cell_views(..))` of the cells it starts from).
pub proof fn lemma_render_settles(before: Renderer, after: Renderer)
    requires
        cursors_aligned(before),
        renders_to(before, after),
    ensures
        changed_cells(cell_views(after.cells@)) == Seq::<CellView>::empty(),
{
    let s = cell_views(after.cells@);
    assert forall|j: int| 0 <= j < s.len() implies (#[trigger] s[j]).0 == s[j].1 by {
        assert(after.current(j) == before.current(j));
        assert(s[j].0 == after.previous(j));
        assert(s[j].1 == after.current(j));
    }
    lemma_changed_cells_none(s);
}

impl Renderer {
    /// Bring every changed cell's previous state up to date (quadrants and
    /// grapheme) and return the changed cells, in grid order, for painting.
    pub fn render(&mut self) -> (changed: Vec<Cell>)
        ensures
            cursors_aligned(*old(self)) ==> cursors_aligned(*final(self)),
            final(self).size == old(self).size,
            final(self).true_color == old(self).true_color,
            final(self).nav@ == old(self).nav@,
            final(self).cells@.len() == old(self).cells@.len(),
            changed@.map_values(|c: Cell| c@) == changed_cells(cell_views(old(self).cells@)),
            renders_to(*old(self), *final(self)),
    {
        let n = self.cells.len();
        let mut out: Vec<Cell> = Vec::new();
        let mut i: usize = 0;
        while i < n
            invariant
                n == self.cells@.len(),
                n == old(self).cells@.len(),
                i <= n,
                self.size == old(self).size,
                self.true_color == old(self).true_color,
                self.nav@ == old(self).nav@,
                out@.map_values(|c: Cell| c@) == changed_cells(cell_views(old(self).cells@).take(i as int)),
                forall|j: int|
                    0 <= j < n ==> {
                        &&& #[trigger] self.current(j) == old(self).current(j)
                        &&& self.previous(j) == if j < i && old(self).previous(j) != old(self).current(j) {
                            CellView {
                                quadrant: old(self).current(j).quadrant,
                                grapheme: old(self).current(j).grapheme,
                                ..old(self).previous(j)
                            }
                        } else {
                            old(self).previous(j)
                        }
                    },
            decreases n - i,
        {
            let ghost before = self.cells@;
            assert forall|j: int| 0 <= j < n implies {
                &&& (#[trigger] before[j]).1@ == old(self).current(j)
                &&& before[j].0@ == if j < i && old(self).previous(j) != old(self).current(j) {
                    CellView {
                        quadrant: old(self).current(j).quadrant,
                        grapheme: old(self).current(j).grapheme,
                        ..old(self).previous(j)
                    }
                } else {
                    old(self).previous(j)
                }
            } by {
                assert(self.current(j) == before[j].1@);
            }
            let ghost views = cell_views(old(self).cells@);
            assert(views.take(i as int + 1).drop_last() =~= views.take(i as int));
            assert(views[i as int] == (old(self).previous(i as int), old(self).current(i as int)));
            let same = self.cells[i].0.same(&self.cells[i].1);
            if !same {
                let quadrant = self.cells[i].1.quadrant;
                let grapheme = match &self.cells[i].1.grapheme {
                    Some(g) => Some(g.duplicate()),
                    None => None,
                };
                let copy = self.cells[i].1.duplicate();
                self.cells[i].0.quadrant = quadrant;
                self.cells[i].0.grapheme = grapheme;
                let ghost before_push = out@.map_values(|c: Cell| c@);
                out.push(copy);
                assert(out@.map_values(|c: Cell| c@) =~= before_push + seq![copy@]);
            }
            proof {
                assert forall|j: int| 0 <= j < n && j != i implies #[trigger] self.cells@[j] == before[j] by {}
                assert forall|j: int| 0 <= j < n implies {
                    &&& #[trigger] self.current(j) == old(self).current(j)
                    &&& self.previous(j) == if j < i + 1 && old(self).previous(j) != old(self).current(j) {
                        CellView {
                            quadrant: old(self).current(j).quadrant,
                            grapheme: old(self).current(j).grapheme,
                            ..old(self).previous(j)
                        }
                    } else {
                        old(self).previous(j)
                    }
                } by {
                    assert(before[j] == before[j]);
                    if j != i {
                        assert(self.cells@[j] == before[j]);
                    }
                }
            }
            i = i + 1;
        }
        proof {
            assert(cell_views(old(self).cells@).take(n as int) =~= cell_views(old(self).cells@));
        }
        out
    }

    /// Apply `draw` to each current cell inside `bounds` (rows and columns
    /// of the whole grid, navigation row included). The rectangle lies within
    /// the grid.
    pub fn draw<F: Fn(&Cell) -> Cell>(&mut self, bounds: Rect, draw: F)
        requires
            old(self).wf(),
            forall|c: &Cell| #[trigger] draw.requires((c,)),
            bounds.origin.x >= 0,
            bounds.origin.y >= 0,
            bounds.origin.x + bounds.size.width <= old(self).size.width,
            bounds.origin.y + bounds.size.height <= old(self).size.height + 1,
        ensures
            final(self).wf(),
            final(self).size == old(self).size,
            final(self).true_color == old(self).true_color,
            final(self).nav@ == old(self).nav@,
            forall|j: int|
                #![trigger final(self).cells@[j]]
                0 <= j < final(self).cells@.len() ==> {
                    &&& final(self).previous(j) == old(self).previous(j)
                    &&& if in_bounds(j, old(self).size.width as int, bounds) {
                        draw.ensures((&old(self).cells@[j].1,), final(self).cells@[j].1)
                    } else {
                        final(self).cells@[j].1 == old(self).cells@[j].1
                    }
                },
    {
        let vw = self.size.width as usize;
        let total = self.cells.len();
        if vw == 0 {
            assert(self.size.width * (self.size.height + 1) == 0) by (nonlinear_arith)
                requires
                    self.size.width == 0,
            ;
            return;
        }
        let ox = bounds.origin.x as u64;
        let oy = bounds.origin.y as u64;
        let right = ox + bounds.size.width as u64;
        let bottom = oy + bounds.size.height as u64;
        let mut i: usize = 0;
        while i < total
            invariant
                self.wf(),
                self.size == old(self).size,
                self.true_color == old(self).true_color,
                self.nav@ == old(self).nav@,
                forall|c: &Cell| #[trigger] draw.requires((c,)),
                vw == self.size.width,
                vw > 0,
                total == self.cells@.len(),
                total == old(self).cells@.len(),
                ox == bounds.origin.x,
                oy == bounds.origin.y,
                right == bounds.origin.x + bounds.size.width,
                bottom == bounds.origin.y + bounds.size.height,
                i <= total,
                forall|j: int|
                    #![trigger self.cells@[j]]
                    0 <= j < total ==> {
                        &&& self.previous(j) == old(self).previous(j)
                        &&& if in_bounds(j, vw as int, bounds) && j < i {
                            draw.ensures((&old(self).cells@[j].1,), self.cells@[j].1)
                        } else {
                            self.cells@[j].1 == old(self).cells@[j].1
                        }
                    },
            decreases total - i,
        {
            let row = (i / vw) as u64;
            let col = (i % vw) as u64;
            let ghost before = self.cells@;
            assert forall|j: int| #![trigger self.cells@[j]] 0 <= j < total implies {
                &&& (#[trigger] before[j]).0@ == old(self).previous(j)
                &&& if in_bounds(j, vw as int, bounds) && j < i {
                    draw.ensures((&old(self).cells@[j].1,), before[j].1)
                } else {
                    before[j].1 == old(self).cells@[j].1
                }
            } by {
                assert(self.cells@[j].1 == before[j].1);
            }
            if oy <= row && row < bottom && ox <= col && col < right {
                let updated = draw(&self.cells[i].1);
                self.cells[i].1 = updated;
                proof {
                    assert forall|j: int| 0 <= j < total && j != i implies #[trigger] self.cells@[j] == before[j] by {}
                }
            }
            proof {
                assert forall|j: int| #![trigger self.cells@[j]] 0 <= j < total implies {
                    &&& self.previous(j) == old(self).previous(j)
                    &&& if in_bounds(j, vw as int, bounds) && j < i + 1 {
                        draw.ensures((&old(self).cells@[j].1,), self.cells@[j].1)
                    } else {
                        self.cells@[j].1 == old(self).cells@[j].1
                    }
                } by {
                    assert(before[j] == before[j]);
                }
            }
            i = i + 1;
        }
        assert forall|j: int| #![trigger self.cells@[j]] 0 <= j < total implies {
            &&& self.previous(j) == old(self).previous(j)
            &&& if in_bounds(j, old(self).size.width as int, bounds) {
                draw.ensures((&old(self).cells@[j].1,), self.cells@[j].1)
            } else {
                self.cells@[j].1 == old(self).cells@[j].1
            }
        } by {
            assert(self.cells@[j] == self.cells@[j]);
        }
    }

    /// Fill the current cells inside `rect` with `color`, dropping their
    /// graphemes.
    pub fn fill_rect(&mut self, rect: Rect, color: Color)
        requires
            old(self).wf(),
            rect.origin.x >= 0,
            rect.origin.y >= 0,
            rect.origin.x + rect.size.width <= old(self).size.width,
            rect.origin.y + rect.size.height <= old(self).size.height + 1,
        ensures
            cursors_aligned(*old(self)) ==> cursors_aligned(*final(self)),
            final(self).wf(),
            final(self).size == old(self).size,
            final(self).true_color == old(self).true_color,
            final(self).nav@ == old(self).nav@,
            forall|j: int|
                0 <= j < final(self).cells@.len() ==> {
                    &&& final(self).previous(j) == old(self).previous(j)
                    &&& #[trigger] final(self).current(j) == if in_bounds(j, old(self).size.width as int, rect) {
                        filled(old(self).current(j), color)
                    } else {
                        old(self).current(j)
                    }
                },
    {
        let paint = |cell: &Cell| -> (r: Cell)
            ensures
                r@ == filled(cell@, color),
            { Cell { cursor: cell.cursor, quadrant: (color, color, color, color), grapheme: None } };
        self.draw(rect, paint);
        proof {
            assert forall|j: int| 0 <= j < self.cells@.len() implies
                #[trigger] self.current(j) == if in_bounds(j, old(self).size.width as int, rect) {
                    filled(old(self).current(j), color)
                } else {
                    old(self).current(j)
                } by {
                if in_bounds(j, old(self).size.width as int, rect) {
                    assert(paint.ensures((&old(self).cells@[j].1,), self.cells@[j].1));
                }
            }
        }
    }

    /// Forward a key to the navigation bar; see `keyboard_spec`.
    pub fn keypress(&mut self, key: &Key, modifiers: Modifiers) -> (action: NavAction)
        requires
            keyboard_accepts(old(self).nav@, *key),
        ensures
            final(self).nav@ == keyboard_spec(old(self).nav@, *key, modifiers).0,
            action@ == keyboard_spec(old(self).nav@, *key, modifiers).1,
            final(self).cells@ == old(self).cells@,
            final(self).size == old(self).size,
            final(self).true_color == old(self).true_color,
    {
        self.nav.keyboard(key, modifiers)
    }

    /// Forward a mouse press at cell `origin` to the navigation bar.
    pub fn mouse_down(&mut self, origin: Point) -> (action: NavAction)
        requires
            0 <= origin.x <= u16::MAX,
            0 <= origin.y <= u16::MAX,
        ensures
            final(self).nav@ == mouse_down_spec(old(self).nav@, origin.x as int, origin.y as int).0,
            action@ == mouse_down_spec(old(self).nav@, origin.x as int, origin.y as int).1,
            final(self).cells@ == old(self).cells@,
            final(self).size == old(self).size,
            final(self).true_color == old(self).true_color,
    {
        self.nav.mouse_down(origin.x as u16, origin.y as u16)
    }

    /// Forward a mouse release at cell `origin` to the navigation bar.
    pub fn mouse_up(&mut self, origin: Point) -> (action: NavAction)
        requires
            0 <= origin.x <= u16::MAX,
            0 <= origin.y <= u16::MAX,
        ensures
            origin.y != 0 ==> final(self).nav@ == (NavView { cursor: None, staged: None, ..old(self).nav@ }),
            origin.y != 0 ==> action@ == NavActionView::Forward,
            origin.y == 0 ==> final(self).nav@ == old(self).nav@,
            origin.y == 0 ==> action@ == NavActionView::Ignore,
            final(self).cells@ == old(self).cells@,
            final(self).size == old(self).size,
            final(self).true_color == old(self).true_color,
    {
        self.nav.mouse_up(origin.x as u16, origin.y as u16)
    }

    /// A pointer move: over the page (any row but the bar's) it is forwarded,
    /// over the bar it is consumed.
    pub fn mouse_move(&mut self, origin: Point) -> (action: NavAction)
        ensures
            origin.y != 0 ==> action@ == NavActionView::Forward,
            origin.y == 0 ==> action@ == NavActionView::Ignore,
            final(self).nav@ == old(self).nav@,
            final(self).cells@ == old(self).cells@,
            final(self).size == old(self).size,
            final(self).true_color == old(self).true_color,
    {
        if origin.y != 0 {
            NavAction::Forward
        } else {
            NavAction::Ignore
        }
    }

    /// Record a navigation: the new URL and which history directions exist.
    pub fn push_nav(&mut self, url: &str, can_go_back: bool, can_go_forward: bool)
        ensures
            final(self).nav@ == push_spec(
                old(self).nav@,
                url@,
                NavigationCapability { back: can_go_back, forward: can_go_forward },
            ),
            final(self).cells@ == old(self).cells@,
            final(self).size == old(self).size,
            final(self).true_color == old(self).true_color,
    {
        self.nav.push(url.to_owned(), NavigationCapability { back: can_go_back, forward: can_go_forward })
    }
}

/// `n / d` rounded to the nearest integer, halves away from zero
/// (`d > 0`).
pub open spec fn round_div(n: int, d: int) -> int {
    if n >= 0 { (2 * n + d) / (2 * d) } else { -((2 * (-n) + d) / (2 * d)) }
}

/// The cell block `(top, left, right, bottom)` whose text a box drawn at
/// sub-cell `origin` with sub-cell `size` clears: origin and size divided
/// by the 2x4 sub-cell grid and rounded, one row down, clamped to the
/// viewport.
pub open spec fn text_box(vw: int, vh: int, origin: Point, size: Size) -> (int, int, int, int) {
    let ox = round_div(origin.x as int, 2);
    let oy = round_div(origin.y as int, 4) + 1;
    let sw = round_div(size.width as int, 2);
    let sh = round_div(size.height as int, 4);
    (
        min_int(max0(oy), vh),
        min_int(max0(ox), vw),
        min_int(max0(ox + sw), vw),
        min_int(max0(oy + sh), vh),
    )
}

/// The cells a run of graphemes takes, in order: for each grapheme of width
/// `w`, `w` slots `(grapheme, column within it, w)`.
pub open spec fn grapheme_slots(gs: Seq<Seq<char>>) -> Seq<(Seq<char>, int, int)>
    decreases gs.len(),
{
    if gs.len() == 0 {
        Seq::empty()
    } else {
        let g = gs.last();
        let w = str_width_of(g) as int;
        grapheme_slots(gs.drop_last()) + Seq::new(w as nat, |i: int| (g, i, w))
    }
}

/// A cell's grapheme after a slot of coloured text is written to it: kept
/// when it already shows the same text in the same colour, replaced
/// otherwise.
pub open spec fn write_slot(old: Option<GraphemeView>, slot: (Seq<char>, int, int), color: Color) -> Option<GraphemeView> {
    match old {
        Some(p) => if p.color == color && p.char == slot.0 {
            old
        } else {
            Some(GraphemeView { char: slot.0, index: slot.1 as usize, width: slot.2 as usize, color })
        },
        None => Some(GraphemeView { char: slot.0, index: slot.1 as usize, width: slot.2 as usize, color }),
    }
}

/// Truncating division of `i32`s, as Rust computes it.
pub open spec fn trunc_div(a: int, b: int) -> int {
    if a >= 0 { a / b } else { -((-a) / b) }
}

/// The grid index at which a text run drawn at sub-cell `origin` starts,
/// computed with Rust's truncating `i32` division; the grid's end when it
/// is negative.
pub open spec fn text_start_index(origin: Point, vw: int, len: int) -> int {
    let index = trunc_div(origin.x as int, 2) + trunc_div(origin.y as int + 1, 4) * vw;
    if index < 0 { len } else { min_int(index, len) }
}

fn round_div_exec(n: i64, d: i64) -> (r: i64)
    requires
        d == 2 || d == 4,
        -0x1_0000_0000 <= n <= 0x1_0000_0000,
    ensures
        r == round_div(n as int, d as int),
{
    if n >= 0 {
        (2 * n + d) / (2 * d)
    } else {
        -((2 * (-n) + d) / (2 * d))
    }
}

fn clamp_nonneg(v: i64, hi: usize) -> (r: usize)
    ensures
        r == min_int(max0(v as int), hi as int),
{
    if v < 0 {
        0
    } else if (v as u64) < hi as u64 {
        v as usize
    } else {
        hi
    }
}

impl Renderer {
    /// Draw text. For a box larger than 2x2 sub-cells, the graphemes of the
    /// cells in `text_box` are cleared. Otherwise the graphemes of `string`
    /// are written from grid index `text_start_index` on, one cell per
    /// column of each grapheme, until the grid ends; a cell that already
    /// shows the same text in the same colour is left as it is.
    pub fn draw_text(&mut self, string: &str, origin: Point, size: Size, color: Color)
        requires
            old(self).wf(),
            old(self).size.width <= i32::MAX,
            i32::MIN <= trunc_div(origin.y as int + 1, 4) * old(self).size.width <= i32::MAX,
            i32::MIN <= trunc_div(origin.x as int, 2) + trunc_div(origin.y as int + 1, 4)
                * old(self).size.width <= i32::MAX,
            origin.y < i32::MAX,
        ensures
            cursors_aligned(*old(self)) ==> cursors_aligned(*final(self)),
            final(self).wf(),
            final(self).size == old(self).size,
            final(self).true_color == old(self).true_color,
            final(self).nav@ == old(self).nav@,
            final(self).cells@.len() == old(self).cells@.len(),
            forall|j: int|
                #![trigger final(self).cells@[j]]
                0 <= j < final(self).cells@.len() ==> final(self).previous(j) == old(self).previous(j),
            size.width > 2 && size.height > 2 ==> forall|j: int|
                #![trigger final(self).cells@[j]]
                0 <= j < final(self).cells@.len() ==> {
                    let vw = old(self).size.width as int;
                    let (top, left, right, bottom) = text_box(vw, old(self).size.height as int, origin, size);
                    final(self).current(j) == if top <= j / vw < bottom && left <= j % vw < right {
                        CellView { grapheme: None, ..old(self).current(j) }
                    } else {
                        old(self).current(j)
                    }
                },
            !(size.width > 2 && size.height > 2) ==> forall|j: int|
                #![trigger final(self).cells@[j]]
                0 <= j < final(self).cells@.len() ==> {
                    let len = old(self).cells@.len() as int;
                    let start = text_start_index(origin, old(self).size.width as int, len);
                    let slots = grapheme_slots(graphemes_of(string@));
                    final(self).current(j) == if start <= j < start + slots.len() {
                        CellView { grapheme: write_slot(old(self).current(j).grapheme, slots[j - start], color), ..old(self).current(j) }
                    } else {
                        old(self).current(j)
                    }
                },
    {
        let len = self.cells.len();
        let vw = self.size.width as usize;
        let vh = self.size.height as usize;
        if size.width > 2 && size.height > 2 {
            let ox = round_div_exec(origin.x as i64, 2);
            let oy = round_div_exec(origin.y as i64, 4) + 1;
            let sw = round_div_exec(size.width as i64, 2);
            let sh = round_div_exec(size.height as i64, 4);
            let left = clamp_nonneg(ox, vw);
            let right = clamp_nonneg(ox + sw, vw);
            let top = clamp_nonneg(oy, vh);
            let bottom = clamp_nonneg(oy + sh, vh);
            let ghost bx = text_box(vw as int, vh as int, origin, size);
            assert(bx == (top as int, left as int, right as int, bottom as int));
            let mut i: usize = 0;
            while i < len
                invariant
                    self.wf(),
                    self.size == old(self).size,
                    self.true_color == old(self).true_color,
                    self.nav@ == old(self).nav@,
                    len == self.cells@.len(),
                    len == old(self).cells@.len(),
                    vw == self.size.width,
                    vh == self.size.height,
                    i <= len,
                    forall|j: int|
                        #![trigger self.cells@[j]]
                        0 <= j < len ==> {
                            &&& self.previous(j) == old(self).previous(j)
                            &&& self.current(j) == if j < i && top <= j / (vw as int) < bottom && left <= j % (vw as int) < right {
                                CellView { grapheme: None, ..old(self).current(j) }
                            } else {
                                old(self).current(j)
                            }
                        },
                decreases len - i,
            {
                let ghost before = self.cells@;
                assert forall|j: int| #![trigger before[j]] 0 <= j < len implies {
                    &&& before[j].0@ == old(self).previous(j)
                    &&& before[j].1@ == if j < i && top <= j / (vw as int) < bottom && left <= j % (vw as int) < right {
                        CellView { grapheme: None, ..old(self).current(j) }
                    } else {
                        old(self).current(j)
                    }
                } by {
                    assert(self.cells@[j] == before[j]);
                }
                if vw > 0 {
                    let row = i / vw;
                    let col = i % vw;
                    if top <= row && row < bottom && left <= col && col < right {
                        self.cells[i].1.grapheme = None;
                    }
                }
                proof {
                    assert forall|j: int| #![trigger self.cells@[j]] 0 <= j < len implies {
                        &&& self.previous(j) == old(self).previous(j)
                        &&& self.current(j) == if j < i + 1 && top <= j / (vw as int) < bottom && left <= j % (vw as int) < right {
                            CellView { grapheme: None, ..old(self).current(j) }
                        } else {
                            old(self).current(j)
                        }
                    } by {
                        assert(before[j] == before[j]);
                        if vw == 0 {
                            assert(len == 0) by (nonlinear_arith)
                                requires
                                    len == vw * (self.size.height + 1),
                                    vw == 0,
                            ;
                        }
                    }
                }
                i = i + 1;
            }
            proof {
                assert forall|j: int| #![trigger self.cells@[j]] 0 <= j < len implies {
                    let vw = old(self).size.width as int;
                    let (top, left, right, bottom) = text_box(vw, old(self).size.height as int, origin, size);
                    self.current(j) == if top <= j / vw < bottom && left <= j % vw < right {
                        CellView { grapheme: None, ..old(self).current(j) }
                    } else {
                        old(self).current(j)
                    }
                } by {
                    assert(self.cells@[j] == self.cells@[j]);
                }
            }
            return;
        }
        // Start of the run, computed as `origin / (2, 4)` on `i32`s.
        let index: i32 = origin.x / 2 + (origin.y + 1) / 4 * (vw as i32);
        let start: usize = if index < 0 {
            len
        } else if (index as u64) < len as u64 {
            index as usize
        } else {
            len
        };
        assert(start == text_start_index(origin, vw as int, len as int));
        let gs = graphemes(string);
        let ghost gsv = graphemes_of(string@);
        let mut p = start;
        let mut k: usize = 0;
        while k < gs.len()
            invariant
                self.wf(),
                self.size == old(self).size,
                self.true_color == old(self).true_color,
                self.nav@ == old(self).nav@,
                len == self.cells@.len(),
                len == old(self).cells@.len(),
                start <= len,
                !(size.width > 2 && size.height > 2),
                gsv == graphemes_of(string@),
                start == text_start_index(origin, old(self).size.width as int, len as int),
                gs@.map_values(|x: &str| x@) == gsv,
                k <= gs@.len(),
                p == start + grapheme_slots(gsv.take(k as int)).len(),
                p <= len,
                forall|j: int|
                    #![trigger self.cells@[j]]
                    0 <= j < len ==> {
                        &&& self.previous(j) == old(self).previous(j)
                        &&& self.current(j) == if start <= j < p {
                            CellView {
                                grapheme: write_slot(old(self).current(j).grapheme, grapheme_slots(gsv.take(k as int))[j - start], color),
                                ..old(self).current(j)
                            }
                        } else {
                            old(self).current(j)
                        }
                    },
            decreases gs@.len() - k,
        {
            let g = gs[k];
            let width = str_width(g);
            let ghost prefix = grapheme_slots(gsv.take(k as int));
            let ghost next = grapheme_slots(gsv.take(k as int + 1));
            proof {
                assert(gsv.take(k as int + 1).drop_last() =~= gsv.take(k as int));
                assert(gsv.take(k as int + 1).last() == g@);
                assert(next =~= prefix + Seq::new(width as nat, |i: int| (g@, i, width as int)));
            }
            let mut idx: usize = 0;
            while idx < width
                invariant
                    self.wf(),
                    self.size == old(self).size,
                    self.true_color == old(self).true_color,
                    self.nav@ == old(self).nav@,
                    len == self.cells@.len(),
                    len == old(self).cells@.len(),
                    start <= len,
                    !(size.width > 2 && size.height > 2),
                    gsv == graphemes_of(string@),
                    start == text_start_index(origin, old(self).size.width as int, len as int),
                    gs@.map_values(|x: &str| x@) == gsv,
                    k < gs@.len(),
                    g@ == gsv[k as int],
                    width == str_width_of(g@),
                    prefix == grapheme_slots(gsv.take(k as int)),
                    next == grapheme_slots(gsv.take(k as int + 1)),
                    next =~= prefix + Seq::new(width as nat, |i: int| (g@, i, width as int)),
                    idx <= width,
                    p == start + prefix.len() + idx,
                    p <= len,
                    forall|j: int|
                        #![trigger self.cells@[j]]
                        0 <= j < len ==> {
                            &&& self.previous(j) == old(self).previous(j)
                            &&& self.current(j) == if start <= j < p {
                                CellView {
                                    grapheme: write_slot(old(self).current(j).grapheme, next[j - start], color),
                                    ..old(self).current(j)
                                }
                            } else {
                                old(self).current(j)
                            }
                        },
                decreases width - idx,
            {
                if p >= len {
                    proof {
                        assert forall|j: int| #![trigger self.cells@[j]] 0 <= j < len implies
                            self.current(j) == if start <= j < start + grapheme_slots(gsv).len() {
                                CellView {
                                    grapheme: write_slot(old(self).current(j).grapheme, grapheme_slots(gsv)[j - start], color),
                                    ..old(self).current(j)
                                }
                            } else {
                                old(self).current(j)
                            } by {
                            lemma_slots_prefix(gsv, k as int + 1);
                            assert(self.cells@[j] == self.cells@[j]);
                        }
                    }
                    return;
                }
                let ghost before = self.cells@;
                assert forall|j: int| #![trigger before[j]] 0 <= j < len implies {
                    &&& before[j].0@ == old(self).previous(j)
                    &&& before[j].1@ == if start <= j < p {
                        CellView {
                            grapheme: write_slot(old(self).current(j).grapheme, next[j - start], color),
                            ..old(self).current(j)
                        }
                    } else {
                        old(self).current(j)
                    }
                } by {
                    assert(self.cells@[j] == before[j]);
                }
                let replace = match &self.cells[p].1.grapheme {
                    None => true,
                    Some(previous) => previous.color != color || !str_eq(previous.char.as_str(), g),
                };
                if replace {
                    self.cells[p].1.grapheme = Some(Grapheme { color, index: idx, width, char: g.to_owned() });
                }
                proof {
                    assert(next[p - start] == (g@, idx as int, width as int));
                    assert forall|j: int| #![trigger self.cells@[j]] 0 <= j < len implies {
                        &&& self.previous(j) == old(self).previous(j)
                        &&& self.current(j) == if start <= j < p + 1 {
                            CellView {
                                grapheme: write_slot(old(self).current(j).grapheme, next[j - start], color),
                                ..old(self).current(j)
                            }
                        } else {
                            old(self).current(j)
                        }
                    } by {
                        assert(before[j] == before[j]);
                    }
                }
                p = p + 1;
                idx = idx + 1;
            }
            k = k + 1;
        }
        proof {
            assert(gsv.take(gs@.len() as int) =~= gsv);
            assert(gs@.len() == gsv.len());
            assert forall|j: int| #![trigger self.cells@[j]] 0 <= j < len implies {
                let slots = grapheme_slots(graphemes_of(string@));
                self.current(j) == if start <= j < start + slots.len() {
                    CellView { grapheme: write_slot(old(self).current(j).grapheme, slots[j - start], color), ..old(self).current(j) }
                } else {
                    old(self).current(j)
                }
            } by {
                assert(self.cells@[j] == self.cells@[j]);
            }
        }
    }
}

/// The slots of a prefix of the graphemes are a prefix of all slots.
pub proof fn lemma_slots_prefix(gs: Seq<Seq<char>>, k: int)
    requires
        0 <= k <= gs.len(),
    ensures
        grapheme_slots(gs.take(k)).len() <= grapheme_slots(gs).len(),
        forall|i: int| 0 <= i < grapheme_slots(gs.take(k)).len() ==>
            #[trigger] grapheme_slots(gs.take(k))[i] == grapheme_slots(gs)[i],
    decreases gs.len() - k,
{
    if k < gs.len() {
        lemma_slots_prefix(gs, k + 1);
        assert(gs.take(k + 1).drop_last() =~= gs.take(k));
        let g = gs.take(k + 1).last();
        let w = str_width_of(g) as int;
        let a = grapheme_slots(gs.take(k));
        let b = grapheme_slots(gs.take(k + 1));
        assert(b == a + Seq::new(w as nat, |i: int| (g, i, w)));
        assert forall|i: int| 0 <= i < a.len() implies #[trigger] a[i] == grapheme_slots(gs)[i] by {
            assert(a[i] == b[i]);
        }
    } else {
        assert(gs.take(k) =~= gs);
    }
}

/// The colour of pixel (x, y) of a BGRA frame `pw` pixels wide.
pub open spec fn bgra_pixel(pixels: Seq<u8>, pw: int, x: int, y: int) -> Color {
    let i = (y * pw + x) * 4;
    Color { r: pixels[i + 2], g: pixels[i + 1], b: pixels[i] }
}

/// The frame pixel under virtual sub-pixel column `tx`, row `ty` when a
/// `pw` by `ph` frame is stretched over a viewport of `vw` by `vh` cells
/// (two sub-pixel columns and four sub-pixel rows per cell).
pub open spec fn pixel_under(pixels: Seq<u8>, pw: int, ph: int, vw: int, vh: int, tx: int, ty: int) -> Color {
    bgra_pixel(pixels, pw, source_coord(tx, pw, vw * 2), source_coord(ty, ph, vh * 4))
}

/// Each quadrant of a viewport cell shows the picture under it: the
/// top-left quadrant averages the two pixels under sub-pixel column 2cx,
/// rows 4cy and 4cy+1; the top-right the same rows of column 2cx+1; the
/// bottom-right rows 4cy+2 and 4cy+3 of column 2cx+1; the bottom-left those
/// rows of column 2cx.
pub proof fn lemma_quadrants_follow_picture(
    pixels: Seq<u8>,
    pw: int,
    ph: int,
    vw: int,
    vh: int,
    cx: int,
    cy: int,
)
    ensures
        ({
            let q = quadrant_at(pixels, pw, ph, vw, vh, cx, cy);
            let at = |tx: int, ty: int| pixel_under(pixels, pw, ph, vw, vh, tx, ty);
            &&& q.0 == avg_color(at(2 * cx, 4 * cy), at(2 * cx, 4 * cy + 1))
            &&& q.1 == avg_color(at(2 * cx + 1, 4 * cy), at(2 * cx + 1, 4 * cy + 1))
            &&& q.2 == avg_color(at(2 * cx + 1, 4 * cy + 2), at(2 * cx + 1, 4 * cy + 3))
            &&& q.3 == avg_color(at(2 * cx, 4 * cy + 2), at(2 * cx, 4 * cy + 3))
        }),
{
}

/// A cell over a left/right colour split shows the left colour on its
/// left quadrants and the right colour on its right ones.
pub proof fn lemma_left_right_split(
    pixels: Seq<u8>,
    pw: int,
    ph: int,
    vw: int,
    vh: int,
    cx: int,
    cy: int,
    left: Color,
    right: Color,
)
    requires
        forall|ty: int|
            4 * cy <= ty < 4 * cy + 4 ==> #[trigger] pixel_under(pixels, pw, ph, vw, vh, 2 * cx, ty) == left
                && pixel_under(pixels, pw, ph, vw, vh, 2 * cx + 1, ty) == right,
    ensures
        quadrant_at(pixels, pw, ph, vw, vh, cx, cy) == (left, right, right, left),
{
    assert(pixel_under(pixels, pw, ph, vw, vh, 2 * cx, 4 * cy) == left);
    assert(pixel_under(pixels, pw, ph, vw, vh, 2 * cx, 4 * cy + 1) == left);
    assert(pixel_under(pixels, pw, ph, vw, vh, 2 * cx, 4 * cy + 2) == left);
    assert(pixel_under(pixels, pw, ph, vw, vh, 2 * cx, 4 * cy + 3) == left);
}

/// A cell over a top/bottom colour split shows the top colour on its top
/// quadrants and the bottom colour on its bottom ones.
pub proof fn lemma_top_bottom_split(
    pixels: Seq<u8>,
    pw: int,
    ph: int,
    vw: int,
    vh: int,
    cx: int,
    cy: int,
    top: Color,
    bottom: Color,
)
    requires
        forall|tx: int|
            2 * cx <= tx < 2 * cx + 2 ==> #[trigger] pixel_under(pixels, pw, ph, vw, vh, tx, 4 * cy) == top
                && pixel_under(pixels, pw, ph, vw, vh, tx, 4 * cy + 1) == top
                && pixel_under(pixels, pw, ph, vw, vh, tx, 4 * cy + 2) == bottom
                && pixel_under(pixels, pw, ph, vw, vh, tx, 4 * cy + 3) == bottom,
    ensures
        quadrant_at(pixels, pw, ph, vw, vh, cx, cy) == (top, top, bottom, bottom),
{
    assert(pixel_under(pixels, pw, ph, vw, vh, 2 * cx, 4 * cy) == top);
    assert(pixel_under(pixels, pw, ph, vw, vh, 2 * cx + 1, 4 * cy) == top);
}

} // verus!
