//! The native text overlay: page text drawn as terminal glyphs over the
//! pixel rendering. Runs are placed in order; a run is cut at the edge of
//! the browser area and at the first cell that an earlier run already
//! took, so earlier runs are never overwritten.

use vstd::prelude::*;

use std::collections::HashSet;

use crate::color::{
    ensure_contrast, ensure_contrast_spec, terminal_color_spec, to_terminal_color, TerminalColor,
};
use crate::layout::Rect;
use crate::page_text::{nodes_spec, read_text_nodes, JsValue, TextNode};
use crate::text::{char_to_string, chars_of, string_of};
use crate::width::{str_width, str_width_of};

verus! {

broadcast use vstd::std_specs::hash::group_hash_axioms;

/// Key of the terminal cell at column `x`, row `y` in the set of taken
/// cells.
pub open spec fn cell_key(x: int, y: int) -> int {
    y * 65536 + x
}

/// The keys `lo..hi`.
pub open spec fn key_range(lo: int, hi: int) -> Set<u32> {
    Set::new(|k: u32| lo <= k < hi)
}

/// Columns a character takes when written on its own.
pub open spec fn char_cols(c: char) -> int {
    str_width_of(seq![c]) as int
}

/// Columns the characters of `t` take, one after another.
pub open spec fn width_sum(t: Seq<char>) -> int
    decreases t.len(),
{
    if t.len() == 0 {
        0
    } else {
        width_sum(t.drop_last()) + char_cols(t.last())
    }
}

/// The cells a character of width `w` written at column `cursor` of row
/// `y` covers (the cell at the cursor for a character of no width).
pub open spec fn char_cells(cursor: int, y: int, w: int) -> Set<u32> {
    key_range(cell_key(cursor, y), cell_key(cursor, y) + if w == 0 { 1 } else { w })
}

/// A character `w` columns wide is taken at column `cursor` of row `y`: it
/// fits the `budget`, its cells end by the last column a `u16` can name,
/// and none of them is in `taken`.
pub open spec fn takes_char(cursor: int, y: int, w: int, budget: int, taken: Set<u32>) -> bool {
    &&& w <= budget
    &&& cursor + (if w == 0 { 1 } else { w }) <= 65536
    &&& char_cells(cursor, y, w).disjoint(taken)
}

/// The longest prefix of `s` that, written from column `cursor` of row `y`,
/// takes at most `budget` columns, stays within the columns a `u16` can
/// name, and puts no character on a cell of `taken`.
pub open spec fn fit_spec(s: Seq<char>, cursor: int, y: int, budget: int, taken: Set<u32>) -> Seq<
    char,
>
    decreases s.len(),
{
    if s.len() == 0 {
        Seq::empty()
    } else {
        let w = char_cols(s[0]);
        if !takes_char(cursor, y, w, budget, taken) {
            Seq::empty()
        } else {
            seq![s[0]] + fit_spec(s.drop_first(), cursor + w, y, budget - w, taken)
        }
    }
}

proof fn lemma_width_sum_prepend(a: char, t: Seq<char>)
    ensures
        width_sum(seq![a] + t) == char_cols(a) + width_sum(t),
    decreases t.len(),
{
    if t.len() > 0 {
        let u = seq![a] + t;
        assert(u.drop_last() =~= seq![a] + t.drop_last());
        assert(u.last() == t.last());
        lemma_width_sum_prepend(a, t.drop_last());
        assert(width_sum(u) == width_sum(u.drop_last()) + char_cols(u.last()));
        assert(width_sum(t) == width_sum(t.drop_last()) + char_cols(t.last()));
    } else {
        let u = seq![a] + t;
        assert(u =~= seq![a]);
        assert(u.drop_last() =~= Seq::<char>::empty());
        assert(u.last() == a);
        assert(width_sum(u.drop_last()) == 0);
        assert(width_sum(u) == width_sum(u.drop_last()) + char_cols(u.last()));
        assert(width_sum(t) == 0);
    }
}

proof fn lemma_width_sum_prefix(t: Seq<char>, j: int)
    requires
        0 <= j <= t.len(),
    ensures
        0 <= width_sum(t.take(j)) <= width_sum(t),
    decreases t.len() - j,
{
    if j < t.len() {
        lemma_width_sum_prefix(t, j + 1);
        assert(t.take(j + 1).drop_last() =~= t.take(j));
        assert(t.take(j + 1).last() == t[j]);
        lemma_width_sum_nonneg(t.take(j));
    } else {
        assert(t.take(j) =~= t);
        lemma_width_sum_nonneg(t);
    }
}

proof fn lemma_width_sum_nonneg(t: Seq<char>)
    ensures
        width_sum(t) >= 0,
    decreases t.len(),
{
    if t.len() > 0 {
        lemma_width_sum_nonneg(t.drop_last());
    }
}

/// What is kept of `s` takes at most `budget` columns.
proof fn lemma_fit_width(s: Seq<char>, cursor: int, y: int, budget: int, taken: Set<u32>)
    requires
        budget >= 0,
    ensures
        width_sum(fit_spec(s, cursor, y, budget, taken)) <= budget,
    decreases s.len(),
{
    if s.len() > 0 {
        let w = char_cols(s[0]);
        if takes_char(cursor, y, w, budget, taken) {
            lemma_fit_width(s.drop_first(), cursor + w, y, budget - w, taken);
            lemma_width_sum_prepend(s[0], fit_spec(s.drop_first(), cursor + w, y, budget - w, taken));
        }
    }
}

/// Whether none of the `n` cells from column `cursor` of row `y` is in
/// `taken`.
fn cells_free(taken: &HashSet<u32>, cursor: u32, y: u16, n: u32) -> (b: bool)
    requires
        cursor + n <= 65536,
    ensures
        b == key_range(cell_key(cursor as int, y as int), cell_key(cursor as int, y as int) + n)
            .disjoint(taken@),
{
    let ghost base = cell_key(cursor as int, y as int);
    let mut i: u32 = 0;
    while i < n
        invariant
            cursor + n <= 65536,
            base == cell_key(cursor as int, y as int),
            i <= n,
            key_range(base, base + i).disjoint(taken@),
        decreases n - i,
    {
        let key: u32 = (y as u32) * 65536 + cursor + i;
        assert(key == base + i);
        if taken.contains(&key) {
            assert(key_range(base, base + n).contains(key));
            return false;
        }
        assert(key_range(base, base + i + 1) =~= key_range(base, base + i).insert(key));
        i = i + 1;
    }
    true
}

/// The longest prefix of `cs` that fits; see `fit_spec`.
fn fit_chars(cs: &Vec<char>, x: u16, y: u16, max_cols: usize, taken: &HashSet<u32>) -> (t: Vec<
    char,
>)
    ensures
        t@ == fit_spec(cs@, x as int, y as int, max_cols as int, taken@),
{
    let mut result: Vec<char> = Vec::new();
    let mut width: usize = 0;
    let mut cursor: u32 = x as u32;
    let mut i: usize = 0;
    assert(cs@.skip(0) =~= cs@);
    assert(result@ + fit_spec(cs@, x as int, y as int, max_cols as int, taken@) =~= fit_spec(
        cs@,
        x as int,
        y as int,
        max_cols as int,
        taken@,
    ));
    while i < cs.len()
        invariant
            i <= cs@.len(),
            width <= max_cols,
            cursor == x + width,
            cursor <= 65536,
            result@ + fit_spec(cs@.skip(i as int), cursor as int, y as int, max_cols - width, taken@)
                == fit_spec(cs@, x as int, y as int, max_cols as int, taken@),
        decreases cs@.len() - i,
    {
        let ch = cs[i];
        let ghost rest = cs@.skip(i as int);
        assert(rest[0] == ch);
        assert(rest.drop_first() =~= cs@.skip(i + 1));
        let w = str_width(char_to_string(ch).as_str());
        if w > max_cols - width {
            assert(result@ + Seq::<char>::empty() =~= result@);
            return result;
        }
        let span: usize = if w == 0 { 1 } else { w };
        let room: u32 = 65536 - cursor;
        if span > room as usize {
            assert(result@ + Seq::<char>::empty() =~= result@);
            return result;
        }
        if !cells_free(taken, cursor, y, span as u32) {
            assert(result@ + Seq::<char>::empty() =~= result@);
            return result;
        }
        result.push(ch);
        width = width + w;
        cursor = cursor + (w as u32);
        proof {
            let tail = fit_spec(cs@.skip(i + 1), cursor as int, y as int, max_cols - width, taken@);
            assert(result@ + tail =~= result@.drop_last() + (seq![ch] + tail));
        }
        i = i + 1;
    }
    assert(cs@.skip(i as int) =~= Seq::<char>::empty());
    assert(result@ + Seq::<char>::empty() =~= result@);
    result
}

/// The text of `s` that fits from column `x` of row `y`: at most
/// `max_cols` columns, and stopping before the first character that would
/// cover a cell of `occupied` or run past the last column (65535).
pub fn truncate_to_available(
    s: &str,
    x: u16,
    y: u16,
    max_cols: usize,
    occupied: &HashSet<u32>,
) -> (r: String)
    ensures
        r@ == fit_spec(s@, x as int, y as int, max_cols as int, occupied@),
{
    let cs = chars_of(s);
    let t = fit_chars(&cs, x, y, max_cols, occupied);
    string_of(&t, 0, t.len())
}

/// Mark the cells that `t`, written from column `x` of row `y`, takes.
fn mark_cells(t: &Vec<char>, x: u16, y: u16, occupied: &mut HashSet<u32>)
    requires
        x + width_sum(t@) <= u16::MAX,
    ensures
        final(occupied)@ == old(occupied)@.union(
            key_range(cell_key(x as int, y as int), cell_key(x as int, y as int) + width_sum(t@)),
        ),
{
    let ghost occ0 = old(occupied)@;
    let ghost base = cell_key(x as int, y as int);
    let mut cursor: u16 = x;
    let mut j: usize = 0;
    assert(occupied@ =~= occ0.union(key_range(base, base + width_sum(t@.take(0)))));
    while j < t.len()
        invariant
            j <= t@.len(),
            base == cell_key(x as int, y as int),
            x + width_sum(t@) <= u16::MAX,
            cursor == x + width_sum(t@.take(j as int)),
            occupied@ == occ0.union(key_range(base, base + width_sum(t@.take(j as int)))),
        decreases t@.len() - j,
    {
        proof {
            lemma_width_sum_prefix(t@, j + 1);
            lemma_width_sum_prefix(t@, j as int);
            assert(t@.take(j + 1).drop_last() =~= t@.take(j as int));
        }
        let w = str_width(char_to_string(t[j]).as_str());
        assert(w == char_cols(t@[j as int]));
        let mut i: u16 = 0;
        while i < w as u16
            invariant
                base == cell_key(x as int, y as int),
                cursor + w <= u16::MAX,
                0 <= width_sum(t@.take(j as int)),
                i <= w,
                cursor == x + width_sum(t@.take(j as int)),
                occupied@ == occ0.union(key_range(base, base + width_sum(t@.take(j as int)) + i)),
            decreases w - i,
        {
            let key: u32 = (y as u32) * 65536 + ((cursor + i) as u32);
            assert(key == base + width_sum(t@.take(j as int)) + i);
            occupied.insert(key);
            assert(occupied@ =~= occ0.union(
                key_range(base, base + width_sum(t@.take(j as int)) + i + 1),
            ));
            i = i + 1;
        }
        cursor = cursor + (w as u16);
        j = j + 1;
    }
    assert(t@.take(j as int) =~= t@);
}

/// A run of page text mapped onto the terminal: cell column and row within
/// the browser area, its colour, and the page colour sampled under it.
pub struct TextRun {
    pub text: String,
    pub col: u16,
    pub row: u16,
    pub fg: TerminalColor,
    pub bg_sample: Option<(u8, u8, u8)>,
}

/// Text to write at an absolute terminal position, with its colours.
pub struct PlacedText {
    pub x: u16,
    pub y: u16,
    pub text: String,
    pub fg: TerminalColor,
    pub bg: TerminalColor,
}

/// `TextRun` with its text as characters.
pub struct TextRunView {
    pub text: Seq<char>,
    pub col: u16,
    pub row: u16,
    pub fg: TerminalColor,
    pub bg_sample: Option<(u8, u8, u8)>,
}

/// `PlacedText` with its text as characters.
pub struct PlacedTextView {
    pub x: u16,
    pub y: u16,
    pub text: Seq<char>,
    pub fg: TerminalColor,
    pub bg: TerminalColor,
}

impl View for TextRun {
    type V = TextRunView;

    open spec fn view(&self) -> TextRunView {
        TextRunView {
            text: self.text@,
            col: self.col,
            row: self.row,
            fg: self.fg,
            bg_sample: self.bg_sample,
        }
    }
}

impl View for PlacedText {
    type V = PlacedTextView;

    open spec fn view(&self) -> PlacedTextView {
        PlacedTextView { x: self.x, y: self.y, text: self.text@, fg: self.fg, bg: self.bg }
    }
}

/// The background of a run: the sampled page colour in the terminal's
/// palette, or the terminal default where nothing was sampled.
pub open spec fn run_bg(sample: Option<(u8, u8, u8)>, true_color: bool) -> TerminalColor {
    match sample {
        Some(c) => terminal_color_spec(c, true_color),
        None => TerminalColor::Reset,
    }
}

/// One run placed with the cells `taken` before it: what is written (if
/// anything) and the cells taken after it. A run that starts outside the
/// area, or of which nothing fits, writes nothing.
pub open spec fn place_step(run: TextRunView, area: Rect, true_color: bool, taken: Set<u32>) -> (
    Option<PlacedTextView>,
    Set<u32>,
) {
    if run.col >= area.width || run.row >= area.height {
        (None, taken)
    } else {
        let x = area.x + run.col;
        let y = area.y + run.row;
        let bg = run_bg(run.bg_sample, true_color);
        let fg = ensure_contrast_spec(run.fg, bg);
        let t = fit_spec(run.text, x, y, area.width - run.col, taken);
        if t.len() == 0 {
            (None, taken)
        } else {
            (
                Some(PlacedTextView { x: x as u16, y: y as u16, text: t, fg, bg }),
                taken.union(key_range(cell_key(x, y), cell_key(x, y) + width_sum(t))),
            )
        }
    }
}

/// All runs placed in order, starting with the cells `taken`.
pub open spec fn place_spec(runs: Seq<TextRunView>, area: Rect, true_color: bool, taken: Set<u32>) -> Seq<
    PlacedTextView,
>
    decreases runs.len(),
{
    if runs.len() == 0 {
        Seq::empty()
    } else {
        let (p, after) = place_step(runs[0], area, true_color, taken);
        let rest = place_spec(runs.drop_first(), area, true_color, after);
        match p {
            Some(v) => seq![v] + rest,
            None => rest,
        }
    }
}

/// Place the runs in order over the browser `area`; see `place_spec`.
/// Each placed run gets the sampled background (in the terminal's palette)
/// and a foreground adjusted for contrast against it.
pub fn place_runs(runs: &Vec<TextRun>, area: Rect, true_color: bool) -> (out: Vec<PlacedText>)
    requires
        area.wf(),
    ensures
        out@.map_values(|p: PlacedText| p@) == place_spec(
            runs@.map_values(|r: TextRun| r@),
            area,
            true_color,
            Set::empty(),
        ),
{
    let ghost rv = runs@.map_values(|r: TextRun| r@);
    let mut occupied: HashSet<u32> = HashSet::new();
    let mut out: Vec<PlacedText> = Vec::new();
    let mut k: usize = 0;
    assert(rv.skip(0) =~= rv);
    while k < runs.len()
        invariant
            area.wf(),
            k <= runs@.len(),
            rv == runs@.map_values(|r: TextRun| r@),
            out@.map_values(|p: PlacedText| p@) + place_spec(rv.skip(k as int), area, true_color, occupied@)
                == place_spec(rv, area, true_color, Set::empty()),
        decreases runs@.len() - k,
    {
        let run = &runs[k];
        let ghost rest = rv.skip(k as int);
        let ghost before = out@.map_values(|p: PlacedText| p@);
        assert(rest[0] == run@);
        assert(rest.drop_first() =~= rv.skip(k + 1));
        if run.col >= area.width || run.row >= area.height {
            k = k + 1;
            continue;
        }
        let x = area.x + run.col;
        let y = area.y + run.row;
        let max_cols = (area.width - run.col) as usize;
        let bg = match run.bg_sample {
            Some(c) => to_terminal_color(c, true_color),
            None => TerminalColor::Reset,
        };
        let fg = ensure_contrast(run.fg, bg);
        let cs = chars_of(run.text.as_str());
        let t = fit_chars(&cs, x, y, max_cols, &occupied);
        if t.len() == 0 {
            k = k + 1;
            continue;
        }
        proof {
            lemma_fit_width(cs@, x as int, y as int, max_cols as int, occupied@);
        }
        mark_cells(&t, x, y, &mut occupied);
        let text = string_of(&t, 0, t.len());
        assert(t@.subrange(0, t@.len() as int) =~= t@);
        out.push(PlacedText { x, y, text, fg, bg });
        proof {
            let v = PlacedTextView { x, y, text: t@, fg, bg };
            assert(out@.map_values(|p: PlacedText| p@) =~= before.push(v));
            assert(before.push(v) + place_spec(rv.skip(k + 1), area, true_color, occupied@) =~= before
                + (seq![v] + place_spec(rv.skip(k + 1), area, true_color, occupied@)));
        }
        k = k + 1;
    }
    assert(rv.skip(k as int) =~= Seq::<TextRunView>::empty());
    assert(out@.map_values(|p: PlacedText| p@) + Seq::<PlacedTextView>::empty() =~= out@.map_values(
        |p: PlacedText| p@,
    ));
    out
}

/// The page colour at pixel (`px`, `py`) of an RGBA frame `pw` pixels wide
/// and `ph` high, the position clamped into the frame; `None` where the
/// buffer is too short to hold that pixel.
pub open spec fn sample_cell_bg_spec(pixels: Seq<u8>, pw: int, ph: int, px: int, py: int) -> Option<
    (u8, u8, u8),
> {
    let x = if px < pw - 1 { px } else { pw - 1 };
    let y = if py < ph - 1 { py } else { ph - 1 };
    let idx = (y * pw + x) * 4;
    if idx + 2 >= pixels.len() {
        None
    } else {
        Some((pixels[idx], pixels[idx + 1], pixels[idx + 2]))
    }
}

/// The text nodes of the extraction script's result, in order: one per
/// item that is an object with a non-blank text and a box that is not
/// empty and does not start above the viewport (one starting left of it is
/// kept); see `nodes_spec`.
pub fn parse_js_nodes(value: &JsValue) -> (out: Vec<TextNode>)
    ensures
        out@.map_values(|n: TextNode| n.view_of()) == nodes_spec(*value, false),
{
    read_text_nodes(value, false)
}

/// Sample the page colour under a terminal cell, at the pixel (`px`, `py`)
/// of its centre; see `sample_cell_bg_spec`.
pub fn sample_cell_bg(pixels: &[u8], pw: u32, ph: u32, px: usize, py: usize) -> (r: Option<
    (u8, u8, u8),
>)
    requires
        pw >= 1,
        ph >= 1,
        (pw as int) * (ph as int) * 4 + 2 <= usize::MAX,
    ensures
        r == sample_cell_bg_spec(pixels@, pw as int, ph as int, px as int, py as int),
{
    let w = pw as usize;
    let h = ph as usize;
    let x = if px < w - 1 { px } else { w - 1 };
    let y = if py < h - 1 { py } else { h - 1 };
    assert((y as int) * (w as int) + (x as int) < (w as int) * (h as int)) by (nonlinear_arith)
        requires
            y < h,
            x < w,
    {
        assert((y as int) * (w as int) <= ((h - 1) as int) * (w as int));
    }
    let idx = (y * w + x) * 4;
    if idx + 2 >= pixels.len() {
        None
    } else {
        Some((pixels[idx], pixels[idx + 1], pixels[idx + 2]))
    }
}

/// The cells a placed text takes.
pub open spec fn cells_of(p: PlacedTextView) -> Set<u32> {
    key_range(cell_key(p.x as int, p.y as int), cell_key(p.x as int, p.y as int) + width_sum(p.text))
}

/// What is kept of `s`, written from column `cursor` of row `y`, covers no
/// cell of `taken`.
proof fn lemma_fit_cells_free(s: Seq<char>, cursor: int, y: int, budget: int, taken: Set<u32>)
    ensures
        key_range(
            cell_key(cursor, y),
            cell_key(cursor, y) + width_sum(fit_spec(s, cursor, y, budget, taken)),
        ).disjoint(taken),
    decreases s.len(),
{
    let f = fit_spec(s, cursor, y, budget, taken);
    let base = cell_key(cursor, y);
    if s.len() > 0 {
        let w = char_cols(s[0]);
        if takes_char(cursor, y, w, budget, taken) {
            let rf = fit_spec(s.drop_first(), cursor + w, y, budget - w, taken);
            lemma_fit_cells_free(s.drop_first(), cursor + w, y, budget - w, taken);
            lemma_width_sum_prepend(s[0], rf);
            lemma_width_sum_nonneg(rf);
            assert(cell_key(cursor + w, y) == base + w);
            assert forall|k: u32| key_range(base, base + width_sum(f)).contains(k) implies !taken.contains(
                k,
            ) by {
                if k < base + w {
                    assert(char_cells(cursor, y, w).contains(k));
                } else {
                    assert(key_range(base + w, base + w + width_sum(rf)).contains(k));
                }
            }
        }
    } else {
        assert(key_range(base, base + width_sum(f)) =~= Set::<u32>::empty());
    }
}

proof fn lemma_place_cells_free(runs: Seq<TextRunView>, area: Rect, true_color: bool, taken: Set<u32>)
    requires
        area.wf(),
    ensures
        forall|j: int|
            0 <= j < place_spec(runs, area, true_color, taken).len() ==> cells_of(
                #[trigger] place_spec(runs, area, true_color, taken)[j],
            ).disjoint(taken),
        forall|i: int, j: int|
            0 <= i < j < place_spec(runs, area, true_color, taken).len() ==> cells_of(
                #[trigger] place_spec(runs, area, true_color, taken)[j],
            ).disjoint(cells_of(#[trigger] place_spec(runs, area, true_color, taken)[i])),
    decreases runs.len(),
{
    let out = place_spec(runs, area, true_color, taken);
    if runs.len() > 0 {
        let (p, after) = place_step(runs[0], area, true_color, taken);
        let rest = place_spec(runs.drop_first(), area, true_color, after);
        lemma_place_cells_free(runs.drop_first(), area, true_color, after);
        match p {
            None => {
                assert(out == rest);
            },
            Some(v) => {
                let run = runs[0];
                let x = area.x + run.col;
                let y = area.y + run.row;
                lemma_fit_cells_free(run.text, x, y, area.width - run.col, taken);
                assert(out == seq![v] + rest);
                assert(v.x as int == x && v.y as int == y);
                assert(after == taken.union(cells_of(v)));
                assert forall|j: int| 0 <= j < out.len() implies cells_of(#[trigger] out[j]).disjoint(
                    taken,
                ) by {
                    if j > 0 {
                        assert(out[j] == rest[j - 1]);
                        assert(cells_of(rest[j - 1]).disjoint(after));
                    }
                }
                assert forall|i: int, j: int| 0 <= i < j < out.len() implies cells_of(
                    #[trigger] out[j],
                ).disjoint(cells_of(#[trigger] out[i])) by {
                    assert(out[j] == rest[j - 1]);
                    assert(cells_of(rest[j - 1]).disjoint(after));
                    if i > 0 {
                        assert(out[i] == rest[i - 1]);
                    }
                }
            },
        }
    }
}

/// Runs placed later never write over an earlier one: the cells of any two
/// placed texts are disjoint, so a later run is cut at the first cell
/// (of any character, wide ones included) that an earlier run took.
pub proof fn lemma_no_overwrite(runs: Seq<TextRunView>, area: Rect, true_color: bool, i: int, j: int)
    requires
        area.wf(),
        0 <= i < j < place_spec(runs, area, true_color, Set::empty()).len(),
    ensures
        ({
            let out = place_spec(runs, area, true_color, Set::empty());
            cells_of(out[j]).disjoint(cells_of(out[i]))
        }),
{
    lemma_place_cells_free(runs, area, true_color, Set::empty());
}

/// Everything placed lies inside the area: on one of its rows, starting on
/// one of its columns, and ending by its right edge.
pub open spec fn within_area(p: PlacedTextView, area: Rect) -> bool {
    &&& area.y <= p.y < area.y + area.height
    &&& area.x <= p.x
    &&& p.x + width_sum(p.text) <= area.x + area.width
}

proof fn lemma_place_within(runs: Seq<TextRunView>, area: Rect, true_color: bool, taken: Set<u32>)
    requires
        area.wf(),
    ensures
        forall|j: int|
            0 <= j < place_spec(runs, area, true_color, taken).len() ==> within_area(
                #[trigger] place_spec(runs, area, true_color, taken)[j],
                area,
            ),
    decreases runs.len(),
{
    if runs.len() > 0 {
        let (p, after) = place_step(runs[0], area, true_color, taken);
        let rest = place_spec(runs.drop_first(), area, true_color, after);
        lemma_place_within(runs.drop_first(), area, true_color, after);
        let out = place_spec(runs, area, true_color, taken);
        if let Some(v) = p {
            let run = runs[0];
            lemma_fit_width(run.text, area.x + run.col, area.y + run.row, area.width - run.col, taken);
            assert(out == seq![v] + rest);
            assert forall|j: int| 0 <= j < out.len() implies within_area(#[trigger] out[j], area) by {
                if j > 0 {
                    assert(out[j] == rest[j - 1]);
                }
            }
        } else {
            assert(out == rest);
        }
    }
}

/// Text is cut at the edge of the browser area: every placed run lies
/// within it.
pub proof fn lemma_placed_within_area(runs: Seq<TextRunView>, area: Rect, true_color: bool, j: int)
    requires
        area.wf(),
        0 <= j < place_spec(runs, area, true_color, Set::empty()).len(),
    ensures
        within_area(place_spec(runs, area, true_color, Set::empty())[j], area),
{
    lemma_place_within(runs, area, true_color, Set::empty());
}

} // verus!
