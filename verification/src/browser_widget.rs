//! Quadrant-block rasterisation of a browser frame: each terminal cell
//! stands for a 2x4 grid of virtual sub-pixels; the four corner samples pick
//! a quadrant glyph and a foreground/background colour pair.

use vstd::prelude::*;

use crate::color::{luma, luma_spec, terminal_color_spec, to_terminal_color, TerminalColor};

verus! {

/// An 8-bit RGB triple.
pub type Rgb = (u8, u8, u8);

/// Horizontal sub-pixels per terminal cell.
pub const SUBCELL_COLS: usize = 2;

/// Vertical sub-pixels per terminal cell.
pub const SUBCELL_ROWS: usize = 4;

/// Row offset of the bottom pair of samples within a cell.
pub const SUBCELL_BOT_ROW: usize = 2;

/// Bytes per pixel in an RGBA8888 frame.
pub const RGBA_BYTES: usize = 4;

/// Quadrant glyphs by corner mask: bit 3 top-left, bit 2 top-right,
/// bit 1 bottom-left, bit 0 bottom-right; a set bit is a bright corner.
pub const QUADRANT: [char; 16] = [
    ' ', '▗', '▖', '▄', '▝', '▐', '▞', '▟', '▘', '▚', '▌', '▙', '▀', '▜', '▛', '█',
];

/// Width and height of a frame in pixels.
#[derive(Clone, Copy, Debug, PartialEq, Eq, Structural)]
pub struct Extent {
    pub x: u32,
    pub y: u32,
}

/// One rendered frame: RGBA8888 pixels, row-major, `size.x` by `size.y`.
#[derive(Clone, Debug)]
pub struct BrowserFrame {
    pub pixels: Vec<u8>,
    pub size: Extent,
}

impl BrowserFrame {
    /// The pixel buffer holds at least `size.x * size.y` RGBA pixels.
    pub open spec fn wf(&self) -> bool {
        self.pixels@.len() >= self.size.x * self.size.y * 4
    }
}

/// Renders a `BrowserFrame` into terminal cells with quadrant glyphs.
pub struct BrowserWidget<'a> {
    pub frame: &'a BrowserFrame,
    pub true_color: bool,
}

/// A terminal cell produced by the widget: a glyph and its two colours.
#[derive(Clone, Copy, Debug, PartialEq, Eq, Structural)]
pub struct QuadrantCell {
    pub ch: char,
    pub fg: TerminalColor,
    pub bg: TerminalColor,
}

/// Nearest-neighbour source coordinate of virtual coordinate `t` when `f`
/// source pixels are stretched over `t_len` virtual ones: the pixel under
/// the centre `(t + 1/2) * f / t_len`, clamped to the last pixel.
pub open spec fn source_coord(t: int, f: int, t_len: int) -> int {
    let s = ((2 * t + 1) * f) / (2 * t_len);
    if s < f - 1 { s } else { f - 1 }
}

/// The RGB channels of pixel (x, y) in an RGBA buffer of width `fw`.
pub open spec fn pixel_at(pixels: Seq<u8>, fw: int, x: int, y: int) -> Rgb {
    let i = (y * fw + x) * 4;
    (pixels[i], pixels[i + 1], pixels[i + 2])
}

/// The sample taken for virtual pixel (tx, ty).
pub open spec fn sample_spec(
    pixels: Seq<u8>,
    fw: int,
    fh: int,
    tw: int,
    th: int,
    tx: int,
    ty: int,
) -> Rgb {
    pixel_at(pixels, fw, source_coord(tx, fw, tw), source_coord(ty, fh, th))
}

proof fn lemma_source_coord_bounds(t: int, f: int, t_len: int)
    requires
        0 <= t < t_len,
        f > 0,
    ensures
        0 <= ((2 * t + 1) * f) / (2 * t_len) < f,
        0 <= source_coord(t, f, t_len) < f,
{
    assert((2 * t + 1) * f < 2 * t_len * f) by (nonlinear_arith)
        requires
            0 <= t < t_len,
            f > 0,
    ;
    assert(0 <= (2 * t + 1) * f) by (nonlinear_arith)
        requires
            0 <= t,
            f > 0,
    ;
    assert(((2 * t + 1) * f) / (2 * t_len) < f) by (nonlinear_arith)
        requires
            (2 * t + 1) * f < 2 * t_len * f,
            t_len > 0,
    ;
    assert(0 <= ((2 * t + 1) * f) / (2 * t_len)) by (nonlinear_arith)
        requires
            0 <= (2 * t + 1) * f,
            t_len > 0,
    ;
}

proof fn lemma_pixel_index_bounds(x: int, y: int, fw: int, fh: int)
    requires
        0 <= x < fw,
        0 <= y < fh,
    ensures
        0 <= (y * fw + x) * 4,
        (y * fw + x) * 4 + 3 < fw * fh * 4,
{
    assert(y * fw + x < fw * fh) by (nonlinear_arith)
        requires
            0 <= x < fw,
            0 <= y < fh,
    ;
    assert(0 <= y * fw) by (nonlinear_arith)
        requires
            0 <= y,
            0 <= fw,
    ;
}

pub(crate) fn source_index(t: usize, f: usize, t_len: usize) -> (s: usize)
    requires
        t < t_len,
        t_len <= 0x100_0000_0000,
        f > 0,
    ensures
        s == source_coord(t as int, f as int, t_len as int),
        s < f,
{
    proof {
        lemma_source_coord_bounds(t as int, f as int, t_len as int);
        assert((2 * t + 1) * f <= 0x200_0000_0000 * 0x1_0000_0000_0000_0000) by (nonlinear_arith)
            requires
                t < t_len,
                t_len <= 0x100_0000_0000,
                f <= usize::MAX,
                usize::MAX <= u64::MAX,
        ;
    }
    let num: u128 = (2 * (t as u128) + 1) * (f as u128);
    let den: u128 = 2 * (t_len as u128);
    let q = num / den;
    let q = q as usize;
    if q < f - 1 {
        q
    } else {
        f - 1
    }
}

/// Sample one pixel of the frame for virtual pixel (tx, ty) of a
/// `tw` by `th` virtual grid; the alpha channel is dropped. The virtual
/// grid is that of a terminal area, so its sides fit in 32 bits.
pub fn sample(pixels: &[u8], fw: usize, fh: usize, tw: usize, th: usize, tx: usize, ty: usize) -> (c: Rgb)
    requires
        tw <= u32::MAX,
        th <= u32::MAX,
        fw > 0,
        fh > 0,
        tx < tw,
        ty < th,
        pixels@.len() >= fw * fh * 4,
    ensures
        c == sample_spec(pixels@, fw as int, fh as int, tw as int, th as int, tx as int, ty as int),
{
    let len = pixels.len();
    let x = source_index(tx, fw, tw);
    let y = source_index(ty, fh, th);
    proof {
        lemma_pixel_index_bounds(x as int, y as int, fw as int, fh as int);
    }
    let i = (y * fw + x) * RGBA_BYTES;
    (pixels[i], pixels[i + 1], pixels[i + 2])
}

/// Channel-wise average, rounding down.
pub open spec fn avg_spec(a: Rgb, b: Rgb) -> Rgb {
    (((a.0 + b.0) / 2) as u8, ((a.1 + b.1) / 2) as u8, ((a.2 + b.2) / 2) as u8)
}

/// Channel-wise average of two colours, rounding down.
pub fn avg(a: Rgb, b: Rgb) -> (c: Rgb)
    ensures
        c == avg_spec(a, b),
{
    (
        ((a.0 as u16 + b.0 as u16) / 2) as u8,
        ((a.1 as u16 + b.1 as u16) / 2) as u8,
        ((a.2 as u16 + b.2 as u16) / 2) as u8,
    )
}

/// The four corners in the order top-left, top-right, bottom-left,
/// bottom-right.
pub open spec fn corner(tl: Rgb, tr: Rgb, bl: Rgb, br: Rgb, i: int) -> Rgb {
    if i == 0 { tl } else if i == 1 { tr } else if i == 2 { bl } else { br }
}

/// `a, b, c, d` list the four corners in order of nondecreasing luma.
pub open spec fn is_luma_order(tl: Rgb, tr: Rgb, bl: Rgb, br: Rgb, a: int, b: int, c: int, d: int) -> bool {
    &&& 0 <= a < 4 && 0 <= b < 4 && 0 <= c < 4 && 0 <= d < 4
    &&& a != b && a != c && a != d && b != c && b != d && c != d
    &&& luma_spec(corner(tl, tr, bl, br, a)) <= luma_spec(corner(tl, tr, bl, br, b))
    &&& luma_spec(corner(tl, tr, bl, br, b)) <= luma_spec(corner(tl, tr, bl, br, c))
    &&& luma_spec(corner(tl, tr, bl, br, c)) <= luma_spec(corner(tl, tr, bl, br, d))
}

/// The foreground is the average of the two brightest corners and the
/// background that of the two darkest, for some order of the corners by
/// luma (corners of equal luma may come in either order).
pub open spec fn fg_bg_spec(tl: Rgb, tr: Rgb, bl: Rgb, br: Rgb, fg: Rgb, bg: Rgb) -> bool {
    exists|a: int, b: int, c: int, d: int|
        #![trigger corner(tl, tr, bl, br, a), corner(tl, tr, bl, br, b), corner(tl, tr, bl, br, c), corner(tl, tr, bl, br, d)]
        is_luma_order(tl, tr, bl, br, a, b, c, d)
        && bg == avg_spec(corner(tl, tr, bl, br, a), corner(tl, tr, bl, br, b))
        && fg == avg_spec(corner(tl, tr, bl, br, c), corner(tl, tr, bl, br, d))
}

fn corner_at(tl: Rgb, tr: Rgb, bl: Rgb, br: Rgb, i: usize) -> (c: Rgb)
    requires
        i < 4,
    ensures
        c == corner(tl, tr, bl, br, i as int),
{
    if i == 0 {
        tl
    } else if i == 1 {
        tr
    } else if i == 2 {
        bl
    } else {
        br
    }
}

/// Foreground (brighter pair average) and background (darker pair average)
/// of a cell's four corners.
pub fn fg_bg(tl: Rgb, tr: Rgb, bl: Rgb, br: Rgb) -> (res: (Rgb, Rgb))
    ensures
        fg_bg_spec(tl, tr, bl, br, res.0, res.1),
{
    let l = [luma(tl), luma(tr), luma(bl), luma(br)];
    let ghost lf = |i: int| luma_spec(corner(tl, tr, bl, br, i));
    assert(forall|i: int| 0 <= i < 4 ==> l@[i] == lf(i));
    // A five-comparator sorting network over corner indices.
    let mut a: usize = 0;
    let mut b: usize = 1;
    let mut c: usize = 2;
    let mut d: usize = 3;
    if l[b] < l[a] {
        let t = a;
        a = b;
        b = t;
    }
    if l[d] < l[c] {
        let t = c;
        c = d;
        d = t;
    }
    if l[c] < l[a] {
        let t = a;
        a = c;
        c = t;
    }
    if l[d] < l[b] {
        let t = b;
        b = d;
        d = t;
    }
    if l[c] < l[b] {
        let t = b;
        b = c;
        c = t;
    }
    let bg = avg(corner_at(tl, tr, bl, br, a), corner_at(tl, tr, bl, br, b));
    let fg = avg(corner_at(tl, tr, bl, br, c), corner_at(tl, tr, bl, br, d));
    assert(is_luma_order(tl, tr, bl, br, a as int, b as int, c as int, d as int));
    (fg, bg)
}

/// Mask bit for one corner: set when its luma is above `mid`.
pub open spec fn bright_bit(l: int, mid: int) -> int {
    if l > mid { 1 } else { 0 }
}

/// The corner mask chosen by `quadrant_char`.
pub open spec fn quadrant_mask(tl: Rgb, tr: Rgb, bl: Rgb, br: Rgb) -> int {
    let l0 = luma_spec(tl);
    let l1 = luma_spec(tr);
    let l2 = luma_spec(bl);
    let l3 = luma_spec(br);
    let lo = vstd::math::min(vstd::math::min(l0, l1), vstd::math::min(l2, l3));
    let hi = vstd::math::max(vstd::math::max(l0, l1), vstd::math::max(l2, l3));
    let mid = (lo + hi) / 2;
    8 * bright_bit(l0, mid) + 4 * bright_bit(l1, mid) + 2 * bright_bit(l2, mid) + bright_bit(l3, mid)
}

/// The quadrant glyph whose set corners are those brighter than the midpoint
/// between the darkest and brightest corner lumas.
pub fn quadrant_char(tl: Rgb, tr: Rgb, bl: Rgb, br: Rgb) -> (ch: char)
    ensures
        0 <= quadrant_mask(tl, tr, bl, br) < 16,
        ch == QUADRANT@[quadrant_mask(tl, tr, bl, br)],
{
    let l0 = luma(tl);
    let l1 = luma(tr);
    let l2 = luma(bl);
    let l3 = luma(br);
    let lo01 = if l0 < l1 { l0 } else { l1 };
    let lo23 = if l2 < l3 { l2 } else { l3 };
    let lo = if lo01 < lo23 { lo01 } else { lo23 };
    let hi01 = if l0 > l1 { l0 } else { l1 };
    let hi23 = if l2 > l3 { l2 } else { l3 };
    let hi = if hi01 > hi23 { hi01 } else { hi23 };
    let mid = (lo + hi) / 2;
    let mut idx: usize = 0;
    if l0 > mid {
        idx = idx + 8;
    }
    if l1 > mid {
        idx = idx + 4;
    }
    if l2 > mid {
        idx = idx + 2;
    }
    if l3 > mid {
        idx = idx + 1;
    }
    QUADRANT[idx]
}

/// A cell whose four corners share one luma is drawn blank: no corner is
/// brighter than the midpoint.
pub proof fn lemma_uniform_cell_is_blank(tl: Rgb, tr: Rgb, bl: Rgb, br: Rgb)
    requires
        luma_spec(tl) == luma_spec(tr),
        luma_spec(tl) == luma_spec(bl),
        luma_spec(tl) == luma_spec(br),
    ensures
        quadrant_mask(tl, tr, bl, br) == 0,
{
}

/// When the corners differ in luma, the brightest corner is always part of
/// the glyph and the darkest never is.
pub proof fn lemma_extremes_in_mask(tl: Rgb, tr: Rgb, bl: Rgb, br: Rgb)
    requires
        luma_spec(tl) > luma_spec(tr),
        luma_spec(tl) >= luma_spec(bl),
        luma_spec(tl) >= luma_spec(br),
        luma_spec(br) <= luma_spec(tr),
        luma_spec(br) <= luma_spec(bl),
    ensures
        quadrant_mask(tl, tr, bl, br) >= 8,
        quadrant_mask(tl, tr, bl, br) % 2 == 0,
{
}

/// The four corner samples of cell (cx, cy) in a `w` by `h` cell area.
pub open spec fn cell_corners(frame: BrowserFrame, w: int, h: int, cx: int, cy: int) -> (Rgb, Rgb, Rgb, Rgb) {
    let fw = frame.size.x as int;
    let fh = frame.size.y as int;
    let p = frame.pixels@;
    (
        sample_spec(p, fw, fh, w * 2, h * 4, cx * 2, cy * 4),
        sample_spec(p, fw, fh, w * 2, h * 4, cx * 2 + 1, cy * 4),
        sample_spec(p, fw, fh, w * 2, h * 4, cx * 2, cy * 4 + 2),
        sample_spec(p, fw, fh, w * 2, h * 4, cx * 2 + 1, cy * 4 + 2),
    )
}

/// `cell` is what the widget draws at column `cx`, row `cy` of a `w` by `h`
/// cell area: the quadrant glyph of the corners, with the converted
/// foreground and background of `fg_bg`.
pub open spec fn cell_spec(frame: BrowserFrame, true_color: bool, w: int, h: int, cx: int, cy: int, cell: QuadrantCell) -> bool {
    let (tl, tr, bl, br) = cell_corners(frame, w, h, cx, cy);
    &&& cell.ch == QUADRANT@[quadrant_mask(tl, tr, bl, br)]
    &&& exists|fg: Rgb, bg: Rgb|
        fg_bg_spec(tl, tr, bl, br, fg, bg)
        && cell.fg == terminal_color_spec(fg, true_color)
        && cell.bg == terminal_color_spec(bg, true_color)
}

impl<'a> BrowserWidget<'a> {
    pub fn new(frame: &'a BrowserFrame, true_color: bool) -> (w: Self)
        ensures
            w.frame == frame,
            w.true_color == true_color,
    {
        BrowserWidget { frame, true_color }
    }

    /// The cell drawn at column `cx`, row `cy` of a `width` by `height` area.
    pub fn cell(&self, width: u16, height: u16, cx: u16, cy: u16) -> (cell: QuadrantCell)
        requires
            self.frame.wf(),
            self.frame.size.x > 0,
            self.frame.size.y > 0,
            cx < width,
            cy < height,
        ensures
            cell_spec(*self.frame, self.true_color, width as int, height as int, cx as int, cy as int, cell),
    {
        let fw = self.frame.size.x as usize;
        let fh = self.frame.size.y as usize;
        let tw = width as usize * SUBCELL_COLS;
        let th = height as usize * SUBCELL_ROWS;
        let x = cx as usize * SUBCELL_COLS;
        let y = cy as usize * SUBCELL_ROWS;
        let px = self.frame.pixels.as_slice();
        let tl = sample(px, fw, fh, tw, th, x, y);
        let tr = sample(px, fw, fh, tw, th, x + 1, y);
        let bl = sample(px, fw, fh, tw, th, x, y + SUBCELL_BOT_ROW);
        let br = sample(px, fw, fh, tw, th, x + 1, y + SUBCELL_BOT_ROW);
        let ghost corners = cell_corners(*self.frame, width as int, height as int, cx as int, cy as int);
        assert(tl == corners.0);
        assert(tr == corners.1);
        assert(bl == corners.2);
        assert(br == corners.3);
        let (fg, bg) = fg_bg(tl, tr, bl, br);
        let ch = quadrant_char(tl, tr, bl, br);
        let cell = QuadrantCell {
            ch,
            fg: to_terminal_color(fg, self.true_color),
            bg: to_terminal_color(bg, self.true_color),
        };
        assert(fg_bg_spec(tl, tr, bl, br, fg, bg));
        assert(cell_corners(*self.frame, width as int, height as int, cx as int, cy as int) == (tl, tr, bl, br));
        cell
    }

    /// Every cell of a `width` by `height` area, row by row; nothing when
    /// the frame or the area is empty.
    pub fn cells(&self, width: u16, height: u16) -> (cells: Vec<QuadrantCell>)
        requires
            self.frame.wf(),
        ensures
            (self.frame.size.x == 0 || self.frame.size.y == 0 || width == 0 || height == 0)
                ==> cells@.len() == 0,
            !(self.frame.size.x == 0 || self.frame.size.y == 0 || width == 0 || height == 0)
                ==> cells@.len() == width * height,
            forall|cy: int, cx: int|
                0 <= cy < height && 0 <= cx < width && cells@.len() == width * height ==>
                    #[trigger] cell_spec(*self.frame, self.true_color, width as int, height as int, cx, cy, cells@[cy * width + cx]),
    {
        let mut out: Vec<QuadrantCell> = Vec::new();
        if self.frame.size.x == 0 || self.frame.size.y == 0 || width == 0 || height == 0 {
            proof {
                if width != 0 && height != 0 {
                    assert(width * height > 0) by (nonlinear_arith)
                        requires
                            width > 0,
                            height > 0,
                    ;
                }
            }
            return out;
        }
        let mut cy: u16 = 0;
        while cy < height
            invariant
                self.frame.wf(),
                self.frame.size.x > 0,
                self.frame.size.y > 0,
                cy <= height,
                out@.len() == cy * width,
                forall|y: int, x: int|
                    0 <= y < cy && 0 <= x < width ==>
                        #[trigger] cell_spec(*self.frame, self.true_color, width as int, height as int, x, y, out@[y * width + x]),
            decreases height - cy,
        {
            let mut cx: u16 = 0;
            while cx < width
                invariant
                    self.frame.wf(),
                    self.frame.size.x > 0,
                    self.frame.size.y > 0,
                    cy < height,
                    cx <= width,
                    out@.len() == cy * width + cx,
                    forall|y: int, x: int|
                        (0 <= y < cy && 0 <= x < width) || (y == cy && 0 <= x < cx) ==>
                            #[trigger] cell_spec(*self.frame, self.true_color, width as int, height as int, x, y, out@[y * width + x]),
                decreases width - cx,
            {
                let c = self.cell(width, height, cx, cy);
                proof {
                    assert(cy * width + cx == out@.len());
                }
                out.push(c);
                proof {
                    assert forall|y: int, x: int|
                        (0 <= y < cy && 0 <= x < width) || (y == cy && 0 <= x < cx + 1) implies
                            #[trigger] cell_spec(*self.frame, self.true_color, width as int, height as int, x, y, out@[y * width + x]) by {
                        if y == cy && x == cx {
                        } else {
                            assert(y * width + x < cy * width + cx) by (nonlinear_arith)
                                requires
                                    (0 <= y < cy && 0 <= x < width) || (y == cy && 0 <= x < cx),
                            ;
                        }
                    }
                }
                cx = cx + 1;
            }
            proof {
                assert((cy + 1) * width == cy * width + width) by (nonlinear_arith);
            }
            cy = cy + 1;
        }
        assert(out@.len() == width * height) by (nonlinear_arith)
            requires
                out@.len() == cy * width,
                cy == height,
        ;
        out
    }
}

/// Where two corners share one colour and the other two a darker one, the
/// foreground is the brighter colour and the background the darker.
proof fn lemma_two_tone_colours(
    tl: Rgb,
    tr: Rgb,
    bl: Rgb,
    br: Rgb,
    i1: int,
    i2: int,
    bright: Rgb,
    dark: Rgb,
    fg: Rgb,
    bg: Rgb,
)
    requires
        0 <= i1 < 4,
        0 <= i2 < 4,
        i1 != i2,
        forall|i: int| 0 <= i < 4 && (i == i1 || i == i2) ==> #[trigger] corner(tl, tr, bl, br, i) == bright,
        forall|i: int| 0 <= i < 4 && !(i == i1 || i == i2) ==> #[trigger] corner(tl, tr, bl, br, i) == dark,
        luma_spec(bright) > luma_spec(dark),
        fg_bg_spec(tl, tr, bl, br, fg, bg),
    ensures
        fg == bright,
        bg == dark,
{
    let (a, b, c, d) = choose|a: int, b: int, c: int, d: int|
        #![trigger corner(tl, tr, bl, br, a), corner(tl, tr, bl, br, b), corner(tl, tr, bl, br, c), corner(tl, tr, bl, br, d)]
        is_luma_order(tl, tr, bl, br, a, b, c, d)
        && bg == avg_spec(corner(tl, tr, bl, br, a), corner(tl, tr, bl, br, b))
        && fg == avg_spec(corner(tl, tr, bl, br, c), corner(tl, tr, bl, br, d));
    let ca = corner(tl, tr, bl, br, a);
    let cb = corner(tl, tr, bl, br, b);
    let cc = corner(tl, tr, bl, br, c);
    let cd = corner(tl, tr, bl, br, d);
    assert(c == i1 || c == i2) by {
        if !(c == i1 || c == i2) {
            assert(cc == dark);
            assert(luma_spec(ca) <= luma_spec(dark));
            assert(luma_spec(cb) <= luma_spec(dark));
            assert(!(a == i1 || a == i2));
            assert(!(b == i1 || b == i2));
        }
    }
    assert(d == i1 || d == i2) by {
        if !(d == i1 || d == i2) {
            assert(cd == dark);
            assert(luma_spec(cc) <= luma_spec(dark));
        }
    }
    assert(cc == bright && cd == bright);
    assert(!(a == i1 || a == i2));
    assert(!(b == i1 || b == i2));
    assert(ca == dark && cb == dark);
}

/// The pixel of the frame under virtual sub-pixel column `tx`, row `ty`
/// of a `w` by `h` cell area (two columns and four rows per cell).
pub open spec fn subpixel(frame: BrowserFrame, w: int, h: int, tx: int, ty: int) -> Rgb {
    let fw = frame.size.x as int;
    let fh = frame.size.y as int;
    pixel_at(frame.pixels@, fw, source_coord(tx, fw, w * 2), source_coord(ty, fh, h * 4))
}

/// A drawn cell follows the picture under it: its corners are the pixels
/// under its top-left (2cx, 4cy), top-right (2cx+1, 4cy), bottom-left
/// (2cx, 4cy+2) and bottom-right (2cx+1, 4cy+2) sub-pixels. So a cell whose
/// top is brighter than its bottom is drawn as the upper half block, one
/// whose bottom is brighter as the lower half block, one whose left is
/// brighter as the left half block, one whose right is brighter as the
/// right half block, and one of a single brightness as a blank; in each
/// such two-colour cell the foreground is the brighter half's colour and
/// the background the darker half's.
pub proof fn lemma_cell_follows_picture(
    frame: BrowserFrame,
    true_color: bool,
    w: int,
    h: int,
    cx: int,
    cy: int,
    cell: QuadrantCell,
)
    requires
        cell_spec(frame, true_color, w, h, cx, cy, cell),
    ensures
        ({
            let tl = subpixel(frame, w, h, 2 * cx, 4 * cy);
            let tr = subpixel(frame, w, h, 2 * cx + 1, 4 * cy);
            let bl = subpixel(frame, w, h, 2 * cx, 4 * cy + 2);
            let br = subpixel(frame, w, h, 2 * cx + 1, 4 * cy + 2);
            &&& (tl == tr && bl == br && luma_spec(tl) > luma_spec(bl)) ==> cell.ch == '\u{2580}'
            &&& (tl == tr && bl == br && luma_spec(tl) < luma_spec(bl)) ==> cell.ch == '\u{2584}'
            &&& (tl == bl && tr == br && luma_spec(tl) > luma_spec(tr)) ==> cell.ch == '\u{258c}'
            &&& (tl == bl && tr == br && luma_spec(tl) < luma_spec(tr)) ==> cell.ch == '\u{2590}'
            &&& (luma_spec(tl) == luma_spec(tr) && luma_spec(tl) == luma_spec(bl) && luma_spec(tl)
                == luma_spec(br)) ==> cell.ch == ' '
            &&& (tl == tr && bl == br && luma_spec(tl) > luma_spec(bl)) ==> cell.fg == terminal_color_spec(tl, true_color)
                && cell.bg == terminal_color_spec(bl, true_color)
            &&& (tl == tr && bl == br && luma_spec(tl) < luma_spec(bl)) ==> cell.fg == terminal_color_spec(bl, true_color)
                && cell.bg == terminal_color_spec(tl, true_color)
            &&& (tl == bl && tr == br && luma_spec(tl) > luma_spec(tr)) ==> cell.fg == terminal_color_spec(tl, true_color)
                && cell.bg == terminal_color_spec(tr, true_color)
            &&& (tl == bl && tr == br && luma_spec(tl) < luma_spec(tr)) ==> cell.fg == terminal_color_spec(tr, true_color)
                && cell.bg == terminal_color_spec(tl, true_color)
        }),
{
    let tl = subpixel(frame, w, h, 2 * cx, 4 * cy);
    let tr = subpixel(frame, w, h, 2 * cx + 1, 4 * cy);
    let bl = subpixel(frame, w, h, 2 * cx, 4 * cy + 2);
    let br = subpixel(frame, w, h, 2 * cx + 1, 4 * cy + 2);
    assert(cell_corners(frame, w, h, cx, cy) == (tl, tr, bl, br));
    assert(QUADRANT@[12] == '\u{2580}');
    assert(QUADRANT@[3] == '\u{2584}');
    assert(QUADRANT@[10] == '\u{258c}');
    assert(QUADRANT@[5] == '\u{2590}');
    assert(QUADRANT@[0] == ' ');
    let (fg, bg) = choose|fg: Rgb, bg: Rgb|
        fg_bg_spec(tl, tr, bl, br, fg, bg) && cell.fg == terminal_color_spec(fg, true_color)
            && cell.bg == terminal_color_spec(bg, true_color);
    if tl == tr && bl == br && luma_spec(tl) > luma_spec(bl) {
        lemma_two_tone_colours(tl, tr, bl, br, 0, 1, tl, bl, fg, bg);
    }
    if tl == tr && bl == br && luma_spec(tl) < luma_spec(bl) {
        lemma_two_tone_colours(tl, tr, bl, br, 2, 3, bl, tl, fg, bg);
    }
    if tl == bl && tr == br && luma_spec(tl) > luma_spec(tr) {
        lemma_two_tone_colours(tl, tr, bl, br, 0, 2, tl, tr, fg, bg);
    }
    if tl == bl && tr == br && luma_spec(tl) < luma_spec(tr) {
        lemma_two_tone_colours(tl, tr, bl, br, 1, 3, tr, tl, fg, bg);
    }
}

} // verus!
