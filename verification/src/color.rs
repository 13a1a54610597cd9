//! Shared terminal colour utilities: BT.601 luma in fixed point and the
//! xterm 6x6x6 colour cube.

use vstd::prelude::*;

verus! {

/// BT.601 luma coefficient for red, scaled by 256 (0.299 * 256 rounded).
pub const LUMA_R: u32 = 77;

/// BT.601 luma coefficient for green, scaled by 256 (0.587 * 256 rounded).
pub const LUMA_G: u32 = 150;

/// BT.601 luma coefficient for blue, scaled by 256 (0.114 * 256 rounded).
pub const LUMA_B: u32 = 29;

/// Right shift that undoes the 256 fixed-point scale.
pub const LUMA_SHIFT: u32 = 8;

/// Luma of white on the pre-shift scale: 255 * 256.
pub const MAX_LUMA: u32 = 255 * (LUMA_R + LUMA_G + LUMA_B);

/// First palette index of the colour cube (0..16 are the named colours).
pub const CUBE_BASE: u8 = 16;

/// Intensity steps per channel in the cube.
pub const CUBE_STEPS: u8 = 6;

/// Stride of the red channel within the cube.
pub const CUBE_RED_STRIDE: u8 = CUBE_STEPS * CUBE_STEPS;

/// Minimum luma difference (pre-shift scale) for acceptable contrast.
pub const MIN_CONTRAST: u32 = 6_000;

/// Threshold for the black-versus-white fallback: half of `MAX_LUMA`.
pub const MID_LUMA: u32 = MAX_LUMA / 2;

/// A terminal colour: the sixteen named ANSI colours, a 256-colour palette
/// index, a 24-bit value, or the terminal's default.
#[derive(Clone, Copy, Debug, PartialEq, Eq, Structural)]
pub enum TerminalColor {
    Reset,
    Black,
    Red,
    Green,
    Yellow,
    Blue,
    Magenta,
    Cyan,
    Gray,
    DarkGray,
    LightRed,
    LightGreen,
    LightYellow,
    LightBlue,
    LightMagenta,
    LightCyan,
    White,
    Rgb(u8, u8, u8),
    Indexed(u8),
}

/// The channel intensity of cube level `l` (0..=5) in the xterm palette.
pub open spec fn cube_value(l: int) -> int {
    if l <= 0 {
        0
    } else if l == 1 {
        95
    } else if l == 2 {
        135
    } else if l == 3 {
        175
    } else if l == 4 {
        215
    } else {
        255
    }
}

/// The cube level (0..=5) whose intensity is nearest to an 8-bit channel
/// value; a value halfway between two levels takes the brighter one.
pub open spec fn cube_level(v: u8) -> int {
    if v < 48 {
        0
    } else if v < 115 {
        1
    } else if v < 155 {
        2
    } else if v < 195 {
        3
    } else if v < 235 {
        4
    } else {
        5
    }
}

pub open spec fn distance(a: int, b: int) -> int {
    if a < b { b - a } else { a - b }
}

/// No cube level is nearer to a channel value than the one it is given.
pub proof fn lemma_cube_level_nearest(v: u8, l: int)
    requires
        0 <= l <= 5,
    ensures
        distance(v as int, cube_value(cube_level(v))) <= distance(v as int, cube_value(l)),
{
}

/// The palette index of the cube entry for an RGB triple.
pub open spec fn cube_index(r: u8, g: u8, b: u8) -> int {
    16 + 36 * cube_level(r) + 6 * cube_level(g) + cube_level(b)
}

/// What `to_terminal_color` returns.
pub open spec fn terminal_color_spec(rgb: (u8, u8, u8), true_color: bool) -> TerminalColor {
    if true_color {
        TerminalColor::Rgb(rgb.0, rgb.1, rgb.2)
    } else {
        TerminalColor::Indexed(cube_index(rgb.0, rgb.1, rgb.2) as u8)
    }
}

fn cube_channel(v: u8) -> (q: u8)
    ensures
        q == cube_level(v),
{
    if v < 48 {
        0
    } else if v < 115 {
        1
    } else if v < 155 {
        2
    } else if v < 195 {
        3
    } else if v < 235 {
        4
    } else {
        5
    }
}

fn cube_intensity(l: u8) -> (v: u8)
    requires
        l <= 5,
    ensures
        v == cube_value(l as int),
{
    if l == 0 {
        0
    } else if l == 1 {
        95
    } else if l == 2 {
        135
    } else if l == 3 {
        175
    } else if l == 4 {
        215
    } else {
        255
    }
}

/// Convert an 8-bit RGB triple to a terminal colour: the triple itself when
/// the terminal has 24-bit colour, otherwise the nearest entry of the xterm
/// 6x6x6 cube (channel by channel).
pub fn to_terminal_color(rgb: (u8, u8, u8), true_color: bool) -> (c: TerminalColor)
    ensures
        c == terminal_color_spec(rgb, true_color),
{
    let (r, g, b) = rgb;
    if true_color {
        TerminalColor::Rgb(r, g, b)
    } else {
        let qr = cube_channel(r);
        let qg = cube_channel(g);
        let qb = cube_channel(b);
        TerminalColor::Indexed(CUBE_BASE + qr * CUBE_RED_STRIDE + qg * CUBE_STEPS + qb)
    }
}

/// Without true colour, every converted colour is a cube entry (16..=231),
/// and the entry's three levels give back each channel's level.
pub proof fn lemma_cube_index_in_palette(r: u8, g: u8, b: u8)
    ensures
        16 <= cube_index(r, g, b) <= 231,
        (cube_index(r, g, b) - 16) / 36 == cube_level(r),
        ((cube_index(r, g, b) - 16) % 36) / 6 == cube_level(g),
        (cube_index(r, g, b) - 16) % 6 == cube_level(b),
{
}

/// The RGB value of a cube entry (palette index 16..=231).
pub open spec fn cube_rgb(i: u8) -> (u8, u8, u8) {
    let k = i - 16;
    (cube_value(k / 36) as u8, cube_value((k % 36) / 6) as u8, cube_value(k % 6) as u8)
}

/// The conventional RGB value of each named colour and of each cube entry;
/// other palette indices and the default colour count as mid grey.
pub open spec fn rgb_of_spec(c: TerminalColor) -> (u8, u8, u8) {
    match c {
        TerminalColor::Rgb(r, g, b) => (r, g, b),
        TerminalColor::Black => (0, 0, 0),
        TerminalColor::Red => (170, 0, 0),
        TerminalColor::Green => (0, 170, 0),
        TerminalColor::Yellow => (170, 85, 0),
        TerminalColor::Blue => (0, 0, 170),
        TerminalColor::Magenta => (170, 0, 170),
        TerminalColor::Cyan => (0, 170, 170),
        TerminalColor::Gray => (170, 170, 170),
        TerminalColor::DarkGray => (85, 85, 85),
        TerminalColor::LightRed => (255, 85, 85),
        TerminalColor::LightGreen => (85, 255, 85),
        TerminalColor::LightYellow => (255, 255, 85),
        TerminalColor::LightBlue => (85, 85, 255),
        TerminalColor::LightMagenta => (255, 85, 255),
        TerminalColor::LightCyan => (85, 255, 255),
        TerminalColor::White => (255, 255, 255),
        TerminalColor::Indexed(i) => if 16 <= i <= 231 {
            cube_rgb(i)
        } else {
            (128, 128, 128)
        },
        TerminalColor::Reset => (128, 128, 128),
    }
}

/// Decompose a terminal colour into an RGB triple.
pub fn rgb_of(color: TerminalColor) -> (rgb: (u8, u8, u8))
    ensures
        rgb == rgb_of_spec(color),
{
    match color {
        TerminalColor::Rgb(r, g, b) => (r, g, b),
        TerminalColor::Black => (0, 0, 0),
        TerminalColor::Red => (170, 0, 0),
        TerminalColor::Green => (0, 170, 0),
        TerminalColor::Yellow => (170, 85, 0),
        TerminalColor::Blue => (0, 0, 170),
        TerminalColor::Magenta => (170, 0, 170),
        TerminalColor::Cyan => (0, 170, 170),
        TerminalColor::Gray => (170, 170, 170),
        TerminalColor::DarkGray => (85, 85, 85),
        TerminalColor::LightRed => (255, 85, 85),
        TerminalColor::LightGreen => (85, 255, 85),
        TerminalColor::LightYellow => (255, 255, 85),
        TerminalColor::LightBlue => (85, 85, 255),
        TerminalColor::LightMagenta => (255, 85, 255),
        TerminalColor::LightCyan => (85, 255, 255),
        TerminalColor::White => (255, 255, 255),
        TerminalColor::Indexed(i) => {
            if 16 <= i && i <= 231 {
                let k = i - 16;
                (cube_intensity(k / 36), cube_intensity((k % 36) / 6), cube_intensity(k % 6))
            } else {
                (128, 128, 128)
            }
        },
        TerminalColor::Reset => (128, 128, 128),
    }
}

/// Luma of an RGB triple on the pre-shift scale (0..=MAX_LUMA).
pub open spec fn full_luma(rgb: (u8, u8, u8)) -> int {
    77 * rgb.0 + 150 * rgb.1 + 29 * rgb.2
}

/// Luma of an RGB triple in the 0..=255 range.
pub open spec fn luma_spec(rgb: (u8, u8, u8)) -> int {
    full_luma(rgb) / 256
}

/// Pre-shift luma of an RGB triple.
pub fn full_luma_of(rgb: (u8, u8, u8)) -> (l: u32)
    ensures
        l == full_luma(rgb),
        l <= MAX_LUMA,
{
    let (r, g, b) = rgb;
    r as u32 * LUMA_R + g as u32 * LUMA_G + b as u32 * LUMA_B
}

/// BT.601 luma in the 0..=255 range.
pub fn luma(rgb: (u8, u8, u8)) -> (l: u16)
    ensures
        l == luma_spec(rgb),
        l <= 255,
{
    let full = full_luma_of(rgb);
    assert(full >> 8 == full / 256) by (bit_vector);
    (full >> LUMA_SHIFT) as u16
}

/// Absolute difference of two pre-shift lumas.
pub open spec fn luma_distance(a: TerminalColor, b: TerminalColor) -> int {
    let d = full_luma(rgb_of_spec(a)) - full_luma(rgb_of_spec(b));
    if d < 0 { -d } else { d }
}

/// What `ensure_contrast` returns.
pub open spec fn ensure_contrast_spec(fg: TerminalColor, bg: TerminalColor) -> TerminalColor {
    if luma_distance(fg, bg) >= MIN_CONTRAST {
        fg
    } else if full_luma(rgb_of_spec(bg)) > MID_LUMA {
        TerminalColor::Black
    } else {
        TerminalColor::White
    }
}

/// Keep `fg` when it stands out enough from `bg`, else fall back to black or
/// white depending on how bright the background is.
pub fn ensure_contrast(fg: TerminalColor, bg: TerminalColor) -> (c: TerminalColor)
    ensures
        c == ensure_contrast_spec(fg, bg),
{
    let fg_luma = full_luma_of(rgb_of(fg));
    let bg_luma = full_luma_of(rgb_of(bg));
    let diff = if fg_luma >= bg_luma { fg_luma - bg_luma } else { bg_luma - fg_luma };
    if diff >= MIN_CONTRAST {
        return fg;
    }
    if bg_luma > MID_LUMA {
        TerminalColor::Black
    } else {
        TerminalColor::White
    }
}

/// Whatever the colours, the text colour chosen by `ensure_contrast` stands
/// at least `MIN_CONTRAST` away from the background.
pub proof fn lemma_contrast_always_sufficient(fg: TerminalColor, bg: TerminalColor)
    ensures
        luma_distance(ensure_contrast_spec(fg, bg), bg) >= MIN_CONTRAST,
{
}

} // verus!
