use std::collections::HashSet;

use carboxyl::color::TerminalColor;
use carboxyl::layout::Rect;
use carboxyl::overlay::{place_runs, sample_cell_bg, truncate_to_available, TextRun};

fn run(text: &str, col: u16, row: u16) -> TextRun {
    TextRun { text: text.to_string(), col, row, fg: TerminalColor::Rgb(255, 255, 255), bg_sample: Some((0, 0, 0)) }
}

fn key(x: u32, y: u32) -> u32 {
    y * 65536 + x
}

#[test]
fn truncates_at_width() {
    let taken = HashSet::new();
    assert_eq!(truncate_to_available("hello", 0, 0, 3, &taken), "hel");
    assert_eq!(truncate_to_available("hi", 0, 0, 3, &taken), "hi");
    assert_eq!(truncate_to_available("日本", 0, 0, 3, &taken), "日");
}

#[test]
fn truncates_at_first_taken_cell() {
    let mut taken = HashSet::new();
    taken.insert(key(7, 2));
    assert_eq!(truncate_to_available("abcdef", 5, 2, 10, &taken), "ab");
    assert_eq!(truncate_to_available("abcdef", 7, 2, 10, &taken), "");
    assert_eq!(truncate_to_available("abcdef", 5, 3, 10, &taken), "abcdef");
}

#[test]
fn earlier_runs_win() {
    let area = Rect::new(10, 5, 20, 4);
    let runs = vec![run("first", 2, 1), run("second", 0, 1), run("third", 0, 2)];
    let placed = place_runs(&runs, area, true);
    assert_eq!(placed.len(), 3);
    assert_eq!((placed[0].x, placed[0].y, placed[0].text.as_str()), (12, 6, "first"));
    assert_eq!((placed[1].x, placed[1].y, placed[1].text.as_str()), (10, 6, "se"));
    assert_eq!((placed[2].x, placed[2].y, placed[2].text.as_str()), (10, 7, "third"));
}

#[test]
fn runs_outside_the_area_or_fully_covered_are_dropped() {
    let area = Rect::new(0, 0, 5, 2);
    let runs = vec![run("abc", 0, 0), run("zz", 0, 0), run("x", 5, 0), run("y", 0, 2), run("wxyz12", 3, 1)];
    let placed = place_runs(&runs, area, false);
    assert_eq!(placed.len(), 2);
    assert_eq!(placed[0].text, "abc");
    assert_eq!(placed[1].text, "wx");
}

#[test]
fn placed_runs_get_sampled_background_and_contrast() {
    let area = Rect::new(0, 0, 10, 1);
    let mut r = run("a", 0, 0);
    r.fg = TerminalColor::Rgb(0, 0, 0);
    r.bg_sample = Some((0, 0, 0));
    let mut unsampled = run("b", 5, 0);
    unsampled.bg_sample = None;
    let placed = place_runs(&vec![r, unsampled], area, true);
    assert_eq!(placed[0].bg, TerminalColor::Rgb(0, 0, 0));
    assert_eq!(placed[0].fg, TerminalColor::White);
    assert_eq!(placed[1].bg, TerminalColor::Reset);
}

#[test]
fn samples_clamped_centre_pixel() {
    // 2x2 RGBA frame
    let px: Vec<u8> = vec![1, 2, 3, 255, 4, 5, 6, 255, 7, 8, 9, 255, 10, 11, 12, 255];
    assert_eq!(sample_cell_bg(&px, 2, 2, 0, 0), Some((1, 2, 3)));
    assert_eq!(sample_cell_bg(&px, 2, 2, 1, 1), Some((10, 11, 12)));
    assert_eq!(sample_cell_bg(&px, 2, 2, 99, 0), Some((4, 5, 6)));
    assert_eq!(sample_cell_bg(&px[..8], 2, 2, 0, 1), None);
}

#[test]
fn a_wide_character_needs_every_cell_it_covers() {
    let mut taken = HashSet::new();
    taken.insert(key(1, 0));
    assert_eq!(truncate_to_available("世", 0, 0, 5, &taken), "");
    assert_eq!(truncate_to_available("a世", 0, 0, 5, &taken), "a");
    assert_eq!(truncate_to_available("世", 2, 0, 5, &taken), "世");
    assert_eq!(truncate_to_available("x世", 3, 0, 5, &taken), "x世");
}

#[test]
fn a_wide_character_never_overlaps_an_earlier_run() {
    let area = Rect::new(0, 0, 10, 1);
    let runs = vec![run("ab", 3, 0), run("世界", 2, 0), run("日", 1, 0), run("中", 5, 0)];
    let placed = place_runs(&runs, area, true);
    assert_eq!(placed.len(), 3);
    assert_eq!((placed[0].x, placed[0].text.as_str()), (3, "ab"));
    assert_eq!((placed[1].x, placed[1].text.as_str()), (1, "日"));
    assert_eq!((placed[2].x, placed[2].text.as_str()), (5, "中"));
}

#[test]
fn text_stops_at_the_last_column() {
    let taken = HashSet::new();
    assert_eq!(truncate_to_available("a", 65000, 0, 1000, &taken), "a");
    assert_eq!(truncate_to_available("ab", 65535, 3, 1000, &taken), "a");
    assert_eq!(truncate_to_available("世x", 65534, 3, 1000, &taken), "世");
    assert_eq!(truncate_to_available("世", 65535, 3, 1000, &taken), "");
}
