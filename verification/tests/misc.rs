use std::collections::HashSet;
use std::time::Duration;

use carboxyl::browser_widget::{avg, fg_bg, quadrant_char, sample, BrowserFrame, BrowserWidget, Extent};
use carboxyl::cli::{Cli, LevelFilter};
use carboxyl::color::TerminalColor;
use carboxyl::nav_widget::col_to_byte_offset;
use carboxyl::overlay::truncate_to_available;
use carboxyl::timing::{RenderConfig, TimingState};
use carboxyl::text::{byte_len, len_utf8, split_at_boundary, str_eq};

#[test]
fn log_level_follows_verbosity() {
    let cli = |v: u8| Cli { url: None, fps: 60, scale: 100, verbosity: v };
    assert_eq!(cli(0).log_level(), LevelFilter::Error);
    assert_eq!(cli(1).log_level(), LevelFilter::Warn);
    assert_eq!(cli(2).log_level(), LevelFilter::Info);
    assert_eq!(cli(3).log_level(), LevelFilter::Debug);
    assert_eq!(cli(9).log_level(), LevelFilter::Trace);
}

#[test]
fn frame_budget_from_fps() {
    assert_eq!(RenderConfig::new(true, 60).frame_budget, Duration::from_millis(16));
    assert_eq!(RenderConfig::new(false, 0).frame_budget, Duration::from_millis(1000));
    assert_eq!(RenderConfig::new(false, 1000).frame_budget, Duration::from_millis(1));
    assert!(RenderConfig::new(true, 5).true_color);
}

#[test]
fn timing_starts_due() {
    let budget = Duration::from_millis(50);
    let mut t = TimingState::new(budget);
    assert!(t.draw_due(budget));
    assert!(t.paint_cmd_due(budget));
    assert!(t.extract_due());
    t.mark_drawn();
    assert!(!t.draw_due(Duration::from_secs(3600)));
    assert!(t.draw_due(Duration::ZERO));
    t.mark_paint_cmd();
    assert!(t.paint_cmd_due(Duration::ZERO));
    assert_eq!(t.last_draw.checked_sub(Duration::ZERO), Some(t.last_draw));
    t.mark_extracted();
    assert!(!t.extract_due());
    t.invalidate_extract();
    assert!(t.extract_due());
    assert!(TimingState::due(&Duration::from_millis(5), &Duration::from_millis(5)));
    assert!(!TimingState::due(&Duration::from_millis(4), &Duration::from_millis(5)));
}

#[test]
fn quadrant_glyph_marks_bright_corners() {
    let w = (255, 255, 255);
    let b = (0, 0, 0);
    assert_eq!(quadrant_char(w, b, b, b), '▘');
    assert_eq!(quadrant_char(w, w, b, b), '▀');
    assert_eq!(quadrant_char(b, b, b, b), ' ');
    assert_eq!(quadrant_char(b, w, w, w), '▟');
    let (fg, bg) = fg_bg(w, b, b, b);
    assert_eq!(fg, (127, 127, 127));
    assert_eq!(bg, b);
    assert_eq!(avg((10, 20, 30), (20, 40, 61)), (15, 30, 45));
}

#[test]
fn sampling_picks_nearest_pixel() {
    // 2x1 frame: red then blue, stretched over 4x1 virtual pixels
    let px = vec![255, 0, 0, 255, 0, 0, 255, 255];
    assert_eq!(sample(&px, 2, 1, 4, 1, 0, 0), (255, 0, 0));
    assert_eq!(sample(&px, 2, 1, 4, 1, 3, 0), (0, 0, 255));
}

#[test]
fn widget_cells_cover_area() {
    let frame = BrowserFrame { pixels: vec![255; 16], size: Extent { x: 2, y: 2 } };
    let w = BrowserWidget::new(&frame, true);
    let cells = w.cells(3, 2);
    assert_eq!(cells.len(), 6);
    assert_eq!(cells[0].ch, ' ');
    assert_eq!(cells[5].bg, TerminalColor::Rgb(255, 255, 255));
    let empty = BrowserFrame { pixels: vec![], size: Extent { x: 0, y: 0 } };
    assert!(BrowserWidget::new(&empty, false).cells(3, 2).is_empty());
}

#[test]
fn text_helpers() {
    assert_eq!(len_utf8('é'), 2);
    assert_eq!(byte_len("hé"), 3);
    assert_eq!(split_at_boundary("hé!", 3), ("hé", "!"));
    assert_eq!(carboxyl::text::concat("ab", "c"), "abc");
    assert!(str_eq("x", "x"));
    assert!(!str_eq("x", "y"));
}

#[test]
fn widths_come_from_unicode_width() {
    // wide characters take two columns
    assert_eq!(col_to_byte_offset("日本x", 2), 3);
    assert_eq!(truncate_to_available("ab日c", 0, 0, 4, &HashSet::new()), "ab日");
    // control characters take none
    assert_eq!(col_to_byte_offset("\u{7}ab", 1), 2);
}
