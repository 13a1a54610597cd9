use carboxyl::gfx::{Color, Point, Rect, Size};
use carboxyl::keys::{Key, Modifiers};
use carboxyl::nav_widget::NavAction;
use carboxyl::renderer::Renderer;

fn bgra(r: u8, g: u8, b: u8) -> [u8; 4] {
    [b, g, r, 255]
}

#[test]
fn draw_background_scales_full_framebuffer_into_viewport() {
    let mut renderer = Renderer::new();
    renderer.set_size(Size::new(2, 1));

    let mut pixels = Vec::new();
    for _y in 0..4 {
        for x in 0..8 {
            let color = if x < 4 { bgra(255, 0, 0) } else { bgra(0, 0, 255) };
            pixels.extend_from_slice(&color);
        }
    }

    renderer.draw_background(&pixels, Size::new(8, 4), Rect::new(0, 0, 8, 4));

    let left = &renderer.cells[2].1;
    let right = &renderer.cells[3].1;
    let red = Color::new(255, 0, 0);
    let blue = Color::new(0, 0, 255);

    assert_eq!(left.quadrant, (red, red, red, red));
    assert_eq!(right.quadrant, (blue, blue, blue, blue));
}

#[test]
fn set_size_lays_out_cells_row_major_with_nav_row() {
    let mut renderer = Renderer::new();
    renderer.set_size(Size::new(3, 2));
    assert_eq!(renderer.get_size(), Size::new(3, 2));
    assert_eq!(renderer.cells.len(), 9);
    assert_eq!(renderer.cells[4].1.cursor, (1, 1));
    assert_eq!(renderer.cells[8].0.cursor, (2, 2));
}

#[test]
fn render_reports_each_change_once() {
    let mut renderer = Renderer::new();
    renderer.set_size(Size::new(2, 1));
    let red = Color::new(255, 0, 0);
    renderer.fill_rect(Rect::new(0, 1, 2, 1), red);
    let first = renderer.render();
    assert_eq!(first.len(), 2);
    assert_eq!(first[0].quadrant, (red, red, red, red));
    let second = renderer.render();
    assert!(second.is_empty());
}

#[test]
fn fill_rect_leaves_other_cells_alone() {
    let mut renderer = Renderer::new();
    renderer.set_size(Size::new(2, 1));
    let before = renderer.cells[0].1.quadrant;
    let green = Color::new(0, 255, 0);
    renderer.fill_rect(Rect::new(1, 1, 1, 1), green);
    assert_eq!(renderer.cells[0].1.quadrant, before);
    assert_eq!(renderer.cells[2].1.quadrant, before);
    assert_eq!(renderer.cells[3].1.quadrant, (green, green, green, green));
}

#[test]
fn draw_background_ignores_empty_frame() {
    let mut renderer = Renderer::new();
    renderer.set_size(Size::new(2, 1));
    let before = renderer.cells[2].1.quadrant;
    renderer.draw_background(&[], Size::new(0, 0), Rect::new(0, 0, 0, 0));
    assert_eq!(renderer.cells[2].1.quadrant, before);
}

#[test]
fn draw_text_then_clear_text_drops_graphemes() {
    let mut renderer = Renderer::new();
    renderer.set_size(Size::new(4, 2));
    renderer.draw_text("hi", Point::new(0, 2), Size::splat(0), Color::new(1, 2, 3));
    assert!(renderer.cells.iter().any(|c| c.1.grapheme.is_some()));
    renderer.clear_text();
    assert!(renderer.cells.iter().all(|c| c.1.grapheme.is_none()));
}

#[test]
fn mouse_move_goes_to_page_below_the_bar() {
    let mut renderer = Renderer::new();
    assert!(matches!(renderer.mouse_move(Point::new(3, 0)), NavAction::Ignore));
    assert!(matches!(renderer.mouse_move(Point::new(3, 4)), NavAction::Forward));
}

#[test]
fn keypress_unfocused_goes_to_page() {
    let mut renderer = Renderer::new();
    let action = renderer.keypress(&Key::Character("a".to_string()), Modifiers::empty());
    assert!(matches!(action, NavAction::Forward));
}

#[test]
fn push_nav_shows_the_new_url() {
    let mut renderer = Renderer::new();
    renderer.push_nav("https://example.com/", true, false);
    assert_eq!(renderer.nav.displayed_url(), "https://example.com/");
    assert!(renderer.nav.nav.can_go_back());
    assert!(!renderer.nav.nav.can_go_forward());
}

#[test]
fn enable_true_color_sets_the_mode() {
    let mut renderer = Renderer::new();
    assert!(!renderer.true_color);
    renderer.enable_true_color();
    assert!(renderer.true_color);
}

#[test]
fn draw_background_with_a_wrapping_dirty_rect_changes_nothing() {
    let mut renderer = Renderer::new();
    renderer.set_size(Size::new(2, 1));
    let pixels = vec![255u8; 8 * 4 * 4];
    let before: Vec<_> = renderer.cells.iter().map(|c| c.1.quadrant).collect();
    renderer.draw_background(&pixels, Size::new(8, 4), Rect::new(0, 0, u32::MAX, 4));
    renderer.draw_background(&pixels, Size::new(8, 4), Rect::new(i32::MAX, 0, 8, 4));
    renderer.draw_background(&[], Size::new(0, 0), Rect::new(0, 0, u32::MAX, u32::MAX));
    let after: Vec<_> = renderer.cells.iter().map(|c| c.1.quadrant).collect();
    assert_eq!(before, after);
}

#[test]
fn set_size_with_no_width_leaves_no_cells() {
    let mut renderer = Renderer::new();
    renderer.set_size(Size::new(3, 2));
    renderer.set_size(Size::new(0, 5));
    assert_eq!(renderer.get_size(), Size::new(0, 5));
    assert!(renderer.cells.is_empty());
    assert!(renderer.render().is_empty());
}
