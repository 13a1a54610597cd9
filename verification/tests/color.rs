use carboxyl::color::{ensure_contrast, full_luma_of, luma, rgb_of, to_terminal_color, TerminalColor};

#[test]
fn true_color_keeps_rgb() {
    assert_eq!(to_terminal_color((12, 34, 56), true), TerminalColor::Rgb(12, 34, 56));
}

#[test]
fn palette_uses_the_colour_cube() {
    assert_eq!(to_terminal_color((0, 0, 0), false), TerminalColor::Indexed(16));
    assert_eq!(to_terminal_color((255, 0, 0), false), TerminalColor::Indexed(196));
    assert_eq!(to_terminal_color((255, 255, 255), false), TerminalColor::Indexed(231));
    assert_eq!(to_terminal_color((43, 86, 129), false), TerminalColor::Indexed(16 + 6 + 2));
    assert_eq!(to_terminal_color((100, 100, 100), false), TerminalColor::Indexed(59));
    assert_eq!(to_terminal_color((114, 115, 235), false), TerminalColor::Indexed(16 + 36 + 12 + 5));
}

#[test]
fn named_colours_decompose_to_ansi_values() {
    assert_eq!(rgb_of(TerminalColor::Red), (170, 0, 0));
    assert_eq!(rgb_of(TerminalColor::LightCyan), (85, 255, 255));
    assert_eq!(rgb_of(TerminalColor::Rgb(1, 2, 3)), (1, 2, 3));
    assert_eq!(rgb_of(TerminalColor::Reset), (128, 128, 128));
    assert_eq!(rgb_of(TerminalColor::Indexed(200)), (255, 0, 215));
    assert_eq!(rgb_of(TerminalColor::Indexed(16)), (0, 0, 0));
    assert_eq!(rgb_of(TerminalColor::Indexed(231)), (255, 255, 255));
    assert_eq!(rgb_of(TerminalColor::Indexed(59)), (95, 95, 95));
    assert_eq!(rgb_of(TerminalColor::Indexed(3)), (128, 128, 128));
    assert_eq!(rgb_of(TerminalColor::Indexed(240)), (128, 128, 128));
}

#[test]
fn luma_of_white_and_black() {
    assert_eq!(full_luma_of((255, 255, 255)), 65_280);
    assert_eq!(luma((255, 255, 255)), 255);
    assert_eq!(luma((0, 0, 0)), 0);
    assert_eq!(full_luma_of((1, 1, 1)), 256);
}

#[test]
fn contrast_keeps_readable_foreground() {
    let fg = TerminalColor::Rgb(255, 255, 255);
    assert_eq!(ensure_contrast(fg, TerminalColor::Black), fg);
}

#[test]
fn contrast_falls_back_to_black_or_white() {
    assert_eq!(
        ensure_contrast(TerminalColor::Rgb(0, 0, 0), TerminalColor::Rgb(0, 0, 0)),
        TerminalColor::White
    );
    assert_eq!(
        ensure_contrast(TerminalColor::Rgb(250, 250, 250), TerminalColor::Rgb(255, 255, 255)),
        TerminalColor::Black
    );
    assert_eq!(ensure_contrast(TerminalColor::Reset, TerminalColor::Reset), TerminalColor::Black);
}
