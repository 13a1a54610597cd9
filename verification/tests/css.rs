use carboxyl::css::{is_whitespace, parse_css_color, parse_u8_chars, trim_chars};

#[test]
fn reads_rgb_and_rgba() {
    assert_eq!(parse_css_color("rgb(1, 2, 3)"), Some((1, 2, 3)));
    assert_eq!(parse_css_color("  rgba(255,128,0, 0)\n"), Some((255, 128, 0)));
    assert_eq!(parse_css_color("rgb(+7,08, 9 )"), Some((7, 8, 9)));
}

#[test]
fn refuses_other_forms() {
    assert_eq!(parse_css_color("rgb(256, 0, 0)"), None);
    assert_eq!(parse_css_color("rgb(1, 2)"), None);
    assert_eq!(parse_css_color("rgb(1, 2, 3"), None);
    assert_eq!(parse_css_color("hsl(1, 2, 3)"), None);
    assert_eq!(parse_css_color("rgb(-1, 2, 3)"), None);
    assert_eq!(parse_css_color("rgb(1, , 3)"), None);
    assert_eq!(parse_css_color("#ffffff"), None);
    assert_eq!(parse_css_color(""), None);
}

#[test]
fn alpha_and_extra_fields_are_ignored() {
    assert_eq!(parse_css_color("rgba(4, 5, 6, 0.5, junk)"), Some((4, 5, 6)));
}

#[test]
fn byte_parsing_follows_from_str() {
    for s in ["0", "255", "+1", "007", "256", "", "+", "-0", "1a", " 1"] {
        let cs: Vec<char> = s.chars().collect();
        assert_eq!(parse_u8_chars(&cs), s.parse::<u8>().ok(), "{}", s);
    }
}

#[test]
fn trimming_follows_str_trim() {
    for s in ["  a b  ", "\u{3000}x\u{85}", "", "   ", "q"] {
        let cs: Vec<char> = s.chars().collect();
        let t: String = trim_chars(&cs).into_iter().collect();
        assert_eq!(t, s.trim());
    }
}

#[test]
fn whitespace_matches_char_is_whitespace() {
    for c in ['\t', '\n', ' ', '\u{a0}', '\u{2009}', '\u{3000}', 'a', '\u{200b}', '\u{feff}'] {
        assert_eq!(is_whitespace(c), c.is_whitespace(), "{:?}", c);
    }
}

#[test]
fn rgb_notation_reads_back() {
    for (r, g, b) in [(0u8, 0u8, 0u8), (255, 255, 255), (7, 42, 199), (10, 100, 9)] {
        let text = format!("rgb({}, {}, {})", r, g, b);
        assert_eq!(parse_css_color(&text), Some((r, g, b)), "{}", text);
    }
}
