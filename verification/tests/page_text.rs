use carboxyl::color::TerminalColor;
use carboxyl::overlay;
use carboxyl::page_text::{parse_js_nodes, JsValue, NumberSign, TextNode};

use NumberSign::{Negative, NotANumber, Positive, Zero};

fn item(t: &str, x: NumberSign, y: NumberSign, w: NumberSign, h: NumberSign, c: Option<&str>) -> JsValue {
    let mut entries = vec![
        ("t".to_string(), JsValue::String(t.to_string())),
        ("x".to_string(), JsValue::Number(x)),
        ("y".to_string(), JsValue::Number(y)),
        ("w".to_string(), JsValue::Number(w)),
        ("h".to_string(), JsValue::Number(h)),
    ];
    if let Some(c) = c {
        entries.push(("c".to_string(), JsValue::String(c.to_string())));
    }
    JsValue::Object(entries)
}

fn seen(nodes: &[TextNode]) -> Vec<(usize, &str, TerminalColor)> {
    nodes.iter().map(|n| (n.item, n.text.as_str(), n.color)).collect()
}

#[test]
fn a_result_that_is_not_an_array_gives_nothing() {
    assert!(parse_js_nodes(&JsValue::Null).is_empty());
    assert!(parse_js_nodes(&JsValue::String("x".to_string())).is_empty());
    assert!(overlay::parse_js_nodes(&JsValue::Object(vec![])).is_empty());
}

#[test]
fn items_are_filtered_trimmed_and_coloured() {
    let items = JsValue::Array(vec![
        item("  Hello ", Positive, Zero, Positive, Positive, Some("rgba(10, 20, 30, 0)")),
        JsValue::Number(Positive),
        item("   ", Positive, Positive, Positive, Positive, None),
        item("flat", Positive, Positive, Zero, Positive, None),
        item("above", Positive, Negative, Positive, Positive, None),
        item("odd", Zero, Positive, NotANumber, Positive, Some("blue")),
        item("plain", Zero, Positive, Positive, Positive, None),
        JsValue::Object(vec![
            ("t".to_string(), JsValue::String("no box".to_string())),
            ("x".to_string(), JsValue::Number(Positive)),
        ]),
        JsValue::Object(vec![
            ("t".to_string(), JsValue::String("text x".to_string())),
            ("x".to_string(), JsValue::String("1".to_string())),
            ("y".to_string(), JsValue::Number(Positive)),
            ("w".to_string(), JsValue::Number(Positive)),
            ("h".to_string(), JsValue::Number(Positive)),
        ]),
    ]);
    let nodes = parse_js_nodes(&items);
    assert_eq!(
        seen(&nodes),
        vec![
            (0, "Hello", TerminalColor::Rgb(10, 20, 30)),
            (5, "odd", TerminalColor::Reset),
            (6, "plain", TerminalColor::Reset),
        ]
    );
}

#[test]
fn only_the_servo_reader_drops_boxes_left_of_the_viewport() {
    let items = JsValue::Array(vec![
        item("left", Negative, Positive, Positive, Positive, Some("rgb(1,2,3)")),
        item("in", Positive, Positive, Positive, Positive, None),
    ]);
    assert_eq!(seen(&parse_js_nodes(&items)), vec![(1, "in", TerminalColor::Reset)]);
    assert_eq!(
        seen(&overlay::parse_js_nodes(&items)),
        vec![(0, "left", TerminalColor::Rgb(1, 2, 3)), (1, "in", TerminalColor::Reset)]
    );
}
