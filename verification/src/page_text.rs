//! Reading the page text that the extraction script reports: an array of
//! objects with the text `t`, the box `x`, `y`, `w`, `h` (viewport-relative
//! CSS pixels) and the CSS colour `c`.

use vstd::prelude::*;

use crate::color::TerminalColor;
use crate::css::{css_color_spec, parse_css_color, trim, trim_chars};
use crate::text::{chars_of, str_eq, string_of};

verus! {

/// A number as the checks on a text box read it: its sign once narrowed to
/// a 32-bit float (`-0.0` counts as zero), or not a number.
#[derive(Clone, Copy, Debug, PartialEq, Eq, Structural)]
pub enum NumberSign {
    Negative,
    Zero,
    Positive,
    NotANumber,
}

/// A JavaScript value handed back by the engine. Of a number only its sign
/// is kept (see `NumberSign`); the embedder keeps the number itself.
#[derive(Debug)]
pub enum JsValue {
    Undefined,
    Null,
    Boolean(bool),
    Number(NumberSign),
    String(String),
    /// A reference to a DOM element, window, frame or shadow root.
    Handle,
    Array(Vec<JsValue>),
    /// The properties of an object, each key once.
    Object(Vec<(String, JsValue)>),
}

/// The value stored under `key` (the first entry with that key).
pub open spec fn field(entries: Seq<(String, JsValue)>, key: Seq<char>) -> Option<JsValue>
    decreases entries.len(),
{
    if entries.len() == 0 {
        None
    } else if entries[0].0@ == key {
        Some(entries[0].1)
    } else {
        field(entries.drop_first(), key)
    }
}

/// The string stored under `key`, if a string is stored there.
pub open spec fn string_field(entries: Seq<(String, JsValue)>, key: Seq<char>) -> Option<Seq<char>> {
    match field(entries, key) {
        Some(JsValue::String(s)) => Some(s@),
        _ => None,
    }
}

/// The number stored under `key`, if a number is stored there.
pub open spec fn number_field(entries: Seq<(String, JsValue)>, key: Seq<char>) -> Option<NumberSign> {
    match field(entries, key) {
        Some(JsValue::Number(n)) => Some(n),
        _ => None,
    }
}

/// `n <= 0.0` does not hold (NaN compares false).
pub open spec fn above_zero(n: NumberSign) -> bool {
    n != NumberSign::Negative && n != NumberSign::Zero
}

/// The colour a CSS colour field names, or the terminal's default where
/// there is none or it cannot be read.
pub open spec fn text_color(c: Option<Seq<char>>) -> TerminalColor {
    match c {
        Some(s) => match css_color_spec(s) {
            Some((r, g, b)) => TerminalColor::Rgb(r, g, b),
            None => TerminalColor::Reset,
        },
        None => TerminalColor::Reset,
    }
}

/// The text and colour an item gives: it must be an object with a string
/// `t` that is not blank once trimmed, and numbers `x`, `y`, `w`, `h`, with
/// `w` and `h` above zero, `y` not negative and, where `check_x`, `x` not
/// negative.
pub open spec fn node_spec(item: JsValue, check_x: bool) -> Option<(Seq<char>, TerminalColor)> {
    match item {
        JsValue::Object(m) => {
            let e = m@;
            match (
                string_field(e, seq!['t']),
                number_field(e, seq!['x']),
                number_field(e, seq!['y']),
                number_field(e, seq!['w']),
                number_field(e, seq!['h']),
            ) {
                (Some(t), Some(x), Some(y), Some(w), Some(h)) => {
                    if trim(t).len() > 0 && above_zero(w) && above_zero(h) && y
                        != NumberSign::Negative && (!check_x || x != NumberSign::Negative) {
                        Some((trim(t), text_color(string_field(e, seq!['c']))))
                    } else {
                        None
                    }
                },
                _ => None,
            }
        },
        _ => None,
    }
}

/// The nodes the first `n` items give, in order, each with its item's
/// index.
pub open spec fn nodes_upto(items: Seq<JsValue>, n: int, check_x: bool) -> Seq<
    (int, Seq<char>, TerminalColor),
>
    decreases n,
{
    if n <= 0 {
        Seq::empty()
    } else {
        nodes_upto(items, n - 1, check_x) + match node_spec(items[n - 1], check_x) {
            Some((t, c)) => seq![(n - 1, t, c)],
            None => Seq::empty(),
        }
    }
}

/// The nodes a script result gives: those of its items where it is an
/// array, none otherwise.
pub open spec fn nodes_spec(value: JsValue, check_x: bool) -> Seq<(int, Seq<char>, TerminalColor)> {
    match value {
        JsValue::Array(items) => nodes_upto(items@, items@.len() as int, check_x),
        _ => Seq::empty(),
    }
}

/// One visible piece of page text: the index of the item it came from (its
/// box is that item's), the trimmed text and its colour.
pub struct TextNode {
    pub item: usize,
    pub text: String,
    pub color: TerminalColor,
}

impl TextNode {
    pub open spec fn view_of(self) -> (int, Seq<char>, TerminalColor) {
        (self.item as int, self.text@, self.color)
    }
}

proof fn lemma_field_skip(entries: Seq<(String, JsValue)>, key: Seq<char>, i: int)
    requires
        0 <= i <= entries.len(),
        forall|j: int| 0 <= j < i ==> (#[trigger] entries[j]).0@ != key,
    ensures
        field(entries, key) == field(entries.skip(i), key),
    decreases i,
{
    if i == 0 {
        assert(entries.skip(0) =~= entries);
    } else {
        assert(entries[0].0@ != key);
        let rest = entries.drop_first();
        assert forall|j: int| 0 <= j < i - 1 implies (#[trigger] rest[j]).0@ != key by {
            assert(rest[j] == entries[j + 1]);
        }
        lemma_field_skip(rest, key, i - 1);
        assert(rest.skip(i - 1) =~= entries.skip(i));
    }
}

/// The value stored under `key`; see `field`.
fn find_field<'a>(entries: &'a Vec<(String, JsValue)>, key: &str) -> (r: Option<&'a JsValue>)
    ensures
        match r {
            Some(v) => field(entries@, key@) == Some(*v),
            None => field(entries@, key@) is None,
        },
{
    let mut i: usize = 0;
    while i < entries.len()
        invariant
            i <= entries@.len(),
            forall|j: int| 0 <= j < i ==> (#[trigger] entries@[j]).0@ != key@,
        decreases entries@.len() - i,
    {
        if str_eq(entries[i].0.as_str(), key) {
            proof {
                lemma_field_skip(entries@, key@, i as int);
            }
            return Some(&entries[i].1);
        }
        i = i + 1;
    }
    proof {
        lemma_field_skip(entries@, key@, i as int);
    }
    None
}

/// The string stored under `key`; see `string_field`.
fn find_string<'a>(entries: &'a Vec<(String, JsValue)>, key: &str) -> (r: Option<&'a str>)
    ensures
        match r {
            Some(s) => string_field(entries@, key@) == Some(s@),
            None => string_field(entries@, key@) is None,
        },
{
    match find_field(entries, key) {
        Some(JsValue::String(s)) => Some(s.as_str()),
        _ => None,
    }
}

/// The number stored under `key`; see `number_field`.
fn find_number(entries: &Vec<(String, JsValue)>, key: &str) -> (r: Option<NumberSign>)
    ensures
        r == number_field(entries@, key@),
{
    match find_field(entries, key) {
        Some(JsValue::Number(n)) => Some(*n),
        _ => None,
    }
}

/// The text and colour of one item; see `node_spec`.
fn read_node(item: &JsValue, check_x: bool) -> (r: Option<(String, TerminalColor)>)
    ensures
        match r {
            Some((t, c)) => node_spec(*item, check_x) == Some((t@, c)),
            None => node_spec(*item, check_x) is None,
        },
{
    proof {
        reveal_strlit("t");
        reveal_strlit("x");
        reveal_strlit("y");
        reveal_strlit("w");
        reveal_strlit("h");
        reveal_strlit("c");
        assert("t"@ =~= seq!['t']);
        assert("x"@ =~= seq!['x']);
        assert("y"@ =~= seq!['y']);
        assert("w"@ =~= seq!['w']);
        assert("h"@ =~= seq!['h']);
        assert("c"@ =~= seq!['c']);
    }
    let m = match item {
        JsValue::Object(m) => m,
        _ => return None,
    };
    let t = match find_string(m, "t") {
        Some(t) => t,
        None => return None,
    };
    let x = match find_number(m, "x") {
        Some(n) => n,
        None => return None,
    };
    let y = match find_number(m, "y") {
        Some(n) => n,
        None => return None,
    };
    let w = match find_number(m, "w") {
        Some(n) => n,
        None => return None,
    };
    let h = match find_number(m, "h") {
        Some(n) => n,
        None => return None,
    };
    let trimmed = trim_chars(&chars_of(t));
    if trimmed.len() == 0 {
        return None;
    }
    let w_ok = !(w == NumberSign::Negative || w == NumberSign::Zero);
    let h_ok = !(h == NumberSign::Negative || h == NumberSign::Zero);
    if !w_ok || !h_ok || y == NumberSign::Negative || (check_x && x == NumberSign::Negative) {
        return None;
    }
    let color = match find_string(m, "c") {
        Some(c) => match parse_css_color(c) {
            Some((r, g, b)) => TerminalColor::Rgb(r, g, b),
            None => TerminalColor::Reset,
        },
        None => TerminalColor::Reset,
    };
    let text = string_of(&trimmed, 0, trimmed.len());
    assert(trimmed@.subrange(0, trimmed@.len() as int) =~= trimmed@);
    Some((text, color))
}

/// The text nodes of a script result, in order; see `nodes_spec`. Where
/// `check_x`, boxes starting left of the viewport are dropped too.
pub(crate) fn read_text_nodes(value: &JsValue, check_x: bool) -> (out: Vec<TextNode>)
    ensures
        out@.map_values(|n: TextNode| n.view_of()) == nodes_spec(*value, check_x),
{
    let mut out: Vec<TextNode> = Vec::new();
    let items = match value {
        JsValue::Array(items) => items,
        _ => {
            assert(out@.map_values(|n: TextNode| n.view_of()) =~= Seq::empty());
            return out;
        },
    };
    let mut i: usize = 0;
    assert(out@.map_values(|n: TextNode| n.view_of()) =~= nodes_upto(items@, 0, check_x));
    while i < items.len()
        invariant
            i <= items@.len(),
            out@.map_values(|n: TextNode| n.view_of()) == nodes_upto(items@, i as int, check_x),
        decreases items@.len() - i,
    {
        let ghost before = out@.map_values(|n: TextNode| n.view_of());
        match read_node(&items[i], check_x) {
            Some((text, color)) => {
                out.push(TextNode { item: i, text, color });
                assert(out@.map_values(|n: TextNode| n.view_of()) =~= before + seq![
                    (i as int, text@, color),
                ]);
            },
            None => {},
        }
        assert(nodes_upto(items@, i + 1, check_x) == nodes_upto(items@, i as int, check_x) + match node_spec(items@[i as int], check_x) {
            Some((t, c)) => seq![(i as int, t, c)],
            None => Seq::<(int, Seq<char>, TerminalColor)>::empty(),
        });
        i = i + 1;
    }
    out
}

/// The text nodes of the extraction script's result, in order: one per
/// item that is an object with a non-blank text and a box that is not
/// empty and does not start above or left of the viewport; see
/// `nodes_spec`.
pub fn parse_js_nodes(value: &JsValue) -> (out: Vec<TextNode>)
    ensures
        out@.map_values(|n: TextNode| n.view_of()) == nodes_spec(*value, true),
{
    read_text_nodes(value, true)
}

} // verus!
