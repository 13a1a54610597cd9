//! Display widths of characters and strings in terminal columns, as the
//! `unicode-width` crate computes them.

use vstd::prelude::*;

verus! {

/// The column width `unicode_width` gives a character (`None` for control
/// characters).
pub uninterp spec fn char_width_of(c: char) -> Option<usize>;

/// The column width `unicode_width` gives a string.
pub uninterp spec fn str_width_of(s: Seq<char>) -> usize;

/// A character is printable ASCII (U+0020 to U+007E).
pub open spec fn is_printable_ascii(c: char) -> bool {
    0x20 <= (c as u32) && (c as u32) < 0x7f
}

/// `UnicodeWidthChar::width`. The crate's source answers 1 for printable
/// ASCII, `None` for the C0 and C1 control ranges, and a table width of at
/// most 3 for every other character; which width a character above U+00A0
/// has is left to the name `char_width_of`.
#[verifier::external_body]
pub(crate) fn char_width(c: char) -> (w: Option<usize>)
    ensures
        w == char_width_of(c),
        is_printable_ascii(c) ==> w == Some(1usize),
        ((c as u32) < 0x20 || (0x7f <= (c as u32) && (c as u32) < 0xa0)) ==> w.is_none(),
        (c as u32) >= 0xa0 ==> w.is_some(),
        w matches Some(n) ==> n <= 3,
{
    unicode_width::UnicodeWidthChar::width(c)
}

/// `UnicodeWidthStr::width`. In the crate's source a string of printable
/// ASCII is as wide as it is long; ligature and emoji rules for other
/// strings are left to the name `str_width_of`.
#[verifier::external_body]
pub(crate) fn str_width(s: &str) -> (w: usize)
    ensures
        w == str_width_of(s@),
        (forall|i: int| 0 <= i < s@.len() ==> #[trigger] is_printable_ascii(s@[i])) ==> w == s@.len(),
{
    unicode_width::UnicodeWidthStr::width(s)
}

/// Width of a character as the navigation bar counts it: control
/// characters count zero.
pub open spec fn col_width(c: char) -> int {
    match char_width_of(c) {
        Some(n) => n as int,
        None => 0,
    }
}

/// The extended grapheme clusters `unicode_segmentation` splits a string
/// into.
pub uninterp spec fn graphemes_of(s: Seq<char>) -> Seq<Seq<char>>;

/// `UnicodeSegmentation::graphemes(s, true)`: the extended grapheme
/// clusters of `s`, in order. Where the cluster boundaries fall is left to
/// the name `graphemes_of`.
#[verifier::external_body]
pub(crate) fn graphemes<'a>(s: &'a str) -> (g: Vec<&'a str>)
    ensures
        g@.map_values(|x: &str| x@) == graphemes_of(s@),
{
    unicode_segmentation::UnicodeSegmentation::graphemes(s, true).collect()
}

} // verus!
