//! Reading the CSS colours the page reports for text: `rgb(r, g, b)` and
//! `rgba(r, g, b, a)`, with the alpha ignored.

use vstd::prelude::*;

use crate::text::chars_of;

verus! {

/// `char::is_whitespace`: the characters with the Unicode `White_Space`
/// property.
pub open spec fn is_white_space(c: char) -> bool {
    let v = c as u32;
    ||| (0x9 <= v && v <= 0xd)
    ||| v == 0x20
    ||| v == 0x85
    ||| v == 0xa0
    ||| v == 0x1680
    ||| (0x2000 <= v && v <= 0x200a)
    ||| v == 0x2028
    ||| v == 0x2029
    ||| v == 0x202f
    ||| v == 0x205f
    ||| v == 0x3000
}

/// `s` without its leading white space.
pub open spec fn trim_start(s: Seq<char>) -> Seq<char>
    decreases s.len(),
{
    if s.len() > 0 && is_white_space(s[0]) {
        trim_start(s.drop_first())
    } else {
        s
    }
}

/// `s` without its trailing white space.
pub open spec fn trim_end(s: Seq<char>) -> Seq<char>
    decreases s.len(),
{
    if s.len() > 0 && is_white_space(s.last()) {
        trim_end(s.drop_last())
    } else {
        s
    }
}

/// `str::trim`: `s` without leading and trailing white space.
pub open spec fn trim(s: Seq<char>) -> Seq<char> {
    trim_end(trim_start(s))
}

pub open spec fn is_digit(c: char) -> bool {
    '0' <= c && c <= '9'
}

/// The value of a string of decimal digits.
pub open spec fn digits_value(s: Seq<char>) -> int
    decreases s.len(),
{
    if s.len() == 0 {
        0
    } else {
        digits_value(s.drop_last()) * 10 + (s.last() as int - '0' as int)
    }
}

/// The part of `s` after an optional leading `+`.
pub open spec fn unsigned_digits(s: Seq<char>) -> Seq<char> {
    if s.len() > 0 && s[0] == '+' {
        s.skip(1)
    } else {
        s
    }
}

pub open spec fn all_digits(d: Seq<char>) -> bool {
    forall|i: int| 0 <= i < d.len() ==> #[trigger] is_digit(d[i])
}

/// `u8::from_str`: an optional `+` followed by at least one decimal digit,
/// whose value fits in a byte.
pub open spec fn parse_u8_spec(s: Seq<char>) -> Option<u8> {
    let d = unsigned_digits(s);
    if d.len() > 0 && all_digits(d) && digits_value(d) <= 255 {
        Some(digits_value(d) as u8)
    } else {
        None
    }
}

/// Index of the first comma of `s` at or after `i` (`s.len()` if none).
pub open spec fn next_comma(s: Seq<char>, i: int) -> int
    decreases s.len() - i,
{
    if i >= s.len() {
        s.len() as int
    } else if s[i] == ',' {
        i
    } else {
        next_comma(s, i + 1)
    }
}

/// What is left of `t` inside `rgba(` or `rgb(` and the closing `)`.
pub open spec fn color_body(t: Seq<char>) -> Option<Seq<char>> {
    let inner = if t.len() >= 5 && t.take(5) == seq!['r', 'g', 'b', 'a', '('] {
        Some(t.skip(5))
    } else if t.len() >= 4 && t.take(4) == seq!['r', 'g', 'b', '('] {
        Some(t.skip(4))
    } else {
        None
    };
    match inner {
        Some(i) => if i.len() > 0 && i.last() == ')' {
            Some(i.drop_last())
        } else {
            None
        },
        None => None,
    }
}

/// The colour `s` names: the first three comma-separated fields of the
/// body, each trimmed and read as a byte; further fields are ignored.
pub open spec fn css_color_spec(s: Seq<char>) -> Option<(u8, u8, u8)> {
    match color_body(trim(s)) {
        None => None,
        Some(b) => {
            let e0 = next_comma(b, 0);
            let e1 = next_comma(b, e0 + 1);
            let e2 = next_comma(b, e1 + 1);
            if e0 < b.len() && e1 < b.len() {
                match (
                    parse_u8_spec(trim(b.subrange(0, e0))),
                    parse_u8_spec(trim(b.subrange(e0 + 1, e1))),
                    parse_u8_spec(trim(b.subrange(e1 + 1, e2))),
                ) {
                    (Some(r), Some(g), Some(bl)) => Some((r, g, bl)),
                    _ => None,
                }
            } else {
                None
            }
        },
    }
}

proof fn lemma_next_comma_bounds(s: Seq<char>, i: int)
    requires
        0 <= i,
    ensures
        i <= next_comma(s, i) || (i > s.len() && next_comma(s, i) == s.len()),
        next_comma(s, i) <= s.len(),
        next_comma(s, i) < s.len() ==> s[next_comma(s, i)] == ',',
        forall|j: int| i <= j < next_comma(s, i) ==> s[j] != ',',
    decreases s.len() - i,
{
    if i < s.len() && s[i] != ',' {
        lemma_next_comma_bounds(s, i + 1);
    }
}

proof fn lemma_digits_value_nonneg(s: Seq<char>)
    requires
        forall|i: int| 0 <= i < s.len() ==> #[trigger] is_digit(s[i]),
    ensures
        digits_value(s) >= 0,
    decreases s.len(),
{
    if s.len() > 0 {
        assert(is_digit(s[s.len() - 1]));
        lemma_digits_value_nonneg(s.drop_last());
    }
}

/// Appending digits never lowers the value.
proof fn lemma_digits_value_prefix(s: Seq<char>, k: int)
    requires
        0 <= k <= s.len(),
        forall|i: int| 0 <= i < s.len() ==> #[trigger] is_digit(s[i]),
    ensures
        digits_value(s.take(k)) <= digits_value(s),
    decreases s.len() - k,
{
    if k < s.len() {
        lemma_digits_value_prefix(s, k + 1);
        let t = s.take(k + 1);
        assert(t.drop_last() =~= s.take(k));
        assert(is_digit(t.last()));
        assert forall|i: int| 0 <= i < k implies #[trigger] is_digit(s.take(k)[i]) by {
            assert(is_digit(s[i]));
        }
        lemma_digits_value_nonneg(s.take(k));
    } else {
        assert(s.take(k) =~= s);
    }
}

/// Copy of `cs[lo..hi]`.
fn sub_chars(cs: &Vec<char>, lo: usize, hi: usize) -> (v: Vec<char>)
    requires
        lo <= hi <= cs@.len(),
    ensures
        v@ == cs@.subrange(lo as int, hi as int),
{
    let mut v: Vec<char> = Vec::new();
    let mut i = lo;
    while i < hi
        invariant
            lo <= i <= hi <= cs@.len(),
            v@ == cs@.subrange(lo as int, i as int),
        decreases hi - i,
    {
        v.push(cs[i]);
        assert(v@ =~= cs@.subrange(lo as int, i + 1));
        i = i + 1;
    }
    v
}

/// `char::is_whitespace`.
pub fn is_whitespace(c: char) -> (b: bool)
    ensures
        b == is_white_space(c),
{
    let v = c as u32;
    (0x9 <= v && v <= 0xd) || v == 0x20 || v == 0x85 || v == 0xa0 || v == 0x1680 || (0x2000
        <= v && v <= 0x200a) || v == 0x2028 || v == 0x2029 || v == 0x202f || v == 0x205f || v
        == 0x3000
}

/// `cs` without leading and trailing white space.
pub fn trim_chars(cs: &Vec<char>) -> (t: Vec<char>)
    ensures
        t@ == trim(cs@),
{
    let n = cs.len();
    let mut a: usize = 0;
    assert(cs@.subrange(0, n as int) =~= cs@);
    while a < n && is_whitespace(cs[a])
        invariant
            a <= n == cs@.len(),
            trim_start(cs@) == trim_start(cs@.subrange(a as int, n as int)),
        decreases n - a,
    {
        assert(cs@.subrange(a as int, n as int).drop_first() =~= cs@.subrange(a + 1, n as int));
        a = a + 1;
    }
    let ghost front = cs@.subrange(a as int, n as int);
    assert(trim_start(cs@) == front);
    let mut b: usize = n;
    while b > a && is_whitespace(cs[b - 1])
        invariant
            a <= b <= n == cs@.len(),
            front == cs@.subrange(a as int, n as int),
            trim_end(front) == trim_end(cs@.subrange(a as int, b as int)),
        decreases b - a,
    {
        assert(cs@.subrange(a as int, b as int).drop_last() =~= cs@.subrange(a as int, b - 1));
        b = b - 1;
    }
    sub_chars(cs, a, b)
}

/// `u8::from_str` on the characters `cs`.
pub fn parse_u8_chars(cs: &Vec<char>) -> (r: Option<u8>)
    ensures
        r == parse_u8_spec(cs@),
{
    let n = cs.len();
    let start: usize = if n > 0 && cs[0] == '+' { 1 } else { 0 };
    let ghost d = cs@.skip(start as int);
    proof {
        if start == 0 {
            assert(d =~= cs@);
        }
        assert(d == unsigned_digits(cs@));
    }
    if start >= n {
        return None;
    }
    let mut acc: u32 = 0;
    let mut i = start;
    while i < n
        invariant
            start <= i <= n == cs@.len(),
            start < n,
            d == cs@.skip(start as int),
            d == unsigned_digits(cs@),
            forall|j: int| 0 <= j < i - start ==> #[trigger] is_digit(d[j]),
            acc == digits_value(d.take(i - start)),
            acc <= 255,
        decreases n - i,
    {
        let c = cs[i];
        if !('0' <= c && c <= '9') {
            assert(!is_digit(d[i - start]));
            assert(!all_digits(d));
            return None;
        }
        proof {
            assert(d.take(i - start + 1).drop_last() =~= d.take(i - start));
            assert(d.take(i - start + 1).last() == c);
        }
        acc = acc * 10 + (c as u32 - '0' as u32);
        if acc > 255 {
            proof {
                if all_digits(d) {
                    lemma_digits_value_prefix(d, i - start + 1);
                }
            }
            return None;
        }
        i = i + 1;
    }
    assert(d.take(n - start) =~= d);
    assert(all_digits(d));
    Some(acc as u8)
}

/// Index of the first comma of `cs` at or after `i`.
fn find_comma(cs: &Vec<char>, i: usize) -> (j: usize)
    requires
        i <= cs@.len(),
    ensures
        j == next_comma(cs@, i as int),
{
    let mut j = i;
    while j < cs.len() && cs[j] != ','
        invariant
            i <= j <= cs@.len(),
            next_comma(cs@, i as int) == next_comma(cs@, j as int),
        decreases cs@.len() - j,
    {
        j = j + 1;
    }
    j
}

/// Read a CSS `rgb(r, g, b)` or `rgba(r, g, b, a)` colour; the alpha, and
/// anything after it, is ignored.
pub fn parse_css_color(s: &str) -> (r: Option<(u8, u8, u8)>)
    ensures
        r == css_color_spec(s@),
{
    let all = chars_of(s);
    let t = trim_chars(&all);
    let n = t.len();
    let skip: usize = if n >= 5 && t[0] == 'r' && t[1] == 'g' && t[2] == 'b' && t[3] == 'a' && t[4]
        == '(' {
        assert(t@.take(5) =~= seq!['r', 'g', 'b', 'a', '(']);
        5
    } else if n >= 4 && t[0] == 'r' && t[1] == 'g' && t[2] == 'b' && t[3] == '(' {
        assert(t@.take(4) =~= seq!['r', 'g', 'b', '(']);
        proof {
            if t@.len() >= 5 && t@.take(5) == seq!['r', 'g', 'b', 'a', '('] {
                assert(t@.take(5)[3] == t@[3]);
            }
        }
        4
    } else {
        proof {
            if t@.len() >= 5 && t@.take(5) == seq!['r', 'g', 'b', 'a', '('] {
                assert(t@.take(5)[4] == t@[4]);
                assert(t@.take(5)[3] == t@[3]);
                assert(t@.take(5)[2] == t@[2]);
                assert(t@.take(5)[1] == t@[1]);
                assert(t@.take(5)[0] == t@[0]);
            }
            if t@.len() >= 4 && t@.take(4) == seq!['r', 'g', 'b', '('] {
                assert(t@.take(4)[3] == t@[3]);
                assert(t@.take(4)[2] == t@[2]);
                assert(t@.take(4)[1] == t@[1]);
                assert(t@.take(4)[0] == t@[0]);
            }
        }
        return None;
    };
    if n <= skip || t[n - 1] != ')' {
        return None;
    }
    let body = sub_chars(&t, skip, n - 1);
    let ghost b = body@;
    proof {
        assert(t@.skip(skip as int).drop_last() =~= b);
        assert(color_body(t@) == Some(b));
    }
    let m = body.len();
    let e0 = find_comma(&body, 0);
    if e0 >= m {
        return None;
    }
    let e1 = find_comma(&body, e0 + 1);
    if e1 >= m {
        return None;
    }
    let e2 = find_comma(&body, e1 + 1);
    proof {
        lemma_next_comma_bounds(b, 0);
        lemma_next_comma_bounds(b, e0 + 1);
        lemma_next_comma_bounds(b, e1 + 1);
    }
    let p0 = trim_chars(&sub_chars(&body, 0, e0));
    let p1 = trim_chars(&sub_chars(&body, e0 + 1, e1));
    let p2 = trim_chars(&sub_chars(&body, e1 + 1, e2));
    let r = parse_u8_chars(&p0);
    let g = parse_u8_chars(&p1);
    let bl = parse_u8_chars(&p2);
    match (r, g, bl) {
        (Some(r), Some(g), Some(bl)) => Some((r, g, bl)),
        _ => None,
    }
}

/// The decimal digits of `n`, without leading zeros.
pub open spec fn decimal(n: nat) -> Seq<char>
    decreases n,
{
    if n < 10 {
        seq![(('0' as int) + n) as char]
    } else {
        decimal(n / 10) + seq![(('0' as int) + (n % 10)) as char]
    }
}

/// The colour written in CSS `rgb()` notation, as computed styles give it:
/// `rgb(r, g, b)`.
pub open spec fn rgb_text(r: u8, g: u8, b: u8) -> Seq<char> {
    seq!['r', 'g', 'b', '('] + decimal(r as nat) + seq![',', ' '] + decimal(g as nat) + seq![',', ' ']
        + decimal(b as nat) + seq![')']
}

proof fn lemma_decimal(n: nat)
    ensures
        decimal(n).len() >= 1,
        all_digits(decimal(n)),
        digits_value(decimal(n)) == n,
    decreases n,
{
    let d = decimal(n);
    if n < 10 {
        let c = (('0' as int) + n) as char;
        assert(d == seq![c]);
        assert(c as int == '0' as int + n);
        assert(d.drop_last() =~= Seq::<char>::empty());
        assert(is_digit(d[0]));
        assert(digits_value(d) == digits_value(d.drop_last()) * 10 + (d.last() as int - '0' as int));
    } else {
        lemma_decimal(n / 10);
        let t = decimal(n / 10);
        let c = (('0' as int) + (n % 10)) as char;
        assert(d == t + seq![c]);
        assert(c as int == '0' as int + n % 10);
        assert(d.drop_last() =~= t);
        assert(d.last() == c);
        assert(digits_value(d) == digits_value(d.drop_last()) * 10 + (d.last() as int - '0' as int));
        assert(n == (n / 10) * 10 + n % 10) by (nonlinear_arith);
        assert forall|i: int| 0 <= i < d.len() implies #[trigger] is_digit(d[i]) by {
            if i < t.len() {
                assert(d[i] == t[i]);
                assert(is_digit(t[i]));
            }
        }
    }
}

/// A sequence that starts and ends with no white space is its own trim.
proof fn lemma_trim_plain(s: Seq<char>)
    requires
        s.len() > 0,
        !is_white_space(s[0]),
        !is_white_space(s.last()),
    ensures
        trim(s) == s,
{
}

proof fn lemma_digits_not_space(d: Seq<char>, i: int)
    requires
        all_digits(d),
        0 <= i < d.len(),
    ensures
        !is_white_space(d[i]),
        d[i] != ',',
        d[i] != '+',
{
    assert(is_digit(d[i]));
}

/// One leading space comes off in trimming a number.
proof fn lemma_trim_spaced_number(n: nat)
    ensures
        trim(seq![' '] + decimal(n)) == decimal(n),
{
    let d = decimal(n);
    lemma_decimal(n);
    lemma_digits_not_space(d, 0);
    lemma_digits_not_space(d, d.len() - 1);
    let s = seq![' '] + d;
    assert(s.drop_first() =~= d);
    assert(trim_start(s) == trim_start(d));
    lemma_trim_plain(d);
}

/// A number reads back as itself.
proof fn lemma_parse_decimal(n: u8)
    ensures
        parse_u8_spec(decimal(n as nat)) == Some(n),
{
    let d = decimal(n as nat);
    lemma_decimal(n as nat);
    lemma_digits_not_space(d, 0);
    assert(unsigned_digits(d) == d);
}

/// The first comma at or after `i` is at `k` when there is one there and
/// none before it.
proof fn lemma_next_comma_at(s: Seq<char>, i: int, k: int)
    requires
        0 <= i <= k <= s.len(),
        k < s.len() ==> s[k] == ',',
        forall|j: int| i <= j < k ==> s[j] != ',',
    ensures
        next_comma(s, i) == k,
    decreases k - i,
{
    if i < k {
        lemma_next_comma_at(s, i + 1, k);
    }
}

/// Reading back what `rgb()` notation writes gives the colour.
pub proof fn lemma_rgb_text_reads_back(r: u8, g: u8, b: u8)
    ensures
        css_color_spec(rgb_text(r, g, b)) == Some((r, g, b)),
{
    let dr = decimal(r as nat);
    let dg = decimal(g as nat);
    let db = decimal(b as nat);
    lemma_decimal(r as nat);
    lemma_decimal(g as nat);
    lemma_decimal(b as nat);
    let sep = seq![',', ' '];
    let text = rgb_text(r, g, b);
    let body = dr + sep + dg + sep + db;
    assert(text =~= seq!['r', 'g', 'b', '('] + body + seq![')']);
    lemma_trim_plain(text);
    assert(text.take(4) =~= seq!['r', 'g', 'b', '(']);
    if text.len() >= 5 && text.take(5) == seq!['r', 'g', 'b', 'a', '('] {
        assert(text.take(5)[3] == text[3]);
    }
    assert(text.skip(4).drop_last() =~= body);
    assert(color_body(trim(text)) == Some(body));

    let e0 = dr.len() as int;
    let e1 = e0 + 2 + dg.len();
    assert forall|j: int| 0 <= j < e0 implies body[j] != ',' by {
        lemma_digits_not_space(dr, j);
    }
    lemma_next_comma_at(body, 0, e0);
    assert forall|j: int| e0 + 1 <= j < e1 implies body[j] != ',' by {
        if j > e0 + 1 {
            lemma_digits_not_space(dg, j - e0 - 2);
        }
    }
    lemma_next_comma_at(body, e0 + 1, e1);
    assert forall|j: int| e1 + 1 <= j < body.len() implies body[j] != ',' by {
        if j > e1 + 1 {
            lemma_digits_not_space(db, j - e1 - 2);
        }
    }
    lemma_next_comma_at(body, e1 + 1, body.len() as int);

    assert(body.subrange(0, e0) =~= dr);
    assert(body.subrange(e0 + 1, e1) =~= seq![' '] + dg);
    assert(body.subrange(e1 + 1, body.len() as int) =~= seq![' '] + db);
    lemma_digits_not_space(dr, 0);
    lemma_digits_not_space(dr, dr.len() - 1);
    lemma_trim_plain(dr);
    lemma_trim_spaced_number(g as nat);
    lemma_trim_spaced_number(b as nat);
    lemma_parse_decimal(r);
    lemma_parse_decimal(g);
    lemma_parse_decimal(b);
}

} // verus!
