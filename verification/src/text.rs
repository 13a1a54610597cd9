//! UTF-8 byte offsets into text held as `str`/`String`, and the few edits
//! the address bar makes: the model is the text's `char` sequence, with
//! byte offsets given by the length of its UTF-8 encoding.

use vstd::prelude::*;
use vstd::string::*;
use vstd::utf8::*;

verus! {

broadcast use encode_utf8_decode_utf8, encode_utf8_valid_utf8;

/// Number of bytes in the UTF-8 encoding of `c`.
pub open spec fn char_len(c: char) -> int {
    encode_scalar(c as u32).len() as int
}

/// Number of bytes in the UTF-8 encoding of `s`.
pub open spec fn utf8_len(s: Seq<char>) -> int {
    encode_utf8(s).len() as int
}

/// Byte offset at which the `k`-th character of `s` starts (`utf8_len(s)`
/// for `k == s.len()`).
pub open spec fn byte_offset(s: Seq<char>, k: int) -> int {
    utf8_len(s.take(k))
}

/// How many whole characters of `s` fit in its first `c` bytes.
pub open spec fn chars_before(s: Seq<char>, c: int) -> int
    decreases s.len(),
{
    if s.len() == 0 || c < char_len(s[0]) {
        0
    } else {
        1 + chars_before(s.drop_first(), c - char_len(s[0]))
    }
}

/// `c` is a character boundary of `s`: the start of a character or the end.
pub open spec fn is_boundary(s: Seq<char>, c: int) -> bool {
    0 <= c && byte_offset(s, chars_before(s, c)) == c
}

/// `s` with its `k`-th character removed.
pub open spec fn remove_char(s: Seq<char>, k: int) -> Seq<char> {
    s.take(k) + s.skip(k + 1)
}

/// `s` with `ch` inserted before its `k`-th character.
pub open spec fn insert_char(s: Seq<char>, k: int, ch: char) -> Seq<char> {
    s.take(k) + seq![ch] + s.skip(k)
}

pub proof fn lemma_char_len_bounds(c: char)
    ensures
        1 <= char_len(c) <= 4,
        (c as u32) < 0x80 ==> char_len(c) == 1,
        0x80 <= (c as u32) < 0x800 ==> char_len(c) == 2,
        0x800 <= (c as u32) < 0x10000 ==> char_len(c) == 3,
        0x10000 <= (c as u32) ==> char_len(c) == 4,
{
    char_is_scalar(c);
}

pub proof fn lemma_encode_concat(a: Seq<char>, b: Seq<char>)
    ensures
        encode_utf8(a + b) == encode_utf8(a) + encode_utf8(b),
    decreases a.len(),
{
    if a.len() == 0 {
        assert(a + b =~= b);
        assert(encode_utf8(a) =~= Seq::<u8>::empty());
        assert(encode_utf8(a) + encode_utf8(b) =~= encode_utf8(b));
    } else {
        assert((a + b).drop_first() =~= a.drop_first() + b);
        lemma_encode_concat(a.drop_first(), b);
        assert(encode_utf8(a + b) =~= encode_utf8(a) + encode_utf8(b));
    }
}

pub proof fn lemma_utf8_len_concat(a: Seq<char>, b: Seq<char>)
    ensures
        utf8_len(a + b) == utf8_len(a) + utf8_len(b),
{
    lemma_encode_concat(a, b);
}

pub proof fn lemma_utf8_len_single(c: char)
    ensures
        utf8_len(seq![c]) == char_len(c),
{
    assert(seq![c].drop_first() =~= Seq::<char>::empty());
    assert(encode_utf8(Seq::<char>::empty()) =~= Seq::<u8>::empty());
    assert(encode_utf8(seq![c]) =~= encode_scalar(c as u32) + encode_utf8(Seq::<char>::empty()));
}

/// Offsets grow by each character's length.
pub proof fn lemma_byte_offset_step(s: Seq<char>, k: int)
    requires
        0 <= k < s.len(),
    ensures
        byte_offset(s, k + 1) == byte_offset(s, k) + char_len(s[k]),
{
    assert(s.take(k + 1) =~= s.take(k) + seq![s[k]]);
    lemma_utf8_len_concat(s.take(k), seq![s[k]]);
    lemma_utf8_len_single(s[k]);
}

pub proof fn lemma_byte_offset_zero(s: Seq<char>)
    ensures
        byte_offset(s, 0) == 0,
{
    assert(s.take(0) =~= Seq::<char>::empty());
}

pub proof fn lemma_byte_offset_full(s: Seq<char>)
    ensures
        byte_offset(s, s.len() as int) == utf8_len(s),
{
    assert(s.take(s.len() as int) =~= s);
}

/// Offsets of the characters after the first are shifted by the first's length.
pub proof fn lemma_byte_offset_tail(s: Seq<char>, k: int)
    requires
        1 <= k <= s.len(),
    ensures
        byte_offset(s, k) == char_len(s[0]) + byte_offset(s.drop_first(), k - 1),
{
    assert(s.take(k) =~= seq![s[0]] + s.drop_first().take(k - 1));
    lemma_utf8_len_concat(seq![s[0]], s.drop_first().take(k - 1));
    lemma_utf8_len_single(s[0]);
}

pub proof fn lemma_byte_offset_mono(s: Seq<char>, i: int, j: int)
    requires
        0 <= i <= j <= s.len(),
    ensures
        byte_offset(s, i) <= byte_offset(s, j),
        i < j ==> byte_offset(s, i) < byte_offset(s, j),
        byte_offset(s, j) - byte_offset(s, i) <= 4 * (j - i),
        byte_offset(s, j) - byte_offset(s, i) >= j - i,
    decreases j - i,
{
    if i < j {
        lemma_byte_offset_mono(s, i, j - 1);
        lemma_byte_offset_step(s, j - 1);
        lemma_char_len_bounds(s[j - 1]);
    }
}

/// The offset of the `k`-th character is a boundary, with `k` characters
/// before it.
pub proof fn lemma_chars_before_offset(s: Seq<char>, k: int)
    requires
        0 <= k <= s.len(),
    ensures
        chars_before(s, byte_offset(s, k)) == k,
        is_boundary(s, byte_offset(s, k)),
    decreases s.len(),
{
    if k == 0 {
        lemma_byte_offset_zero(s);
        if s.len() > 0 {
            lemma_char_len_bounds(s[0]);
        }
    } else {
        lemma_byte_offset_tail(s, k);
        lemma_chars_before_offset(s.drop_first(), k - 1);
        lemma_byte_offset_mono(s.drop_first(), 0, k - 1);
        lemma_byte_offset_zero(s.drop_first());
    }
}

/// Whatever `c`, the whole characters before it fit in `c` bytes.
pub proof fn lemma_chars_before_bounds(s: Seq<char>, c: int)
    requires
        0 <= c,
    ensures
        0 <= chars_before(s, c) <= s.len(),
        byte_offset(s, chars_before(s, c)) <= c,
        chars_before(s, c) < s.len() ==> c < byte_offset(s, chars_before(s, c) + 1),
    decreases s.len(),
{
    if s.len() == 0 {
        lemma_byte_offset_zero(s);
    } else if c < char_len(s[0]) {
        lemma_byte_offset_zero(s);
        lemma_byte_offset_step(s, 0);
    } else {
        lemma_char_len_bounds(s[0]);
        let t = s.drop_first();
        let c2 = c - char_len(s[0]);
        lemma_chars_before_bounds(t, c2);
        let k = chars_before(t, c2);
        lemma_byte_offset_tail(s, k + 1);
        if k < t.len() {
            lemma_byte_offset_tail(s, k + 2);
        }
    }
}

/// The end of the text is a boundary.
pub proof fn lemma_end_is_boundary(s: Seq<char>)
    ensures
        is_boundary(s, utf8_len(s)),
        chars_before(s, utf8_len(s)) == s.len(),
{
    lemma_byte_offset_full(s);
    lemma_chars_before_offset(s, s.len() as int);
}

/// Boundaries in this model are boundaries of the UTF-8 encoding.
pub proof fn lemma_boundary_is_char_boundary(s: Seq<char>, c: int)
    requires
        is_boundary(s, c),
    ensures
        is_char_boundary(encode_utf8(s), c),
        c <= utf8_len(s),
    decreases s.len(),
{
    let k = chars_before(s, c);
    lemma_chars_before_bounds(s, c);
    lemma_byte_offset_mono(s, k, s.len() as int);
    lemma_byte_offset_full(s);
    if c == 0 {
    } else {
        let bytes = encode_utf8(s);
        assert(s.len() > 0) by {
            if s.len() == 0 {
                lemma_byte_offset_zero(s);
            }
        }
        encode_utf8_first_scalar(s);
        assert(pop_first_scalar(bytes) =~= encode_utf8(s.drop_first()));
        lemma_char_len_bounds(s[0]);
        if k == 0 {
            lemma_byte_offset_zero(s);
        }
        lemma_byte_offset_tail(s, k);
        let t = s.drop_first();
        let c2 = c - char_len(s[0]);
        assert(chars_before(s, c) == 1 + chars_before(t, c2));
        lemma_boundary_is_char_boundary(t, c2);
    }
}

/// The byte length of a `char` in UTF-8.
pub fn len_utf8(c: char) -> (n: usize)
    ensures
        n == char_len(c),
        1 <= n <= 4,
{
    proof {
        lemma_char_len_bounds(c);
    }
    let v = c as u32;
    if v < 0x80 {
        1
    } else if v < 0x800 {
        2
    } else if v < 0x10000 {
        3
    } else {
        4
    }
}

/// Byte length of a string slice, in terms of its characters.
pub fn byte_len(s: &str) -> (n: usize)
    ensures
        n == utf8_len(s@),
{
    s.as_bytes().len()
}

/// Split `s` at a character boundary: the characters before and after it.
pub fn split_at_boundary(s: &str, c: usize) -> (res: (&str, &str))
    requires
        is_boundary(s@, c as int),
    ensures
        res.0@ == s@.take(chars_before(s@, c as int)),
        res.1@ == s@.skip(chars_before(s@, c as int)),
{
    let ghost k = chars_before(s@, c as int);
    proof {
        lemma_boundary_is_char_boundary(s@, c as int);
        lemma_chars_before_bounds(s@, c as int);
        assert(s@ =~= s@.take(k) + s@.skip(k));
        lemma_encode_concat(s@.take(k), s@.skip(k));
    }
    let (a, b) = s.split_at(c);
    proof {
        assert(encode_utf8(a@) =~= encode_utf8(s@.take(k)));
        assert(encode_utf8(b@) =~= encode_utf8(s@.skip(k)));
        assert(decode_utf8(encode_utf8(a@)) == a@);
        assert(decode_utf8(encode_utf8(b@)) == b@);
    }
    (a, b)
}

/// Whether `c` is a Unicode control character (general category Cc).
pub open spec fn is_control_spec(c: char) -> bool {
    (c as u32) < 0x20 || (0x7f <= (c as u32) && (c as u32) < 0xa0)
}

/// Whether `c` is a Unicode control character (general category Cc).
pub fn is_control(c: char) -> (b: bool)
    ensures
        b == is_control_spec(c),
{
    let v = c as u32;
    v < 0x20 || (0x7f <= v && v < 0xa0)
}

/// A new string holding `a` followed by `b`.
pub fn concat(a: &str, b: &str) -> (s: String)
    ensures
        s@ == a@ + b@,
{
    let mut s = a.to_owned();
    s.append(b);
    s
}

/// Whether two strings hold the same characters (compared byte by byte).
pub fn str_eq(a: &str, b: &str) -> (eq: bool)
    ensures
        eq == (a@ == b@),
{
    let x = a.as_bytes();
    let y = b.as_bytes();
    if x.len() != y.len() {
        proof {
            if a@ == b@ {
                assert(encode_utf8(a@) == encode_utf8(b@));
            }
        }
        return false;
    }
    let mut i: usize = 0;
    while i < x.len()
        invariant
            x@ == encode_utf8(a@),
            y@ == encode_utf8(b@),
            x@.len() == y@.len(),
            i <= x@.len(),
            forall|j: int| 0 <= j < i ==> x@[j] == y@[j],
        decreases x@.len() - i,
    {
        if x[i] != y[i] {
            proof {
                if a@ == b@ {
                    assert(encode_utf8(a@) == encode_utf8(b@));
                }
            }
            return false;
        }
        i = i + 1;
    }
    proof {
        assert(x@ =~= y@);
        assert(decode_utf8(encode_utf8(a@)) == a@);
        assert(decode_utf8(encode_utf8(b@)) == b@);
    }
    true
}

/// The characters of `s`, in order.
pub fn chars_of(s: &str) -> (v: Vec<char>)
    ensures
        v@ == s@,
{
    broadcast use vstd::string::axiom_spec_iter;
    let mut v: Vec<char> = Vec::new();
    for c in it: s.chars()
        invariant
            v@ == it.seq().take(it.index() as int),
            it.seq() == s@,
    {
        v.push(c);
    }
    v
}

/// A new string holding the characters `cs[lo..hi]`.
pub fn string_of(cs: &Vec<char>, lo: usize, hi: usize) -> (s: String)
    requires
        lo <= hi <= cs@.len(),
    ensures
        s@ == cs@.subrange(lo as int, hi as int),
{
    let mut s = String::new();
    let mut i = lo;
    while i < hi
        invariant
            lo <= i <= hi <= cs@.len(),
            s@ == cs@.subrange(lo as int, i as int),
        decreases hi - i,
    {
        let t = char_to_string(cs[i]);
        s.append(t.as_str());
        assert(cs@.subrange(lo as int, i + 1) =~= cs@.subrange(lo as int, i as int) + seq![cs@[i as int]]);
        i = i + 1;
    }
    s
}

/// Whether byte offset `c` of `s` is a character boundary.
pub fn is_char_boundary_at(s: &str, c: usize) -> (b: bool)
    ensures
        b == is_boundary(s@, c as int),
{
    let cs = chars_of(s);
    let total = byte_len(s);
    let mut off: usize = 0;
    let mut k: usize = 0;
    proof {
        lemma_byte_offset_zero(s@);
        lemma_byte_offset_full(s@);
    }
    while k < cs.len() && off < c
        invariant
            cs@ == s@,
            total == utf8_len(s@),
            k <= cs@.len(),
            off == byte_offset(s@, k as int),
            k > 0 ==> byte_offset(s@, k - 1) < c,
        decreases cs@.len() - k,
    {
        proof {
            lemma_byte_offset_step(s@, k as int);
            lemma_byte_offset_mono(s@, k + 1, s@.len() as int);
            lemma_byte_offset_full(s@);
        }
        off = off + len_utf8(cs[k]);
        k = k + 1;
    }
    proof {
        if off == c {
            lemma_chars_before_offset(s@, k as int);
        } else if is_boundary(s@, c as int) {
            let j = chars_before(s@, c as int);
            lemma_chars_before_bounds(s@, c as int);
            if j < k {
                if k > 0 && j <= k - 1 {
                    lemma_byte_offset_mono(s@, j, k - 1);
                }
            } else if j > k {
                lemma_byte_offset_mono(s@, k as int, j);
            }
        }
    }
    off == c
}

/// `char::to_string` (`ToString` through `Display`): the one-character
/// string holding `c`.
#[verifier::external_body]
pub(crate) fn char_to_string(c: char) -> (s: String)
    ensures
        s@ == seq![c],
{
    c.to_string()
}

} // verus!
