//! Text primitives: Unicode segmentation and display widths, and the character-level string
//! conversions the rest of the library builds on.

use vstd::prelude::*;
use unicode_segmentation::UnicodeSegmentation;

verus! {

/// The extended grapheme clusters of `s`, in order.
pub uninterp spec fn grapheme_clusters(s: Seq<char>) -> Seq<Seq<char>>;

/// The terminal display width of the whole string `s`.
pub uninterp spec fn unicode_str_width(s: Seq<char>) -> usize;

/// The terminal display width of the single character `c`; `None` for control characters.
pub uninterp spec fn unicode_char_width(c: char) -> Option<usize>;

/// Splits `s` with `UnicodeSegmentation::graphemes(s, true)` (extended clusters).
/// The contract names the result, and states what the segmentation documents: the clusters
/// are non-empty and concatenate back to `s`.
#[verifier::external_body]
pub(crate) fn graphemes(s: &str) -> (r: Vec<String>)
    ensures
        r@.map_values(|g: String| g@) == grapheme_clusters(s@),
        r@.map_values(|g: String| g@).flatten() == s@,
        forall|i: int| 0 <= i < r@.len() ==> (#[trigger] r@[i])@.len() > 0,
{
    UnicodeSegmentation::graphemes(s, true).map(|g| g.to_string()).collect()
}

/// `UnicodeWidthStr::width(s)`; the contract only names the result.
#[verifier::external_body]
pub(crate) fn str_width(s: &str) -> (r: usize)
    ensures
        r == unicode_str_width(s@),
{
    unicode_width::UnicodeWidthStr::width(s)
}

/// `UnicodeWidthChar::width(c)`; the contract only names the result.
#[verifier::external_body]
pub(crate) fn char_width(c: char) -> (r: Option<usize>)
    ensures
        r == unicode_char_width(c),
{
    unicode_width::UnicodeWidthChar::width(c)
}

/// `str::chars` collected: the characters of `s`.
#[verifier::external_body]
pub(crate) fn chars_of(s: &str) -> (r: Vec<char>)
    ensures
        r@ == s@,
{
    s.chars().collect()
}

/// A `String` holding exactly the characters of `v`.
#[verifier::external_body]
pub(crate) fn string_of(v: &[char]) -> (r: String)
    ensures
        r@ == v@,
{
    v.iter().collect()
}

/// `String::push`.
#[verifier::external_body]
pub(crate) fn push_char(s: &mut String, c: char)
    ensures
        final(s)@ == old(s)@.push(c),
{
    s.push(c)
}

/// `Vec::extend_from_slice` on characters.
pub(crate) fn extend_chars(out: &mut Vec<char>, more: &[char])
    ensures
        final(out)@ == old(out)@ + more@,
{
    let mut i: usize = 0;
    while i < more.len()
        invariant
            i <= more@.len(),
            out@ == old(out)@ + more@.subrange(0, i as int),
        decreases more@.len() - i,
    {
        out.push(more[i]);
        i = i + 1;
        proof {
            assert(more@.subrange(0, i as int) == more@.subrange(0, i - 1) + seq![more@[i - 1]]);
        }
    }
    proof {
        assert(more@.subrange(0, more@.len() as int) == more@);
    }
}

/// Unicode `White_Space`, the property behind `char::is_whitespace`.
pub open spec fn is_white_space(c: char) -> bool {
    let u = c as u32;
    (0x09 <= u <= 0x0d) || u == 0x20 || u == 0x85 || u == 0xa0 || u == 0x1680
        || (0x2000 <= u <= 0x200a) || u == 0x2028 || u == 0x2029 || u == 0x202f
        || u == 0x205f || u == 0x3000
}

/// `char::is_whitespace`.
pub fn char_is_whitespace(c: char) -> (r: bool)
    ensures
        r == is_white_space(c),
{
    let u = c as u32;
    (0x09 <= u && u <= 0x0d) || u == 0x20 || u == 0x85 || u == 0xa0 || u == 0x1680
        || (0x2000 <= u && u <= 0x200a) || u == 0x2028 || u == 0x2029 || u == 0x202f
        || u == 0x205f || u == 0x3000
}

/// Unicode general category `Cc`, the property behind `char::is_control`.
pub open spec fn is_control_char(c: char) -> bool {
    (c as u32) <= 0x1f || (0x7f <= (c as u32) && (c as u32) <= 0x9f)
}

/// `char::is_control`.
pub fn char_is_control(c: char) -> (r: bool)
    ensures
        r == is_control_char(c),
{
    let u = c as u32;
    u <= 0x1f || (0x7f <= u && u <= 0x9f)
}

/// The index of the first character of `s` from `i` on that is not white space (`s.len()`
/// where there is none).
pub open spec fn first_non_white(s: Seq<char>, i: int) -> int
    decreases s.len() - i,
{
    if i >= s.len() || i < 0 {
        s.len() as int
    } else if !is_white_space(s[i]) {
        i
    } else {
        first_non_white(s, i + 1)
    }
}

/// One past the last character of `s` before `n` that is not white space (0 where there is
/// none).
pub open spec fn end_non_white(s: Seq<char>, n: int) -> int
    decreases n,
{
    if n <= 0 || n > s.len() {
        0
    } else if !is_white_space(s[n - 1]) {
        n
    } else {
        end_non_white(s, n - 1)
    }
}

/// `str::trim`: `s` without leading and trailing white space.
pub open spec fn trimmed(s: Seq<char>) -> Seq<char> {
    let a = first_non_white(s, 0);
    let b = end_non_white(s, s.len() as int);
    if a < b { s.subrange(a, b) } else { seq![] }
}

/// `str::trim`.
pub fn trim_text(s: &str) -> (r: String)
    ensures
        r@ == trimmed(s@),
{
    let t = chars_of(s);
    let mut a: usize = 0;
    while a < t.len() && char_is_whitespace(t[a])
        invariant
            a <= t@.len(),
            t@ == s@,
            first_non_white(s@, 0) == first_non_white(s@, a as int),
        decreases t@.len() - a,
    {
        a = a + 1;
    }
    let mut b: usize = t.len();
    while b > 0 && char_is_whitespace(t[b - 1])
        invariant
            b <= t@.len(),
            t@ == s@,
            end_non_white(s@, s@.len() as int) == end_non_white(s@, b as int),
        decreases b,
    {
        b = b - 1;
    }
    if a >= b {
        return String::new();
    }
    let mut out: Vec<char> = Vec::new();
    let mut i: usize = a;
    while i < b
        invariant
            a <= i <= b <= t@.len(),
            out@ == t@.subrange(a as int, i as int),
        decreases b - i,
    {
        out.push(t[i]);
        i = i + 1;
        proof {
            assert(t@.subrange(a as int, i as int) =~= t@.subrange(a as int, i - 1).push(t@[i - 1]));
        }
    }
    string_of(out.as_slice())
}

} // verus!
