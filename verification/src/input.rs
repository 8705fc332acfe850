//! Source classification and the Mermaid header that the parser is asked to read.

use vstd::prelude::*;
use crate::text::{chars_of, string_of, is_white_space, char_is_whitespace};
use crate::adapters::chart_primitives::utf8_len;
use crate::engine::{frontmatter_end, frontmatter_end_of, decode_json, parse_detected, parse_as_flowchart, model_kind,
    detected_parse_outcome, flowchart_parse_outcome, json_decode_fails, ParseOutcome};
use crate::error::{MermansiError, Result};

verus! {

/// The character index at which the first `b` bytes of `t` end, if `b` falls on a character
/// boundary within `t`.
pub open spec fn char_index_of_byte(t: Seq<char>, b: int, i: int) -> Option<int>
    decreases t.len() - i,
{
    if b == 0 {
        Some(i)
    } else if i < 0 || i >= t.len() || utf8_len(t[i]) > b {
        None
    } else {
        char_index_of_byte(t, b - utf8_len(t[i]), i + 1)
    }
}

/// The index of the first character at or after `i` that is not whitespace (`t.len()` if none).
pub open spec fn skip_white(t: Seq<char>, i: int) -> int
    decreases t.len() - i,
{
    if i < 0 || i >= t.len() || !is_white_space(t[i]) { i } else { skip_white(t, i + 1) }
}

/// Whether `word` occurs in `t` at `i`.
pub open spec fn occurs_at(t: Seq<char>, i: int, word: Seq<char>) -> bool {
    0 <= i && i + word.len() <= t.len() && t.subrange(i, i + word.len()) == word
}

/// The first index at or after `i` where `word` occurs.
pub open spec fn find_word(t: Seq<char>, i: int, word: Seq<char>) -> Option<int>
    decreases t.len() + 1 - i,
{
    if i < 0 || i + word.len() > t.len() {
        None
    } else if occurs_at(t, i, word) {
        Some(i)
    } else {
        find_word(t, i + 1, word)
    }
}

pub open spec fn directive_open() -> Seq<char> { seq!['%', '%', '{'] }
pub open spec fn directive_close() -> Seq<char> { seq!['}', '%', '%'] }
pub open spec fn comment_mark() -> Seq<char> { seq!['%', '%'] }

/// The index of the first line that is not blank, a `%%{...}%%` directive or a `%%` comment,
/// from `i` on; `None` where a directive is never closed.
pub open spec fn header_from(t: Seq<char>, i: int) -> Option<int>
    decreases t.len() - i, 1int,
{
    let c = skip_white(t, i);
    if i < 0 || i > t.len() || c >= t.len() {
        if 0 <= i <= t.len() { Some(c) } else { None }
    } else if occurs_at(t, c, directive_open()) {
        match find_word(t, c + 3, directive_close()) {
            Some(e) if i < e + 3 <= t.len() => header_from(t, e + 3),
            _ => None,
        }
    } else if occurs_at(t, c, comment_mark()) && c + 2 < t.len() && t[c + 2] != '{' && t[c + 2] != '\n' {
        match find_word(t, c, seq!['\n']) {
            None => if i < t.len() { header_from(t, t.len() as int) } else { None },
            Some(e) => if i < e + 1 <= t.len() { header_from(t, e + 1) } else { None },
        }
    } else {
        Some(c)
    }
}

/// Where the diagram header starts: after the frontmatter block (which ends `frontmatter`
/// bytes in) and any blank lines, directives and comments.
pub open spec fn header_offset(t: Seq<char>, frontmatter: usize) -> Option<int> {
    match char_index_of_byte(t, frontmatter as int, 0) {
        None => None,
        Some(c) => header_from(t, c),
    }
}

pub open spec fn alias() -> Seq<char> {
    seq!['f', 'l', 'o', 'w', 'c', 'h', 'a', 'r', 't', '-', 'v', '2']
}

pub open spec fn grammar_header() -> Seq<char> {
    seq!['f', 'l', 'o', 'w', 'c', 'h', 'a', 'r', 't', ' ', ' ', ' ']
}

/// The source with a leading `flowchart-v2` header token replaced, at the same length, by the
/// `flowchart` header the grammar accepts; `None` where the header is anything else.
pub open spec fn normalized_header(t: Seq<char>, frontmatter: usize) -> Option<Seq<char>> {
    match header_offset(t, frontmatter) {
        None => None,
        Some(h) => if occurs_at(t, h, alias()) && (h + 12 >= t.len() || is_white_space(t[h + 12])) {
            Some(t.subrange(0, h) + grammar_header() + t.subrange(h + 12, t.len() as int))
        } else {
            None
        },
    }
}

fn occurs(t: &Vec<char>, i: usize, word: &[char]) -> (r: bool)
    ensures
        r == occurs_at(t@, i as int, word@),
{
    let tl = t.len();
    if i > tl || word.len() > tl - i {
        return false;
    }
    let mut k: usize = 0;
    while k < word.len()
        invariant
            tl == t@.len(),
            i + word@.len() <= t@.len(),
            k <= word@.len(),
            forall|j: int| 0 <= j < k ==> t@[i + j] == word@[j],
        decreases word@.len() - k,
    {
        if t[i + k] != word[k] {
            assert(t@.subrange(i as int, i + word@.len())[k as int] != word@[k as int]);
            return false;
        }
        k = k + 1;
    }
    assert(t@.subrange(i as int, i + word@.len()) =~= word@);
    true
}

fn find_from(t: &Vec<char>, i: usize, word: &[char]) -> (r: Option<usize>)
    ensures
        find_word(t@, i as int, word@) == match r {
            Some(e) => Some(e as int),
            None => None::<int>,
        },
        r matches Some(e) ==> i <= e && occurs_at(t@, e as int, word@),
{
    let mut j = i;
    while j <= t.len() && word.len() <= t.len() - j
        invariant
            i <= j,
            find_word(t@, i as int, word@) == find_word(t@, j as int, word@),
        decreases t@.len() + 1 - j,
    {
        if occurs(t, j, word) {
            return Some(j);
        }
        if j == t.len() {
            assert(find_word(t@, j + 1, word@) is None);
            return None;
        }
        j = j + 1;
    }
    None
}

fn skip_white_from(t: &Vec<char>, i: usize) -> (r: usize)
    requires
        i <= t@.len(),
    ensures
        r == skip_white(t@, i as int),
        i <= r <= t@.len(),
{
    let mut j = i;
    while j < t.len() && char_is_whitespace(t[j])
        invariant
            i <= j <= t@.len(),
            skip_white(t@, i as int) == skip_white(t@, j as int),
        decreases t@.len() - j,
    {
        j = j + 1;
    }
    j
}

fn char_index_for_byte(t: &Vec<char>, b: usize) -> (r: Option<usize>)
    ensures
        char_index_of_byte(t@, b as int, 0) == match r {
            Some(c) => Some(c as int),
            None => None::<int>,
        },
        r matches Some(c) ==> c <= t@.len(),
{
    let mut i: usize = 0;
    let mut rest = b;
    while rest > 0
        invariant
            i <= t@.len(),
            char_index_of_byte(t@, b as int, 0) == char_index_of_byte(t@, rest as int, i as int),
        decreases rest,
    {
        if i >= t.len() {
            return None;
        }
        let c = t[i];
        let u = c as u32;
        let n: usize = if u < 0x80 { 1 } else if u < 0x800 { 2 } else if u < 0x10000 { 3 } else { 4 };
        if n > rest {
            return None;
        }
        rest = rest - n;
        i = i + 1;
    }
    Some(i)
}

/// The header offset for a source whose frontmatter ends `frontmatter` bytes in.
fn header_offset_in(t: &Vec<char>, frontmatter: usize) -> (r: Option<usize>)
    ensures
        header_offset(t@, frontmatter) == match r {
            Some(h) => Some(h as int),
            None => None::<int>,
        },
        r matches Some(h) ==> h <= t@.len(),
{
    let mut cursor = match char_index_for_byte(t, frontmatter) {
        Some(c) => c,
        None => return None,
    };
    let open = ['%', '%', '{'];
    let close = ['}', '%', '%'];
    let mark = ['%', '%'];
    let newline = ['\n'];
    proof {
        assert(open@ =~= directive_open());
        assert(close@ =~= directive_close());
        assert(mark@ =~= comment_mark());
        assert(newline@ =~= seq!['\n']);
    }
    loop
        invariant
            cursor <= t@.len(),
            open@ == directive_open(),
            close@ == directive_close(),
            mark@ == comment_mark(),
            newline@ == seq!['\n'],
            header_offset(t@, frontmatter) == header_from(t@, cursor as int),
        decreases t@.len() - cursor,
    {
        let c = skip_white_from(t, cursor);
        if c >= t.len() {
            return Some(c);
        }
        if occurs(t, c, open.as_slice()) {
            match find_from(t, c + 3, close.as_slice()) {
                Some(e) => {
                    cursor = e + 3;
                    continue;
                },
                None => return None,
            }
        }
        if occurs(t, c, mark.as_slice()) && c + 2 < t.len() && t[c + 2] != '{' && t[c + 2] != '\n' {
            match find_from(t, c, newline.as_slice()) {
                None => {
                    cursor = t.len();
                },
                Some(e) => {
                    cursor = e + 1;
                },
            }
            continue;
        }
        return Some(c);
    }
}

/// Replaces a leading `flowchart-v2` parser id with the `flowchart` header of the grammar,
/// keeping every other character where it was. The frontmatter block ends `frontmatter` bytes
/// into the source.
pub fn normalize_header_after(source: &str, frontmatter: usize) -> (r: Option<String>)
    ensures
        match normalized_header(source@, frontmatter) {
            Some(s) => r matches Some(t) && t@ == s,
            None => r is None,
        },
{
    let t = chars_of(source);
    let h = match header_offset_in(&t, frontmatter) {
        Some(h) => h,
        None => return None,
    };
    let alias_chars = ['f', 'l', 'o', 'w', 'c', 'h', 'a', 'r', 't', '-', 'v', '2'];
    proof {
        assert(alias_chars@ =~= alias());
    }
    if !occurs(&t, h, alias_chars.as_slice()) {
        return None;
    }
    proof {
        assert(t@.subrange(h as int, h + 12) == alias());
        assert(h + 12 <= t@.len());
    }
    let tl = t.len();
    if h + 12 < tl && !char_is_whitespace(t[h + 12]) {
        return None;
    }
    let mut out: Vec<char> = Vec::new();
    let mut i: usize = 0;
    while i < t.len()
        invariant
            i <= t@.len(),
            h + 12 <= t@.len(),
            t@.subrange(h as int, h + 12) == alias(),
            out@ == (t@.subrange(0, h as int) + grammar_header() + t@.subrange(h + 12, t@.len() as int)).subrange(0, i as int),
        decreases t@.len() - i,
    {
        let c = if h + 9 <= i && i < h + 12 { ' ' } else { t[i] };
        out.push(c);
        proof {
            let full = t@.subrange(0, h as int) + grammar_header() + t@.subrange(h + 12, t@.len() as int);
            assert(full.len() == t@.len());
            if i < h {
                assert(full[i as int] == t@[i as int]);
            } else if i < h + 12 {
                assert(full[i as int] == grammar_header()[i - h]);
                assert(t@.subrange(h as int, h + 12)[i - h] == t@[i as int]);
                assert(alias()[i - h] == t@[i as int]);
                if i < h + 9 {
                    assert(grammar_header()[i - h] == alias()[i - h]);
                }
            } else {
                assert(full[i as int] == t@[i as int]);
            }
            assert(out@ =~= full.subrange(0, i + 1));
        }
        i = i + 1;
    }
    proof {
        let full = t@.subrange(0, h as int) + grammar_header() + t@.subrange(h + 12, t@.len() as int);
        assert(full.subrange(0, t@.len() as int) =~= full);
    }
    Some(string_of(out.as_slice()))
}

/// Whether a source is raw JSON: its first non-whitespace character opens an object or an
/// array.
pub open spec fn is_json_source(t: Seq<char>) -> bool {
    let c = skip_white(t, 0);
    c < t.len() && (t[c] == '{' || t[c] == '[')
}

pub fn looks_like_json(source: &str) -> (r: bool)
    ensures
        r == is_json_source(source@),
{
    let t = chars_of(source);
    let c = skip_white_from(&t, 0);
    c < t.len() && (t[c] == '{' || t[c] == '[')
}

/// `flowchart-v2` is a parser id, while the grammar accepts the public `flowchart` header:
/// the source with a leading `flowchart-v2` header token (after any frontmatter, blank lines,
/// directives and comments) replaced by `flowchart` padded to the same length, so that no
/// character moves; `None` for any other header.
pub fn normalize_flowchart_v2_header(source: &str) -> (r: Option<String>)
    ensures
        match normalized_header(source@, frontmatter_end_of(source@)) {
            Some(s) => r matches Some(t) && t@ == s,
            None => r is None,
        },
{
    normalize_header_after(source, frontmatter_end(source))
}

/// A source ready to render: a parsed Mermaid diagram, or a decoded raw JSON value.
pub enum SourceModel {
    Diagram(merman_core::ParsedDiagramRender),
    Json(serde_json::Value),
}

impl SourceModel {
    /// The family name of the model: `json` for raw JSON, the parser's stable family label
    /// for a diagram.
    pub fn family(&self) -> (r: String)
        ensures
            self is Json ==> r@ == seq!['j', 's', 'o', 'n'],
    {
        match self {
            SourceModel::Diagram(parsed) => model_kind(parsed),
            SourceModel::Json(_) => {
                proof {
                    reveal_strlit("json");
                }
                String::from_str("json")
            },
        }
    }
}

/// How reading a Mermaid source ends: through the `flowchart` grammar where the header is
/// `flowchart-v2`, else with the diagram type detected from the text.
pub open spec fn mermaid_outcome(source: Seq<char>) -> ParseOutcome {
    match normalized_header(source, frontmatter_end_of(source)) {
        Some(normalized) => flowchart_parse_outcome(normalized),
        None => detected_parse_outcome(source),
    }
}

/// Whether a source is refused when it is read: raw JSON that does not decode, or Mermaid that
/// the parser refuses.
pub open spec fn source_refused(source: Seq<char>) -> bool {
    if is_json_source(source) {
        json_decode_fails(source)
    } else {
        mermaid_outcome(source) == ParseOutcome::Refused
    }
}

/// Whether a source is read as a model: raw JSON that decodes, or Mermaid in which the parser
/// finds a diagram.
pub open spec fn source_has_model(source: Seq<char>) -> bool {
    if is_json_source(source) {
        !json_decode_fails(source)
    } else {
        mermaid_outcome(source) == ParseOutcome::Diagram
    }
}

/// Reads a source: raw JSON (first non-whitespace character `{` or `[`) is decoded as JSON
/// and never parsed as Mermaid; anything else is parsed by the Mermaid parser with strict
/// options, through the `flowchart` grammar where the header is the `flowchart-v2` alias.
/// `None` where the parser finds no diagram.
pub fn parse_source_model(source: &str) -> (r: Result<Option<SourceModel>>)
    ensures
        r is Err <==> source_refused(source@),
        r matches Ok(Some(_)) <==> source_has_model(source@),
        is_json_source(source@) ==> match r {
            Ok(m) => m matches Some(SourceModel::Json(_)),
            Err(e) => e is JsonSource,
        },
        !is_json_source(source@) ==> match r {
            Ok(m) => m is None || m matches Some(SourceModel::Diagram(_)),
            Err(e) => e is Parse,
        },
{
    if looks_like_json(source) {
        return match decode_json(source) {
            Ok(value) => Ok(Some(SourceModel::Json(value))),
            Err(e) => Err(MermansiError::JsonSource { source: e }),
        };
    }
    let parsed = match normalize_flowchart_v2_header(source) {
        Some(normalized) => parse_as_flowchart(normalized.as_str()),
        None => parse_detected(source),
    };
    match parsed {
        Ok(Some(diagram)) => Ok(Some(SourceModel::Diagram(diagram))),
        Ok(None) => Ok(None),
        Err(e) => Err(MermansiError::Parse(e)),
    }
}

} // verus!
