//! Optional ANSI color roles, and removal of terminal control sequences from text.
//!
//! ANSI roles add color without changing cell geometry. When `ColorMode::Plain` is selected,
//! no escape sequences are emitted. [`strip_ansi`] removes every escape sequence from a
//! rendered document while keeping its layout controls; [`sanitize_label_text`] turns untrusted
//! label text into plain, single-line, printable text.

use vstd::prelude::*;
use crate::options::ColorMode;
use crate::text::{
    chars_of, string_of, char_is_control, is_control_char, char_is_whitespace, is_white_space,
    graphemes, str_width, grapheme_clusters, unicode_str_width, extend_chars,
};

verus! {

pub const ESC: char = '\u{1b}';
pub const BEL: char = '\u{07}';

/// A character in `lo..=hi` (by code point).
pub open spec fn in_range(c: char, lo: u32, hi: u32) -> bool {
    lo <= (c as u32) && (c as u32) <= hi
}

/// Where a CSI sequence whose parameters start at `j` ends: just after its final byte
/// (`@`..=`~`), or at the end of the text.
pub open spec fn csi_end(s: Seq<char>, j: int) -> int
    decreases s.len() - j,
{
    if j >= s.len() {
        if j < 0 { 0 } else { j }
    } else if j < 0 {
        0
    } else if in_range(s[j], 0x40, 0x7e) {
        j + 1
    } else {
        csi_end(s, j + 1)
    }
}

/// Where a string-control payload (OSC, DCS, APC, PM, SOS) starting at `j` ends: just after
/// BEL, the 8-bit ST, or `ESC \`, or at the end of the text.
pub open spec fn string_control_end(s: Seq<char>, j: int) -> int
    decreases s.len() - j,
{
    if j >= s.len() {
        if j < 0 { 0 } else { j }
    } else if j < 0 {
        0
    } else if s[j] == BEL || s[j] == '\u{9c}' {
        j + 1
    } else if s[j] == ESC && j + 1 < s.len() && s[j + 1] == '\\' {
        j + 2
    } else {
        string_control_end(s, j + 1)
    }
}

/// The end of a run of intermediate bytes (`0x20..=0x2f`) starting at `j`.
pub open spec fn intermediate_end(s: Seq<char>, j: int) -> int
    decreases s.len() - j,
{
    if j >= s.len() {
        if j < 0 { 0 } else { j }
    } else if j < 0 {
        0
    } else if in_range(s[j], 0x20, 0x2f) {
        intermediate_end(s, j + 1)
    } else {
        j
    }
}

/// Where an escape sequence ends, given that its `ESC` stands just before `j`.
pub open spec fn escape_end(s: Seq<char>, j: int) -> int {
    if j < 0 || j >= s.len() {
        if j < 0 { 0 } else { j }
    } else if s[j] == '[' {
        csi_end(s, j + 1)
    } else if s[j] == ']' || s[j] == 'P' || s[j] == '_' || s[j] == '^' || s[j] == 'X' {
        string_control_end(s, j + 1)
    } else if s[j] == '\\' {
        j + 1
    } else if in_range(s[j], 0x20, 0x2f) {
        let k = intermediate_end(s, j);
        if k < s.len() && in_range(s[k], 0x30, 0x7e) { k + 1 } else { k }
    } else {
        j
    }
}

/// The 8-bit introducers of string-control families (DCS, SOS, OSC, PM, APC).
pub open spec fn is_c1_string_introducer(c: char) -> bool {
    c == '\u{90}' || c == '\u{98}' || c == '\u{9d}' || c == '\u{9e}' || c == '\u{9f}'
}

/// Bidirectional formatting controls that can reorder what a terminal shows.
pub open spec fn is_bidi_control(c: char) -> bool {
    c == '\u{61c}' || c == '\u{200e}' || c == '\u{200f}' || in_range(c, 0x202a, 0x202e)
        || in_range(c, 0x2066, 0x2069)
}

/// Layout controls that a rendered document keeps: newline, carriage return and tab.
pub open spec fn is_layout_control(c: char) -> bool {
    c == '\n' || c == '\r' || c == '\t'
}

/// The position after the control sequence that starts at `i` (whose first character is
/// `s[i]`); `i + 1` for a lone character.
pub open spec fn sequence_end(s: Seq<char>, i: int) -> int {
    if 0 <= i < s.len() && s[i] == ESC {
        escape_end(s, i + 1)
    } else if 0 <= i < s.len() && s[i] == '\u{9b}' {
        csi_end(s, i + 1)
    } else if 0 <= i < s.len() && is_c1_string_introducer(s[i]) {
        string_control_end(s, i + 1)
    } else {
        i + 1
    }
}

/// Whether the character at `i` starts a sequence (or is a control) that is removed.
pub open spec fn starts_removed(s: Seq<char>, i: int, keep_layout: bool, drop_bidi: bool) -> bool {
    let c = s[i];
    c == ESC || c == '\u{9b}' || is_c1_string_introducer(c) || c == '\u{9c}'
        || (is_control_char(c) && !(keep_layout && is_layout_control(c)))
        || (drop_bidi && is_bidi_control(c))
}

pub proof fn lemma_csi_end_bounds(s: Seq<char>, j: int)
    requires
        0 <= j,
    ensures
        j <= csi_end(s, j) <= s.len() || (j > s.len() && csi_end(s, j) == j),
    decreases s.len() - j,
{
    if j < s.len() && !in_range(s[j], 0x40, 0x7e) {
        lemma_csi_end_bounds(s, j + 1);
    }
}

pub proof fn lemma_string_control_end_bounds(s: Seq<char>, j: int)
    requires
        0 <= j,
    ensures
        j <= string_control_end(s, j) <= s.len() || (j > s.len() && string_control_end(s, j) == j),
    decreases s.len() - j,
{
    if j < s.len() && !(s[j] == BEL || s[j] == '\u{9c}') && !(s[j] == ESC && j + 1 < s.len() && s[j + 1] == '\\') {
        lemma_string_control_end_bounds(s, j + 1);
    }
}

pub proof fn lemma_intermediate_end_bounds(s: Seq<char>, j: int)
    requires
        0 <= j,
    ensures
        j <= intermediate_end(s, j) <= s.len() || (j > s.len() && intermediate_end(s, j) == j),
    decreases s.len() - j,
{
    if j < s.len() && in_range(s[j], 0x20, 0x2f) {
        lemma_intermediate_end_bounds(s, j + 1);
    }
}

pub proof fn lemma_sequence_end_bounds(s: Seq<char>, i: int)
    requires
        0 <= i < s.len(),
    ensures
        i < sequence_end(s, i) <= s.len(),
{
    lemma_csi_end_bounds(s, i + 1);
    lemma_string_control_end_bounds(s, i + 1);
    if s[i] == ESC && i + 1 < s.len() {
        let j = i + 1;
        lemma_csi_end_bounds(s, j + 1);
        lemma_string_control_end_bounds(s, j + 1);
        lemma_intermediate_end_bounds(s, j);
    }
}

/// The text that remains of `s` from position `i` on, after removing terminal sequences and
/// controls: layout controls survive when `keep_layout`, bidi controls go when `drop_bidi`.
pub open spec fn stripped_from(s: Seq<char>, i: int, keep_layout: bool, drop_bidi: bool) -> Seq<char>
    decreases s.len() - i,
{
    if i < 0 || i >= s.len() {
        seq![]
    } else {
        proof {
            lemma_sequence_end_bounds(s, i);
        }
        if starts_removed(s, i, keep_layout, drop_bidi) {
            stripped_from(s, sequence_end(s, i), keep_layout, drop_bidi)
        } else {
            seq![s[i]] + stripped_from(s, i + 1, keep_layout, drop_bidi)
        }
    }
}

/// `s` with every terminal sequence and control removed.
pub open spec fn stripped(s: Seq<char>, keep_layout: bool, drop_bidi: bool) -> Seq<char> {
    stripped_from(s, 0, keep_layout, drop_bidi)
}

/// A character that stripping keeps: no escape or C1 introducer, no string terminator, no
/// control other than the kept layout controls, and no bidirectional control where those are
/// dropped.
pub open spec fn kept_char(c: char, keep_layout: bool, drop_bidi: bool) -> bool {
    !(c == ESC || c == '\u{9b}' || is_c1_string_introducer(c) || c == '\u{9c}'
        || (is_control_char(c) && !(keep_layout && is_layout_control(c)))
        || (drop_bidi && is_bidi_control(c)))
}

proof fn lemma_stripped_from_kept(s: Seq<char>, i: int, keep_layout: bool, drop_bidi: bool)
    ensures
        forall|k: int| 0 <= k < stripped_from(s, i, keep_layout, drop_bidi).len()
            ==> kept_char(#[trigger] stripped_from(s, i, keep_layout, drop_bidi)[k], keep_layout, drop_bidi),
    decreases s.len() - i,
{
    if 0 <= i < s.len() {
        lemma_sequence_end_bounds(s, i);
        if starts_removed(s, i, keep_layout, drop_bidi) {
            lemma_stripped_from_kept(s, sequence_end(s, i), keep_layout, drop_bidi);
            assert(stripped_from(s, i, keep_layout, drop_bidi) == stripped_from(s, sequence_end(s, i), keep_layout, drop_bidi));
        } else {
            lemma_stripped_from_kept(s, i + 1, keep_layout, drop_bidi);
            let rest = stripped_from(s, i + 1, keep_layout, drop_bidi);
            assert(kept_char(s[i], keep_layout, drop_bidi));
            assert(stripped_from(s, i, keep_layout, drop_bidi) == seq![s[i]] + rest);
            assert forall|k: int| 0 <= k < (seq![s[i]] + rest).len() implies kept_char(#[trigger] (seq![s[i]] + rest)[k], keep_layout, drop_bidi) by {
                if k > 0 {
                    assert((seq![s[i]] + rest)[k] == rest[k - 1]);
                } else {
                    assert((seq![s[i]] + rest)[k] == s[i]);
                }
            }
        }
    }
}

proof fn lemma_stripped_from_identity(s: Seq<char>, i: int, keep_layout: bool, drop_bidi: bool)
    requires
        0 <= i <= s.len(),
        forall|k: int| 0 <= k < s.len() ==> kept_char(#[trigger] s[k], keep_layout, drop_bidi),
    ensures
        stripped_from(s, i, keep_layout, drop_bidi) == s.subrange(i, s.len() as int),
    decreases s.len() - i,
{
    if i < s.len() {
        assert(kept_char(s[i], keep_layout, drop_bidi));
        lemma_stripped_from_identity(s, i + 1, keep_layout, drop_bidi);
        assert(seq![s[i]] + s.subrange(i + 1, s.len() as int) =~= s.subrange(i, s.len() as int));
    } else {
        assert(s.subrange(i, s.len() as int) =~= seq![]);
    }
}

/// Stripping leaves no escape sequence, C1 control or stray control character behind: every
/// character of the result is one that stripping keeps.
pub proof fn lemma_stripped_is_clean(s: Seq<char>, keep_layout: bool, drop_bidi: bool)
    ensures
        forall|k: int| 0 <= k < stripped(s, keep_layout, drop_bidi).len()
            ==> kept_char(#[trigger] stripped(s, keep_layout, drop_bidi)[k], keep_layout, drop_bidi),
{
    lemma_stripped_from_kept(s, 0, keep_layout, drop_bidi);
}

/// Stripping is idempotent: stripping stripped text changes nothing.
pub proof fn lemma_stripped_idempotent(s: Seq<char>, keep_layout: bool, drop_bidi: bool)
    ensures
        stripped(stripped(s, keep_layout, drop_bidi), keep_layout, drop_bidi) == stripped(s, keep_layout, drop_bidi),
{
    let t = stripped(s, keep_layout, drop_bidi);
    lemma_stripped_is_clean(s, keep_layout, drop_bidi);
    lemma_stripped_from_identity(t, 0, keep_layout, drop_bidi);
    assert(t.subrange(0, t.len() as int) =~= t);
}

/// Text without escape sequences or stray controls is left as it is by stripping.
pub proof fn lemma_clean_text_unchanged(s: Seq<char>, keep_layout: bool, drop_bidi: bool)
    requires
        forall|k: int| 0 <= k < s.len() ==> kept_char(#[trigger] s[k], keep_layout, drop_bidi),
    ensures
        stripped(s, keep_layout, drop_bidi) == s,
{
    lemma_stripped_from_identity(s, 0, keep_layout, drop_bidi);
    assert(s.subrange(0, s.len() as int) =~= s);
}

/// Consumes the parameters and final byte of a CSI sequence that start at `j`.
fn consume_csi(chars: &Vec<char>, j: usize) -> (r: usize)
    ensures
        r == csi_end(chars@, j as int),
{
    let mut k = j;
    while k < chars.len()
        invariant
            j <= k,
            csi_end(chars@, j as int) == csi_end(chars@, k as int),
        decreases chars@.len() - k,
    {
        let u = chars[k] as u32;
        if 0x40 <= u && u <= 0x7e {
            return k + 1;
        }
        k = k + 1;
    }
    k
}

/// Consumes a string-control payload starting at `j`, through its BEL or ST terminator.
/// An embedded `ESC` that is not followed by `\` is part of the payload.
fn consume_string_control(chars: &Vec<char>, j: usize) -> (r: usize)
    ensures
        r == string_control_end(chars@, j as int),
{
    let mut k = j;
    while k < chars.len()
        invariant
            j <= k,
            string_control_end(chars@, j as int) == string_control_end(chars@, k as int),
        decreases chars@.len() - k,
    {
        let c = chars[k];
        if c == BEL || c == '\u{9c}' {
            return k + 1;
        }
        if c == ESC && k + 1 < chars.len() && chars[k + 1] == '\\' {
            return k + 2;
        }
        k = k + 1;
    }
    k
}

/// Consumes the rest of an escape sequence whose `ESC` stands just before `j`.
fn consume_escape_sequence(chars: &Vec<char>, j: usize) -> (r: usize)
    ensures
        r == escape_end(chars@, j as int),
{
    if j >= chars.len() {
        return j;
    }
    let c = chars[j];
    if c == '[' {
        consume_csi(chars, j + 1)
    } else if c == ']' || c == 'P' || c == '_' || c == '^' || c == 'X' {
        consume_string_control(chars, j + 1)
    } else if c == '\\' {
        j + 1
    } else if 0x20 <= (c as u32) && (c as u32) <= 0x2f {
        let mut k = j;
        while k < chars.len() && 0x20 <= (chars[k] as u32) && (chars[k] as u32) <= 0x2f
            invariant
                j <= k <= chars@.len(),
                intermediate_end(chars@, j as int) == intermediate_end(chars@, k as int),
            decreases chars@.len() - k,
        {
            k = k + 1;
        }
        if k < chars.len() && 0x30 <= (chars[k] as u32) && (chars[k] as u32) <= 0x7e {
            k + 1
        } else {
            k
        }
    } else {
        j
    }
}

fn strip_terminal_sequences(input: &str, preserve_layout_controls: bool, remove_bidi_controls: bool) -> (r: String)
    ensures
        r@ == stripped(input@, preserve_layout_controls, remove_bidi_controls),
{
    let chars = chars_of(input);
    let ghost s = chars@;
    let mut out: Vec<char> = Vec::new();
    let mut i: usize = 0;
    while i < chars.len()
        invariant
            s == chars@,
            i <= s.len(),
            out@ + stripped_from(s, i as int, preserve_layout_controls, remove_bidi_controls)
                == stripped(s, preserve_layout_controls, remove_bidi_controls),
        decreases s.len() - i,
    {
        proof {
            lemma_sequence_end_bounds(s, i as int);
        }
        let ch = chars[i];
        if ch == ESC {
            i = consume_escape_sequence(&chars, i + 1);
        } else if ch == '\u{9b}' {
            i = consume_csi(&chars, i + 1);
        } else if ch == '\u{90}' || ch == '\u{98}' || ch == '\u{9d}' || ch == '\u{9e}' || ch == '\u{9f}' {
            i = consume_string_control(&chars, i + 1);
        } else if ch == '\u{9c}' {
            i = i + 1;
        } else if preserve_layout_controls && (ch == '\n' || ch == '\r' || ch == '\t') {
            out.push(ch);
            i = i + 1;
        } else if char_is_control(ch) {
            i = i + 1;
        } else if remove_bidi_controls && is_bidi_format_control(ch) {
            i = i + 1;
        } else {
            proof {
                assert(out@.push(ch) + stripped_from(s, i + 1, preserve_layout_controls, remove_bidi_controls)
                    == out@ + (seq![ch] + stripped_from(s, i + 1, preserve_layout_controls, remove_bidi_controls)));
            }
            out.push(ch);
            i = i + 1;
        }
    }
    proof {
        assert(out@ + seq![] == out@);
    }
    string_of(&out)
}

/// Remove ANSI escape sequences while preserving all printable Unicode text.
///
/// Handles CSI, OSC, DCS, APC, PM, SOS, ST, their 8-bit C1 forms, and bare ESC
/// bytes. Newlines, carriage returns, and tabs are preserved so stripping color
/// never changes the layout of an already-rendered terminal document.
pub fn strip_ansi(input: &str) -> (r: String)
    ensures
        r@ == stripped(input@, true, false),
{
    strip_terminal_sequences(input, true, false)
}

fn strip_terminal_controls(input: &str) -> (r: String)
    ensures
        r@ == stripped(input@, false, true),
{
    strip_terminal_sequences(input, false, true)
}

/// Whether `ch` is a bidirectional formatting control.
pub fn is_bidi_format_control(ch: char) -> (r: bool)
    ensures
        r == is_bidi_control(ch),
{
    let u = ch as u32;
    u == 0x61c || u == 0x200e || u == 0x200f || (0x202a <= u && u <= 0x202e) || (0x2066 <= u && u <= 0x2069)
}


/// A semantic element that may carry a colour.
#[non_exhaustive]
#[derive(Debug, Clone, Copy, PartialEq, Eq, Structural)]
pub enum AnsiRole {
    NodeBorder,
    NodeText,
    EdgeStroke,
    EdgeArrow,
    EdgeLabel,
    ChartSeries(u8),
    SectionHeader,
    Title,
}

/// The SGR prefix that `mode` uses for `role` (empty in plain mode).
pub open spec fn role_prefix(mode: ColorMode, role: AnsiRole) -> &'static str {
    match mode {
        ColorMode::Plain => "",
        ColorMode::Ansi16 => match role {
            AnsiRole::NodeBorder | AnsiRole::SectionHeader => "\x1b[36m",
            AnsiRole::NodeText => "\x1b[37m",
            AnsiRole::EdgeStroke => "\x1b[34m",
            AnsiRole::EdgeArrow => "\x1b[33m",
            AnsiRole::EdgeLabel => "\x1b[35m",
            AnsiRole::Title => "\x1b[1;37m",
            AnsiRole::ChartSeries(index) => {
                let k = index % 6;
                if k == 0 { "\x1b[31m" } else if k == 1 { "\x1b[32m" } else if k == 2 { "\x1b[33m" }
                else if k == 3 { "\x1b[34m" } else if k == 4 { "\x1b[35m" } else { "\x1b[36m" }
            },
        },
        ColorMode::TrueColor => match role {
            AnsiRole::NodeBorder | AnsiRole::SectionHeader => "\x1b[38;2;56;189;173m",
            AnsiRole::NodeText => "\x1b[38;2;230;237;243m",
            AnsiRole::EdgeStroke => "\x1b[38;2;88;166;255m",
            AnsiRole::EdgeArrow => "\x1b[38;2;255;196;87m",
            AnsiRole::EdgeLabel => "\x1b[38;2;213;128;255m",
            AnsiRole::Title => "\x1b[1;38;2;255;255;255m",
            AnsiRole::ChartSeries(index) => {
                let k = index % 6;
                if k == 0 { "\x1b[38;2;239;83;80m" } else if k == 1 { "\x1b[38;2;102;187;106m" }
                else if k == 2 { "\x1b[38;2;255;202;40m" } else if k == 3 { "\x1b[38;2;66;165;245m" }
                else if k == 4 { "\x1b[38;2;171;71;188m" } else { "\x1b[38;2;38;198;218m" }
            },
        },
    }
}

/// Whether `p` is an SGR sequence: `ESC [`, parameter bytes (`0x30..=0x3f`), and the final `m`.
pub open spec fn sgr_shaped(p: Seq<char>) -> bool {
    &&& p.len() >= 3
    &&& p[0] == ESC
    &&& p[1] == '['
    &&& p[p.len() - 1] == 'm'
    &&& params_from(p, 2)
}

/// Whether every character of `p` from `i` up to its last is a parameter byte.
pub open spec fn params_from(p: Seq<char>, i: int) -> bool
    decreases p.len() - i,
{
    if i < 0 || i >= p.len() - 1 { true } else { in_range(p[i], 0x30, 0x3f) && params_from(p, i + 1) }
}

/// Every colour prefix is empty or an SGR sequence.
proof fn lemma_role_prefix_shape(mode: ColorMode, role: AnsiRole)
    ensures
        role_prefix(mode, role)@.len() == 0 || sgr_shaped(role_prefix(mode, role)@),
{
    reveal_with_fuel(params_from, 25);
    match mode {
        ColorMode::Plain => {
            reveal_strlit("");
        },
        ColorMode::Ansi16 => match role {
            AnsiRole::NodeBorder | AnsiRole::SectionHeader => {
                reveal_strlit("\x1b[36m");
                assert(sgr_shaped("\x1b[36m"@));
            },
            AnsiRole::NodeText => {
                reveal_strlit("\x1b[37m");
                assert(sgr_shaped("\x1b[37m"@));
            },
            AnsiRole::EdgeStroke => {
                reveal_strlit("\x1b[34m");
                assert(sgr_shaped("\x1b[34m"@));
            },
            AnsiRole::EdgeArrow => {
                reveal_strlit("\x1b[33m");
                assert(sgr_shaped("\x1b[33m"@));
            },
            AnsiRole::EdgeLabel => {
                reveal_strlit("\x1b[35m");
                assert(sgr_shaped("\x1b[35m"@));
            },
            AnsiRole::Title => {
                reveal_strlit("\x1b[1;37m");
                assert(sgr_shaped("\x1b[1;37m"@));
            },
            AnsiRole::ChartSeries(index) => {
                let k = index % 6;
                if k == 0 {
                    reveal_strlit("\x1b[31m");
                    assert(sgr_shaped("\x1b[31m"@));
                } else if k == 1 {
                    reveal_strlit("\x1b[32m");
                    assert(sgr_shaped("\x1b[32m"@));
                } else if k == 2 {
                    reveal_strlit("\x1b[33m");
                    assert(sgr_shaped("\x1b[33m"@));
                } else if k == 3 {
                    reveal_strlit("\x1b[34m");
                    assert(sgr_shaped("\x1b[34m"@));
                } else if k == 4 {
                    reveal_strlit("\x1b[35m");
                    assert(sgr_shaped("\x1b[35m"@));
                } else {
                    reveal_strlit("\x1b[36m");
                    assert(sgr_shaped("\x1b[36m"@));
                }
            },
        },
        ColorMode::TrueColor => match role {
            AnsiRole::NodeBorder | AnsiRole::SectionHeader => {
                reveal_strlit("\x1b[38;2;56;189;173m");
                assert(sgr_shaped("\x1b[38;2;56;189;173m"@));
            },
            AnsiRole::NodeText => {
                reveal_strlit("\x1b[38;2;230;237;243m");
                assert(sgr_shaped("\x1b[38;2;230;237;243m"@));
            },
            AnsiRole::EdgeStroke => {
                reveal_strlit("\x1b[38;2;88;166;255m");
                assert(sgr_shaped("\x1b[38;2;88;166;255m"@));
            },
            AnsiRole::EdgeArrow => {
                reveal_strlit("\x1b[38;2;255;196;87m");
                assert(sgr_shaped("\x1b[38;2;255;196;87m"@));
            },
            AnsiRole::EdgeLabel => {
                reveal_strlit("\x1b[38;2;213;128;255m");
                assert(sgr_shaped("\x1b[38;2;213;128;255m"@));
            },
            AnsiRole::Title => {
                reveal_strlit("\x1b[1;38;2;255;255;255m");
                assert(sgr_shaped("\x1b[1;38;2;255;255;255m"@));
            },
            AnsiRole::ChartSeries(index) => {
                let k = index % 6;
                if k == 0 {
                    reveal_strlit("\x1b[38;2;239;83;80m");
                    assert(sgr_shaped("\x1b[38;2;239;83;80m"@));
                } else if k == 1 {
                    reveal_strlit("\x1b[38;2;102;187;106m");
                    assert(sgr_shaped("\x1b[38;2;102;187;106m"@));
                } else if k == 2 {
                    reveal_strlit("\x1b[38;2;255;202;40m");
                    assert(sgr_shaped("\x1b[38;2;255;202;40m"@));
                } else if k == 3 {
                    reveal_strlit("\x1b[38;2;66;165;245m");
                    assert(sgr_shaped("\x1b[38;2;66;165;245m"@));
                } else if k == 4 {
                    reveal_strlit("\x1b[38;2;171;71;188m");
                    assert(sgr_shaped("\x1b[38;2;171;71;188m"@));
                } else {
                    reveal_strlit("\x1b[38;2;38;198;218m");
                    assert(sgr_shaped("\x1b[38;2;38;198;218m"@));
                }
            },
        },
    }
}

/// The SGR reset that `mode` appends after coloured text (empty in plain mode).
pub open spec fn mode_suffix(mode: ColorMode) -> &'static str {
    match mode {
        ColorMode::Plain => "",
        ColorMode::Ansi16 | ColorMode::TrueColor => "\x1b[0m",
    }
}

/// The CSI scan from `j` stops just after `k` when everything before `k` is a parameter byte
/// and `s[k]` is a final byte.
proof fn lemma_csi_end_at(s: Seq<char>, j: int, k: int)
    requires
        0 <= j <= k < s.len(),
        forall|m: int| j <= m < k ==> #[trigger] in_range(s[m], 0x30, 0x3f),
        in_range(s[k], 0x40, 0x7e),
    ensures
        csi_end(s, j) == k + 1,
    decreases k - j,
{
    if j < k {
        assert(in_range(s[j], 0x30, 0x3f));
        lemma_csi_end_at(s, j + 1, k);
    }
}

proof fn lemma_params_from(p: Seq<char>, i: int, m: int)
    requires
        0 <= i <= m < p.len() - 1,
        params_from(p, i),
    ensures
        in_range(p[m], 0x30, 0x3f),
    decreases m - i,
{
    if i < m {
        lemma_params_from(p, i + 1, m);
    }
}

/// Stripping skips an SGR sequence that stands at `i`.
proof fn lemma_strip_skips_sgr(s: Seq<char>, i: int, p: Seq<char>, keep_layout: bool, drop_bidi: bool)
    requires
        sgr_shaped(p),
        0 <= i,
        i + p.len() <= s.len(),
        s.subrange(i, i + p.len()) == p,
    ensures
        stripped_from(s, i, keep_layout, drop_bidi) == stripped_from(s, i + p.len(), keep_layout, drop_bidi),
{
    assert(s[i] == p[0]);
    assert(s[i + 1] == p[1]);
    let k = i + p.len() - 1;
    assert(s[k] == p[p.len() - 1]);
    assert forall|m: int| i + 2 <= m < k implies #[trigger] in_range(s[m], 0x30, 0x3f) by {
        lemma_params_from(p, 2, m - i);
        assert(s[m] == p[m - i]);
    }
    assert(in_range('m', 0x40, 0x7e));
    lemma_csi_end_at(s, i + 2, k);
    lemma_sequence_end_bounds(s, i);
    assert(sequence_end(s, i) == i + p.len());
}

/// Stripping keeps a run of kept characters as it is.
proof fn lemma_strip_keeps_run(s: Seq<char>, i: int, j: int, keep_layout: bool, drop_bidi: bool)
    requires
        0 <= i <= j <= s.len(),
        forall|m: int| i <= m < j ==> kept_char(#[trigger] s[m], keep_layout, drop_bidi),
    ensures
        stripped_from(s, i, keep_layout, drop_bidi) == s.subrange(i, j) + stripped_from(s, j, keep_layout, drop_bidi),
    decreases j - i,
{
    if i < j {
        assert(kept_char(s[i], keep_layout, drop_bidi));
        lemma_strip_keeps_run(s, i + 1, j, keep_layout, drop_bidi);
        assert(s.subrange(i, j) =~= seq![s[i]] + s.subrange(i + 1, j));
    } else {
        assert(s.subrange(i, j) =~= Seq::<char>::empty());
    }
}

/// Law: colour never changes the visible text. Painting a text free of terminal controls and
/// stripping the result gives the text back, and in plain mode painting adds nothing.
pub proof fn lemma_paint_strips_back(mode: ColorMode, role: AnsiRole, text: Seq<char>)
    requires
        forall|k: int| 0 <= k < text.len() ==> kept_char(#[trigger] text[k], true, false),
    ensures
        stripped(role_prefix(mode, role)@ + text + mode_suffix(mode)@, true, false) == text,
        mode == ColorMode::Plain ==> role_prefix(mode, role)@ + text + mode_suffix(mode)@ == text,
{
    let p = role_prefix(mode, role)@;
    let q = mode_suffix(mode)@;
    let s = p + text + q;
    let a: int = p.len() as int;
    let b: int = (p.len() + text.len()) as int;
    lemma_role_prefix_shape(mode, role);
    reveal_with_fuel(params_from, 5);
    reveal_strlit("");
    reveal_strlit("\x1b[0m");
    assert(q.len() == 0 || sgr_shaped(q));
    if p.len() > 0 {
        assert(s.subrange(0, p.len() as int) =~= p);
        lemma_strip_skips_sgr(s, 0, p, true, false);
    }
    assert forall|m: int| p.len() <= m < p.len() + text.len() implies kept_char(#[trigger] s[m], true, false) by {
        assert(s[m] == text[m - p.len()]);
    }
    lemma_strip_keeps_run(s, a, b, true, false);
    assert(s.subrange(a, b) =~= text);
    if q.len() > 0 {
        assert(s.subrange(b, s.len() as int) =~= q);
        lemma_strip_skips_sgr(s, b, q, true, false);
    }
    assert(stripped_from(s, s.len() as int, true, false) == Seq::<char>::empty());
    if mode == ColorMode::Plain {
        assert(s =~= text);
    }
}

/// Serializes colour roles for one colour mode.
#[derive(Debug, Clone)]
pub struct AnsiEncoder {
    mode: ColorMode,
}

impl AnsiEncoder {
    pub closed spec fn spec_mode(&self) -> ColorMode {
        self.mode
    }

    pub fn new(mode: ColorMode) -> (r: Self)
        ensures
            r.spec_mode() == mode,
    {
        Self { mode }
    }

    pub fn mode(&self) -> (r: ColorMode)
        ensures
            r == self.spec_mode(),
    {
        self.mode
    }

    pub fn prefix(&self, role: AnsiRole) -> (r: &'static str)
        ensures
            r == role_prefix(self.spec_mode(), role),
    {
        match self.mode {
            ColorMode::Plain => "",
            ColorMode::Ansi16 => match role {
                AnsiRole::NodeBorder | AnsiRole::SectionHeader => "\x1b[36m",
                AnsiRole::NodeText => "\x1b[37m",
                AnsiRole::EdgeStroke => "\x1b[34m",
                AnsiRole::EdgeArrow => "\x1b[33m",
                AnsiRole::EdgeLabel => "\x1b[35m",
                AnsiRole::Title => "\x1b[1;37m",
                AnsiRole::ChartSeries(index) => {
                    let k = index % 6;
                    if k == 0 { "\x1b[31m" } else if k == 1 { "\x1b[32m" } else if k == 2 { "\x1b[33m" }
                    else if k == 3 { "\x1b[34m" } else if k == 4 { "\x1b[35m" } else { "\x1b[36m" }
                },
            },
            ColorMode::TrueColor => match role {
                AnsiRole::NodeBorder | AnsiRole::SectionHeader => "\x1b[38;2;56;189;173m",
                AnsiRole::NodeText => "\x1b[38;2;230;237;243m",
                AnsiRole::EdgeStroke => "\x1b[38;2;88;166;255m",
                AnsiRole::EdgeArrow => "\x1b[38;2;255;196;87m",
                AnsiRole::EdgeLabel => "\x1b[38;2;213;128;255m",
                AnsiRole::Title => "\x1b[1;38;2;255;255;255m",
                AnsiRole::ChartSeries(index) => {
                    let k = index % 6;
                    if k == 0 { "\x1b[38;2;239;83;80m" } else if k == 1 { "\x1b[38;2;102;187;106m" }
                    else if k == 2 { "\x1b[38;2;255;202;40m" } else if k == 3 { "\x1b[38;2;66;165;245m" }
                    else if k == 4 { "\x1b[38;2;171;71;188m" } else { "\x1b[38;2;38;198;218m" }
                },
            },
        }
    }

    pub fn suffix(&self) -> (r: &'static str)
        ensures
            r == mode_suffix(self.spec_mode()),
    {
        match self.mode {
            ColorMode::Plain => "",
            ColorMode::Ansi16 | ColorMode::TrueColor => "\x1b[0m",
        }
    }

    /// `text` wrapped in the role's prefix and the mode's reset.
    pub fn paint(&self, role: AnsiRole, text: &str) -> (r: String)
        ensures
            r@ == role_prefix(self.spec_mode(), role)@ + text@ + mode_suffix(self.spec_mode())@,
    {
        let mut out = String::from_str(self.prefix(role));
        out.append(text);
        out.append(self.suffix());
        out
    }
}

// ---------------------------------------------------------------------------------------------
// Label normalization
// ---------------------------------------------------------------------------------------------

/// `pat` occurs in `s` at position `i`.
pub open spec fn matches_at(s: Seq<char>, i: int, pat: Seq<char>) -> bool {
    0 <= i && i + pat.len() <= s.len() && s.subrange(i, i + pat.len()) == pat
}

/// The first occurrence of `pat` in `s` at or after `i`.
pub open spec fn find_from(s: Seq<char>, pat: Seq<char>, i: int) -> Option<int>
    decreases s.len() - i,
{
    if i < 0 || i + pat.len() > s.len() {
        None
    } else if matches_at(s, i, pat) {
        Some(i)
    } else if i >= s.len() {
        None
    } else {
        find_from(s, pat, i + 1)
    }
}

/// The last position in `lo..hi` that holds `c`.
pub open spec fn rfind_char(s: Seq<char>, c: char, lo: int, hi: int) -> Option<int>
    decreases hi - lo,
{
    if hi <= lo {
        None
    } else if s[hi - 1] == c {
        Some(hi - 1)
    } else {
        rfind_char(s, c, lo, hi - 1)
    }
}

pub proof fn lemma_find_from_bounds(s: Seq<char>, pat: Seq<char>, i: int)
    ensures
        find_from(s, pat, i) matches Some(j) ==> i <= j && j + pat.len() <= s.len() && matches_at(s, j, pat),
    decreases s.len() - i,
{
    if !(i < 0 || i + pat.len() > s.len()) && !matches_at(s, i, pat) && i < s.len() {
        lemma_find_from_bounds(s, pat, i + 1);
    }
}

pub proof fn lemma_rfind_char_bounds(s: Seq<char>, c: char, lo: int, hi: int)
    ensures
        rfind_char(s, c, lo, hi) matches Some(k) ==> lo <= k < hi && s[k] == c,
    decreases hi - lo,
{
    if hi > lo && s[hi - 1] != c {
        lemma_rfind_char_bounds(s, c, lo, hi - 1);
    }
}

fn matches_slice_at(s: &Vec<char>, i: usize, pat: &[char]) -> (r: bool)
    requires
        i + pat@.len() <= s@.len(),
    ensures
        r == matches_at(s@, i as int, pat@),
{
    let n = s.len();
    let mut t: usize = 0;
    while t < pat.len()
        invariant
            t <= pat@.len(),
            n == s@.len(),
            i + pat@.len() <= s@.len(),
            s@.subrange(i as int, i + t) == pat@.subrange(0, t as int),
        decreases pat@.len() - t,
    {
        if s[i + t] != pat[t] {
            proof {
                assert(s@.subrange(i as int, i + pat@.len())[t as int] != pat@[t as int]);
            }
            return false;
        }
        proof {
            assert(s@.subrange(i as int, i + t + 1) == s@.subrange(i as int, i + t).push(s@[i + t]));
            assert(pat@.subrange(0, t + 1) == pat@.subrange(0, t as int).push(pat@[t as int]));
        }
        t = t + 1;
    }
    proof {
        assert(pat@.subrange(0, pat@.len() as int) == pat@);
    }
    true
}

/// The first occurrence of `pat` in `s` at or after `from`.
fn find_seq(s: &Vec<char>, pat: &[char], from: usize) -> (r: Option<usize>)
    requires
        pat@.len() > 0,
    ensures
        match r {
            Some(j) => find_from(s@, pat@, from as int) == Some(j as int),
            None => find_from(s@, pat@, from as int) is None,
        },
{
    let mut k = from;
    while k < s.len() && pat.len() <= s.len() - k
        invariant
            from <= k,
            pat@.len() > 0,
            find_from(s@, pat@, from as int) == find_from(s@, pat@, k as int),
        decreases s@.len() - k,
    {
        if matches_slice_at(s, k, pat) {
            return Some(k);
        }
        k = k + 1;
    }
    None
}

/// The last position in `lo..hi` that holds `c`.
fn rfind_char_in(s: &Vec<char>, c: char, lo: usize, hi: usize) -> (r: Option<usize>)
    requires
        hi <= s@.len(),
    ensures
        match r {
            Some(k) => rfind_char(s@, c, lo as int, hi as int) == Some(k as int),
            None => rfind_char(s@, c, lo as int, hi as int) is None,
        },
{
    let mut h = hi;
    while h > lo
        invariant
            h <= hi,
            hi <= s@.len(),
            rfind_char(s@, c, lo as int, hi as int) == rfind_char(s@, c, lo as int, h as int),
        decreases h,
    {
        if s[h - 1] == c {
            return Some(h - 1);
        }
        h = h - 1;
    }
    None
}

/// Character classes used when reading a markup tag.
#[derive(Clone, Copy, PartialEq, Eq, Structural)]
pub enum CharClass {
    WhiteSpace,
    AsciiWhiteSpace,
    Slash,
}

pub open spec fn in_class(c: char, class: CharClass) -> bool {
    match class {
        CharClass::WhiteSpace => is_white_space(c),
        CharClass::AsciiWhiteSpace => c == ' ' || c == '\t' || c == '\n' || c == '\x0c' || c == '\r',
        CharClass::Slash => c == '/',
    }
}

fn char_in_class(c: char, class: CharClass) -> (r: bool)
    ensures
        r == in_class(c, class),
{
    match class {
        CharClass::WhiteSpace => char_is_whitespace(c),
        CharClass::AsciiWhiteSpace => c == ' ' || c == '\t' || c == '\n' || c == '\x0c' || c == '\r',
        CharClass::Slash => c == '/',
    }
}

/// The first position in `a..b` whose membership in `class` differs from `member` (or `b`).
pub open spec fn skip_forward(s: Seq<char>, a: int, b: int, class: CharClass, member: bool) -> int
    decreases b - a,
{
    if a >= b {
        a
    } else if in_class(s[a], class) == member {
        skip_forward(s, a + 1, b, class, member)
    } else {
        a
    }
}

/// The end of `a..b` after trailing members of `class` are dropped.
pub open spec fn skip_backward(s: Seq<char>, a: int, b: int, class: CharClass) -> int
    decreases b - a,
{
    if b <= a {
        b
    } else if in_class(s[b - 1], class) {
        skip_backward(s, a, b - 1, class)
    } else {
        b
    }
}

proof fn lemma_skip_bounds(s: Seq<char>, a: int, b: int, class: CharClass, member: bool)
    requires
        a <= b,
    ensures
        a <= skip_forward(s, a, b, class, member) <= b,
        a <= skip_backward(s, a, b, class) <= b,
    decreases b - a,
{
    if a < b {
        lemma_skip_bounds(s, a + 1, b, class, member);
        lemma_skip_bounds(s, a, b - 1, class, member);
    }
}

fn skip_forward_exec(s: &Vec<char>, a: usize, b: usize, class: CharClass, member: bool) -> (r: usize)
    requires
        a <= b <= s@.len(),
    ensures
        r == skip_forward(s@, a as int, b as int, class, member),
        a <= r <= b,
{
    let mut k = a;
    while k < b && char_in_class(s[k], class) == member
        invariant
            a <= k <= b,
            b <= s@.len(),
            skip_forward(s@, a as int, b as int, class, member) == skip_forward(s@, k as int, b as int, class, member),
        decreases b - k,
    {
        k = k + 1;
    }
    k
}

fn skip_backward_exec(s: &Vec<char>, a: usize, b: usize, class: CharClass) -> (r: usize)
    requires
        a <= b <= s@.len(),
    ensures
        r == skip_backward(s@, a as int, b as int, class),
        a <= r <= b,
{
    let mut k = b;
    while k > a && char_in_class(s[k - 1], class)
        invariant
            a <= k <= b,
            b <= s@.len(),
            skip_backward(s@, a as int, b as int, class) == skip_backward(s@, a as int, k as int, class),
        decreases k,
    {
        k = k - 1;
    }
    k
}

/// The range of the tag name inside the tag body `a..b`: the body is trimmed of white space,
/// then of leading and trailing slashes, and the first ASCII-whitespace-separated word is taken.
pub open spec fn tag_name_range(s: Seq<char>, a: int, b: int) -> (int, int) {
    let t0 = skip_forward(s, a, b, CharClass::WhiteSpace, true);
    let t1 = skip_backward(s, t0, b, CharClass::WhiteSpace);
    let u0 = skip_forward(s, t0, t1, CharClass::Slash, true);
    let u1 = skip_backward(s, u0, t1, CharClass::Slash);
    let n0 = skip_forward(s, u0, u1, CharClass::AsciiWhiteSpace, true);
    let n1 = skip_forward(s, n0, u1, CharClass::AsciiWhiteSpace, false);
    (n0, n1)
}

/// `s[a..b]` equals the lowercase ASCII word `lit`, ignoring ASCII case.
pub open spec fn word_is(s: Seq<char>, a: int, b: int, lit: Seq<char>) -> bool {
    b - a == lit.len() && forall|k: int| 0 <= k < lit.len() ==> {
        let c = #[trigger] s[a + k];
        c == lit[k] || (c as u32) + 32 == (lit[k] as u32)
    }
}

/// Tags that terminal output drops: `br b strong i em u span font div p`.
pub open spec fn is_markup_tag_name(s: Seq<char>, a: int, b: int) -> bool {
    word_is(s, a, b, seq!['b', 'r']) || word_is(s, a, b, seq!['b'])
        || word_is(s, a, b, seq!['s', 't', 'r', 'o', 'n', 'g']) || word_is(s, a, b, seq!['i'])
        || word_is(s, a, b, seq!['e', 'm']) || word_is(s, a, b, seq!['u'])
        || word_is(s, a, b, seq!['s', 'p', 'a', 'n']) || word_is(s, a, b, seq!['f', 'o', 'n', 't'])
        || word_is(s, a, b, seq!['d', 'i', 'v']) || word_is(s, a, b, seq!['p'])
}

/// Tags that separate words: `br div p`.
pub open spec fn is_break_tag_name(s: Seq<char>, a: int, b: int) -> bool {
    word_is(s, a, b, seq!['b', 'r']) || word_is(s, a, b, seq!['d', 'i', 'v']) || word_is(s, a, b, seq!['p'])
}

fn word_is_exec(s: &Vec<char>, a: usize, b: usize, lit: &[char]) -> (r: bool)
    requires
        a <= b <= s@.len(),
        forall|k: int| 0 <= k < lit@.len() ==> 97 <= (#[trigger] lit@[k] as u32) <= 122,
    ensures
        r == word_is(s@, a as int, b as int, lit@),
{
    if b - a != lit.len() {
        return false;
    }
    let mut k: usize = 0;
    while k < lit.len()
        invariant
            k <= lit@.len(),
            forall|k: int| 0 <= k < lit@.len() ==> 97 <= (#[trigger] lit@[k] as u32) <= 122,
            b - a == lit@.len(),
            b <= s@.len(),
            forall|t: int| 0 <= t < k ==> {
                let c = #[trigger] s@[a + t];
                c == lit@[t] || (c as u32) + 32 == (lit@[t] as u32)
            },
        decreases lit@.len() - k,
    {
        let c = s[a + k];
        let l = lit[k];
        if !(c == l || (c as u32) == (l as u32) - 32) {
            return false;
        }
        k = k + 1;
    }
    true
}

fn is_terminal_markup_tag(s: &Vec<char>, a: usize, b: usize) -> (r: bool)
    requires
        a <= b <= s@.len(),
    ensures
        r == is_markup_tag_name(s@, a as int, b as int),
{
    word_is_exec(s, a, b, &['b', 'r']) || word_is_exec(s, a, b, &['b'])
        || word_is_exec(s, a, b, &['s', 't', 'r', 'o', 'n', 'g']) || word_is_exec(s, a, b, &['i'])
        || word_is_exec(s, a, b, &['e', 'm']) || word_is_exec(s, a, b, &['u'])
        || word_is_exec(s, a, b, &['s', 'p', 'a', 'n']) || word_is_exec(s, a, b, &['f', 'o', 'n', 't'])
        || word_is_exec(s, a, b, &['d', 'i', 'v']) || word_is_exec(s, a, b, &['p'])
}

fn is_break_tag(s: &Vec<char>, a: usize, b: usize) -> (r: bool)
    requires
        a <= b <= s@.len(),
    ensures
        r == is_break_tag_name(s@, a as int, b as int),
{
    word_is_exec(s, a, b, &['b', 'r']) || word_is_exec(s, a, b, &['d', 'i', 'v']) || word_is_exec(s, a, b, &['p'])
}

/// The HTML entity at `i`, decoded, with its length.
pub open spec fn entity_at(s: Seq<char>, i: int) -> Option<(char, int)> {
    if matches_at(s, i, seq!['&', 'l', 't', ';']) {
        Some(('<', 4))
    } else if matches_at(s, i, seq!['&', 'g', 't', ';']) {
        Some(('>', 4))
    } else if matches_at(s, i, seq!['&', 'a', 'm', 'p', ';']) {
        Some(('&', 5))
    } else if matches_at(s, i, seq!['&', 'q', 'u', 'o', 't', ';']) {
        Some(('"', 6))
    } else if matches_at(s, i, seq!['&', '#', '3', '9', ';']) {
        Some(('\'', 5))
    } else {
        None
    }
}

fn matches_lit(s: &Vec<char>, i: usize, pat: &[char]) -> (r: bool)
    ensures
        r == matches_at(s@, i as int, pat@),
{
    if i <= s.len() && pat.len() <= s.len() - i {
        matches_slice_at(s, i, pat)
    } else {
        false
    }
}

fn decode_entity(s: &Vec<char>, i: usize) -> (r: Option<(char, usize)>)
    ensures
        match r {
            Some((c, n)) => entity_at(s@, i as int) == Some((c, n as int)),
            None => entity_at(s@, i as int) is None,
        },
{
    if matches_lit(s, i, &['&', 'l', 't', ';']) {
        Some(('<', 4))
    } else if matches_lit(s, i, &['&', 'g', 't', ';']) {
        Some(('>', 4))
    } else if matches_lit(s, i, &['&', 'a', 'm', 'p', ';']) {
        Some(('&', 5))
    } else if matches_lit(s, i, &['&', 'q', 'u', 'o', 't', ';']) {
        Some(('"', 6))
    } else if matches_lit(s, i, &['&', '#', '3', '9', ';']) {
        Some(('\'', 5))
    } else {
        None
    }
}

/// `out` followed by a single space, unless it is empty or already ends in white space.
pub open spec fn separated(out: Seq<char>) -> Seq<char> {
    if out.len() > 0 && !is_white_space(out.last()) { out.push(' ') } else { out }
}

fn push_text_separator(output: &mut Vec<char>)
    ensures
        final(output)@ == separated(old(output)@),
{
    let n = output.len();
    if n > 0 && !char_is_whitespace(output[n - 1]) {
        output.push(' ');
    }
}

/// The markup-normalized text of `s` from `i` on, appended to `out`: entities are decoded,
/// terminal markup tags are dropped, and break tags leave a word separator.
pub open spec fn markup_from(s: Seq<char>, i: int, out: Seq<char>) -> Seq<char>
    decreases s.len() - i,
{
    if i < 0 || i >= s.len() {
        out
    } else {
        match entity_at(s, i) {
            Some((c, n)) => markup_from(s, i + n, out.push(c)),
            None => {
                let close = find_from(s, seq!['>'], i);
                proof {
                    lemma_find_from_bounds(s, seq!['>'], i);
                }
                if s[i] == '<' && close is Some && is_markup_tag_name(s, tag_name_range(s, i + 1, close->0).0, tag_name_range(s, i + 1, close->0).1) {
                    let next = if is_break_tag_name(s, tag_name_range(s, i + 1, close->0).0, tag_name_range(s, i + 1, close->0).1) {
                        separated(out)
                    } else {
                        out
                    };
                    markup_from(s, close->0 + 1, next)
                } else {
                    markup_from(s, i + 1, out.push(s[i]))
                }
            },
        }
    }
}

fn normalize_mermaid_markup(input: &str) -> (r: String)
    ensures
        r@ == markup_from(input@, 0, seq![]),
{
    let s = chars_of(input);
    let mut output: Vec<char> = Vec::new();
    let mut index: usize = 0;
    while index < s.len()
        invariant
            index <= s@.len(),
            markup_from(s@, index as int, output@) == markup_from(s@, 0, seq![]),
        decreases s@.len() - index,
    {
        if let Some((decoded, consumed)) = decode_entity(&s, index) {
            output.push(decoded);
            index = index + consumed;
            continue;
        }
        proof {
            lemma_find_from_bounds(s@, seq!['>'], index as int);
        }
        if s[index] == '<' {
            let close = find_seq(&s, &['>'], index);
            proof {
                assert(seq!['>'] == (['>'])@);
            }
            if let Some(end) = close {
                let t0 = skip_forward_exec(&s, index + 1, end, CharClass::WhiteSpace, true);
                let t1 = skip_backward_exec(&s, t0, end, CharClass::WhiteSpace);
                let u0 = skip_forward_exec(&s, t0, t1, CharClass::Slash, true);
                let u1 = skip_backward_exec(&s, u0, t1, CharClass::Slash);
                let n0 = skip_forward_exec(&s, u0, u1, CharClass::AsciiWhiteSpace, true);
                let n1 = skip_forward_exec(&s, n0, u1, CharClass::AsciiWhiteSpace, false);
                if is_terminal_markup_tag(&s, n0, n1) {
                    if is_break_tag(&s, n0, n1) {
                        push_text_separator(&mut output);
                    }
                    index = end + 1;
                    continue;
                }
            }
        }
        output.push(s[index]);
        index = index + 1;
    }
    string_of(&output)
}

/// `s` from `i` on with each paired occurrence of `d ... d` replaced by its content; an
/// unpaired delimiter is kept.
pub open spec fn paired_from(s: Seq<char>, d: Seq<char>, i: int) -> Seq<char>
    decreases s.len() - i,
{
    if i < 0 || i > s.len() || d.len() == 0 {
        seq![]
    } else {
        proof {
            lemma_find_from_bounds(s, d, i);
        }
        match find_from(s, d, i) {
            None => s.subrange(i, s.len() as int),
            Some(start) => {
                proof {
                    lemma_find_from_bounds(s, d, start + d.len());
                }
                match find_from(s, d, start + d.len()) {
                    None => s.subrange(i, start) + d + s.subrange(start + d.len(), s.len() as int),
                    Some(end) => s.subrange(i, start) + s.subrange(start + d.len(), end)
                        + paired_from(s, d, end + d.len()),
                }
            },
        }
    }
}

fn strip_paired_delimiter(input: &str, delimiter: &[char]) -> (r: String)
    requires
        delimiter@.len() > 0,
    ensures
        r@ == paired_from(input@, delimiter@, 0),
{
    let s = chars_of(input);
    let n = s.len();
    let dl = delimiter.len();
    let mut output: Vec<char> = Vec::new();
    let mut rest: usize = 0;
    loop
        invariant
            n == s@.len(),
            s@ == input@,
            rest <= s@.len(),
            dl == delimiter@.len(),
            dl > 0,
            output@ + paired_from(s@, delimiter@, rest as int) == paired_from(s@, delimiter@, 0),
        decreases s@.len() - rest,
    {
        proof {
            lemma_find_from_bounds(s@, delimiter@, rest as int);
        }
        match find_seq(&s, delimiter, rest) {
            None => {
                proof {
                    assert(paired_from(s@, delimiter@, rest as int) == s@.subrange(rest as int, s@.len() as int));
                }
                let ghost before = output@;
                let tail = slice_chars(&s, rest, s.len());
                extend_chars(&mut output, &tail);
                proof {
                    assert(output@ == before + s@.subrange(rest as int, s@.len() as int));
                    assert(output@ == paired_from(s@, delimiter@, 0));
                }
                return string_of(&output);
            },
            Some(start) => {
                proof {
                    lemma_find_from_bounds(s@, delimiter@, start + dl);
                }
                let before = slice_chars(&s, rest, start);
                extend_chars(&mut output, &before);
                match find_seq(&s, delimiter, start + dl) {
                    None => {
                        let ghost before = output@;
                        proof {
                            assert(paired_from(s@, delimiter@, rest as int) == s@.subrange(rest as int, start as int)
                                + delimiter@ + s@.subrange(start + dl, s@.len() as int));
                        }
                        extend_chars(&mut output, delimiter);
                        let tail = slice_chars(&s, start + dl, s.len());
                        extend_chars(&mut output, &tail);
                        proof {
                            assert(output@ == before + delimiter@ + s@.subrange(start + dl, s@.len() as int));
                            assert(before + (delimiter@ + s@.subrange(start + dl, s@.len() as int)) == output@);
                            assert(output@ == paired_from(s@, delimiter@, 0));
                        }
                        return string_of(&output);
                    },
                    Some(end) => {
                        proof {
                            lemma_find_from_bounds(s@, delimiter@, start + dl);
                        }
                        let content = slice_chars(&s, start + dl, end);
                        extend_chars(&mut output, &content);
                        rest = end + dl;
                    },
                }
            },
        }
    }
}

/// A copy of `s[a..b]`.
fn slice_chars(s: &Vec<char>, a: usize, b: usize) -> (r: Vec<char>)
    requires
        a <= b <= s@.len(),
    ensures
        r@ == s@.subrange(a as int, b as int),
{
    let mut out: Vec<char> = Vec::new();
    let mut k = a;
    while k < b
        invariant
            a <= k <= b,
            b <= s@.len(),
            out@ == s@.subrange(a as int, k as int),
        decreases b - k,
    {
        out.push(s[k]);
        proof {
            assert(s@.subrange(a as int, k + 1) == s@.subrange(a as int, k as int).push(s@[k as int]));
        }
        k = k + 1;
    }
    out
}

/// A parser artifact `**text*` (an opening `**` with no closing pair, and a single closing
/// `*`) loses its asterisks; any other text is kept.
pub open spec fn unbalanced_bold_removed(s: Seq<char>) -> Seq<char> {
    let d = seq!['*', '*'];
    match find_from(s, d, 0) {
        None => s,
        Some(open) => {
            if find_from(s, d, open + 2) is Some {
                s
            } else {
                match rfind_char(s, '*', open + 2, s.len() as int) {
                    None => s,
                    Some(close) => s.subrange(0, open) + s.subrange(open + 2, close)
                        + s.subrange(close + 1, s.len() as int),
                }
            }
        },
    }
}

fn strip_unbalanced_bold_artifact(input: &str) -> (r: String)
    ensures
        r@ == unbalanced_bold_removed(input@),
{
    let s = chars_of(input);
    let n = s.len();
    let d = ['*', '*'];
    proof {
        assert(d@ == seq!['*', '*']);
        lemma_find_from_bounds(s@, seq!['*', '*'], 0);
    }
    let open = match find_seq(&s, &d, 0) {
        None => return string_of(&s),
        Some(open) => open,
    };
    let content_start = open + 2;
    if find_seq(&s, &d, content_start).is_some() {
        return string_of(&s);
    }
    proof {
        lemma_rfind_char_bounds(s@, '*', content_start as int, s@.len() as int);
    }
    let close = match rfind_char_in(&s, '*', content_start, s.len()) {
        None => return string_of(&s),
        Some(close) => close,
    };
    let mut output = slice_chars(&s, 0, open);
    let middle = slice_chars(&s, content_start, close);
    let tail = slice_chars(&s, close + 1, s.len());
    extend_chars(&mut output, &middle);
    extend_chars(&mut output, &tail);
    string_of(&output)
}

/// Zero-width characters that carry no visible mark of their own.
pub open spec fn is_leading_ignorable(c: char) -> bool {
    c == '\u{200b}' || c == '\u{200c}' || c == '\u{200d}' || c == '\u{2060}'
        || in_range(c, 0xfe00, 0xfe0f) || c == '\u{feff}' || in_range(c, 0xe0100, 0xe01ef)
}

fn is_leading_default_ignorable(ch: char) -> (r: bool)
    ensures
        r == is_leading_ignorable(ch),
{
    let u = ch as u32;
    u == 0x200b || u == 0x200c || u == 0x200d || u == 0x2060 || (0xfe00 <= u && u <= 0xfe0f)
        || u == 0xfeff || (0xe0100 <= u && u <= 0xe01ef)
}

/// The characters of `g` that are not ignorable.
pub open spec fn visible_marks(g: Seq<char>) -> Seq<char>
    decreases g.len(),
{
    if g.len() == 0 {
        g
    } else if is_leading_ignorable(g.last()) {
        visible_marks(g.drop_last())
    } else {
        visible_marks(g.drop_last()).push(g.last())
    }
}

/// The clusters `gs[k..]` laid out so that no zero-width cluster is left without a base:
/// before the first visible base, a zero-width cluster is dropped if it has no visible mark,
/// and is otherwise placed on a dotted circle.
pub open spec fn stabilized_from(gs: Seq<Seq<char>>, k: int, has_base: bool) -> Seq<char>
    decreases gs.len() - k,
{
    if k < 0 || k >= gs.len() {
        seq![]
    } else {
        let g = gs[k];
        let w = unicode_str_width(g);
        if w == 0 && !has_base {
            let marks = visible_marks(g);
            if marks.len() == 0 {
                stabilized_from(gs, k + 1, false)
            } else {
                seq!['\u{25cc}'] + marks + stabilized_from(gs, k + 1, true)
            }
        } else {
            g + stabilized_from(gs, k + 1, has_base || w > 0)
        }
    }
}

pub open spec fn stabilized(s: Seq<char>) -> Seq<char> {
    stabilized_from(grapheme_clusters(s), 0, false)
}

fn visible_marks_of(g: &Vec<char>) -> (r: Vec<char>)
    ensures
        r@ == visible_marks(g@),
{
    let mut out: Vec<char> = Vec::new();
    let mut k: usize = 0;
    while k < g.len()
        invariant
            k <= g@.len(),
            out@ == visible_marks(g@.subrange(0, k as int)),
        decreases g@.len() - k,
    {
        proof {
            assert(g@.subrange(0, k + 1).drop_last() == g@.subrange(0, k as int));
        }
        if !is_leading_default_ignorable(g[k]) {
            out.push(g[k]);
        }
        k = k + 1;
    }
    proof {
        assert(g@.subrange(0, g@.len() as int) == g@);
    }
    out
}

fn stabilize_leading_graphemes(input: &str) -> (r: String)
    ensures
        r@ == stabilized(input@),
{
    let gs = graphemes(input);
    let ghost clusters = grapheme_clusters(input@);
    let mut output: Vec<char> = Vec::new();
    let mut has_base = false;
    let mut k: usize = 0;
    while k < gs.len()
        invariant
            k <= gs@.len(),
            clusters == gs@.map_values(|g: String| g@),
            output@ + stabilized_from(clusters, k as int, has_base) == stabilized(input@),
        decreases gs@.len() - k,
    {
        let grapheme = &gs[k];
        let width = str_width(grapheme.as_str());
        let g = chars_of(grapheme.as_str());
        proof {
            assert(clusters[k as int] == g@);
        }
        if width == 0 && !has_base {
            let visible = visible_marks_of(&g);
            if visible.len() == 0 {
                k = k + 1;
                continue;
            }
            let ghost before = output@;
            output.push('\u{25cc}');
            extend_chars(&mut output, &visible);
            has_base = true;
            proof {
                assert(before + (seq!['\u{25cc}'] + visible@ + stabilized_from(clusters, k + 1, true))
                    == output@ + stabilized_from(clusters, k + 1, true));
            }
            k = k + 1;
            continue;
        }
        let ghost before = output@;
        extend_chars(&mut output, &g);
        proof {
            assert(before + (g@ + stabilized_from(clusters, k + 1, has_base || width > 0))
                == output@ + stabilized_from(clusters, k + 1, has_base || width > 0));
        }
        has_base = has_base || width > 0;
        k = k + 1;
    }
    proof {
        assert(output@ + seq![] == output@);
    }
    string_of(&output)
}

/// What label normalization makes of `s`: terminal controls and bidi controls removed, markup
/// normalized, paired `**`/`__` emphasis removed, an unbalanced bold artifact removed, and
/// leading zero-width clusters stabilized.
pub open spec fn sanitized(s: Seq<char>) -> Seq<char> {
    let controls_removed = stripped(s, false, true);
    let markup_removed = markup_from(controls_removed, 0, seq![]);
    let bold_removed = paired_from(markup_removed, seq!['*', '*'], 0);
    let emphasis_removed = paired_from(bold_removed, seq!['_', '_'], 0);
    stabilized(unbalanced_bold_removed(emphasis_removed))
}

/// Turns untrusted label text into plain, single-line, printable terminal text.
pub struct TerminalTextNormalizer;

impl TerminalTextNormalizer {
    pub fn normalize(input: &str) -> (r: String)
        ensures
            r@ == sanitized(input@),
    {
        let controls_removed = strip_terminal_controls(input);
        let markup_removed = normalize_mermaid_markup(controls_removed.as_str());
        let bold = ['*', '*'];
        let emphasis = ['_', '_'];
        proof {
            assert(bold@ == seq!['*', '*']);
            assert(emphasis@ == seq!['_', '_']);
        }
        let bold_removed = strip_paired_delimiter(markup_removed.as_str(), &bold);
        let emphasis_removed = strip_paired_delimiter(bold_removed.as_str(), &emphasis);
        let parser_artifacts_removed = strip_unbalanced_bold_artifact(emphasis_removed.as_str());
        stabilize_leading_graphemes(parser_artifacts_removed.as_str())
    }
}

/// Sanitize label text for terminal rendering by removing all terminal-control sequences,
/// markup and emphasis before the text is measured or placed.
pub fn sanitize_label_text(input: &str) -> (r: String)
    ensures
        r@ == sanitized(input@),
{
    TerminalTextNormalizer::normalize(input)
}

} // verus!
