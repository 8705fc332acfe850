//! Final render bounds, the structured semantic section, and the text an adapter returns.

use vstd::prelude::*;
use crate::ansi::{AnsiEncoder, AnsiRole, is_bidi_format_control, is_bidi_control, strip_ansi, stripped, role_prefix, mode_suffix};
use crate::adapters::chart_primitives::{split_lines, split_lines_of};
use crate::engine::{model_value, json_clone, sort_objects, compact_json, pretty_json};
use crate::input::SourceModel;
use crate::error::{MermansiError, Result};
use crate::options::{MAX_CANVAS_CELLS, MAX_OUTPUT_BYTES, MermansiOptions, OutputMode};
use crate::text::{chars_of, string_of, str_width, unicode_str_width, is_control_char, char_is_control};
use crate::canvas::all_white;
use crate::adapters::json::render_json;
use crate::adapters::{render_native, runtime_unavailable, terminal_drawing};

verus! {

/// The number of bytes of `s` in UTF-8, as `str::len` reports it.
pub open spec fn byte_len(s: Seq<char>) -> usize {
    vstd::utf8::encode_utf8(s).len() as usize
}

/// `current + additional`, clamped to `usize::MAX`.
pub open spec fn saturating_sum(a: usize, b: usize) -> usize {
    if a + b > usize::MAX { usize::MAX } else { (a + b) as usize }
}

pub open spec fn capacity_error(current: usize, additional: usize) -> MermansiError {
    MermansiError::RenderLimit { context: "output bytes", requested: saturating_sum(current, additional), limit: MAX_OUTPUT_BYTES }
}

/// Refuses output that would grow past [`MAX_OUTPUT_BYTES`].
pub fn ensure_byte_capacity(current: usize, additional: usize) -> (r: Result<()>)
    ensures
        saturating_sum(current, additional) > MAX_OUTPUT_BYTES ==> r == Err::<(), MermansiError>(capacity_error(current, additional)),
        saturating_sum(current, additional) <= MAX_OUTPUT_BYTES ==> r is Ok,
{
    let requested = current.saturating_add(additional);
    if requested > MAX_OUTPUT_BYTES {
        return Err(MermansiError::RenderLimit { context: "output bytes", requested, limit: MAX_OUTPUT_BYTES });
    }
    Ok(())
}

/// What an adapter produced: the readable preview and, in complete output, the semantic
/// section that follows it.
#[derive(Debug)]
pub struct AdapterOutput {
    pub preview: String,
    pub semantic: Option<String>,
}

/// The preview followed by the semantic section, separated by one blank line.
pub open spec fn joined(preview: Seq<char>, semantic: Option<Seq<char>>) -> Seq<char> {
    match semantic {
        None => preview,
        Some(s) => if preview.len() == 0 {
            s
        } else if preview.last() == '\n' {
            preview + seq!['\n'] + s
        } else {
            preview + seq!['\n', '\n'] + s
        },
    }
}

/// The bytes `joined` adds to the preview.
pub open spec fn joined_extra(preview: Seq<char>, semantic: Option<Seq<char>>) -> int {
    match semantic {
        None => 0,
        Some(s) => (if preview.len() == 0 { 0int } else if preview.last() == '\n' { 1int } else { 2int }) + byte_len(s) as int,
    }
}

impl AdapterOutput {
    /// The whole text: refused when it would exceed [`MAX_OUTPUT_BYTES`].
    pub fn to_text(&self) -> (r: Result<String>)
        ensures
            match r {
                Ok(t) => t@ == joined(self.preview@, match self.semantic { Some(s) => Some(s@), None => None }),
                Err(e) => e matches MermansiError::RenderLimit { context, .. } && context == "output bytes",
            },
            r is Err <==> byte_len(self.preview@) as int + joined_extra(self.preview@, match self.semantic { Some(s) => Some(s@), None => None }) > MAX_OUTPUT_BYTES,
    {
        let preview_chars = chars_of(self.preview.as_str());
        let preview_len = self.preview.as_str().len();
        let separator: usize = match &self.semantic {
            Some(_) => if preview_chars.len() == 0 {
                0
            } else if preview_chars[preview_chars.len() - 1] == '\n' {
                1
            } else {
                2
            },
            None => 0,
        };
        let semantic_len: usize = match &self.semantic {
            Some(s) => s.as_str().len(),
            None => 0,
        };
        match ensure_byte_capacity(preview_len, separator.saturating_add(semantic_len)) {
            Ok(()) => {},
            Err(e) => return Err(e),
        }
        let mut output = self.preview.clone();
        match &self.semantic {
            Some(semantic) => {
                if preview_chars.len() > 0 {
                    if preview_chars[preview_chars.len() - 1] != '\n' {
                        output.append("\n");
                    }
                    output.append("\n");
                }
                output.append(semantic.as_str());
                proof {
                    reveal_strlit("\n");
                    let p = self.preview@;
                    if p.len() > 0 {
                        if p.last() == '\n' {
                            assert(output@ =~= p + seq!['\n'] + semantic@);
                        } else {
                            assert(output@ =~= p + seq!['\n', '\n'] + semantic@);
                        }
                    } else {
                        assert(output@ =~= semantic@);
                    }
                }
            },
            None => {},
        }
        Ok(output)
    }
}

/// The one-character text of `c`, or its `\uXXXX` escape where it would act on a terminal.
pub open spec fn needs_escape(c: char) -> bool {
    (is_control_char(c) && !(c == '\n' || c == '\r' || c == '\t')) || is_bidi_control(c)
}

pub open spec fn hex_digit(d: u32) -> char {
    if d < 10 { (('0' as u32) + d) as char } else { (('a' as u32) + d - 10) as char }
}

/// `\u` and the four lowercase hexadecimal digits of `c`.
pub open spec fn unicode_escape(c: char) -> Seq<char> {
    let u = c as u32;
    seq!['\\', 'u', hex_digit((u / 4096) % 16), hex_digit((u / 256) % 16), hex_digit((u / 16) % 16), hex_digit(u % 16)]
}

pub open spec fn escape_piece(c: char) -> Seq<char> {
    if needs_escape(c) { unicode_escape(c) } else { seq![c] }
}

/// `input[i..]` escaped after `out`; refused once the escaped text would exceed
/// [`MAX_OUTPUT_BYTES`].
pub open spec fn escaped_from(input: Seq<char>, i: int, out: Seq<char>) -> Result<Seq<char>>
    decreases input.len() - i,
{
    if i < 0 || i >= input.len() {
        Ok(out)
    } else {
        let piece = escape_piece(input[i]);
        if saturating_sum(byte_len(out), byte_len(piece)) > MAX_OUTPUT_BYTES {
            Err(capacity_error(byte_len(out), byte_len(piece)))
        } else {
            escaped_from(input, i + 1, out + piece)
        }
    }
}

fn hex_char(d: u32) -> (c: char)
    requires
        d < 16,
    ensures
        c == hex_digit(d),
{
    if d < 10 { ((('0' as u32) + d) as u8) as char } else { ((('a' as u32) + d - 10) as u8) as char }
}

/// Escapes every control character (but newline, carriage return and tab) and every
/// bidirectional control of JSON text as `\uXXXX`, so that the text cannot act on a terminal.
pub fn escape_terminal_json_controls(input: &str) -> (r: Result<String>)
    ensures
        match escaped_from(input@, 0, seq![]) {
            Ok(t) => r matches Ok(s) && s@ == t,
            Err(e) => r == Err::<String, MermansiError>(e),
        },
{
    let chars = chars_of(input);
    let mut output = String::new();
    let mut i: usize = 0;
    while i < chars.len()
        invariant
            i <= chars@.len(),
            chars@ == input@,
            escaped_from(input@, 0, seq![]) == escaped_from(input@, i as int, output@),
        decreases chars@.len() - i,
    {
        let ch = chars[i];
        proof {
            assert(ch == input@[i as int]);
        }
        let escape = (char_is_control(ch) && !(ch == '\n' || ch == '\r' || ch == '\t')) || is_bidi_format_control(ch);
        let mut piece = String::new();
        if escape {
            let u = ch as u32;
            let digits = [hex_char((u / 4096) % 16), hex_char((u / 256) % 16), hex_char((u / 16) % 16), hex_char(u % 16)];
            piece.append("\\u");
            let tail = string_of(digits.as_slice());
            piece.append(tail.as_str());
            proof {
                reveal_strlit("\\u");
                assert(piece@ =~= escape_piece(ch));
            }
        } else {
            crate::text::push_char(&mut piece, ch);
            proof {
                assert(piece@ =~= escape_piece(ch));
            }
        }
        let current = output.as_str().len();
        let additional = piece.as_str().len();
        match ensure_byte_capacity(current, additional) {
            Ok(()) => {},
            Err(e) => return Err(e),
        }
        output.append(piece.as_str());
        i = i + 1;
    }
    Ok(output)
}

/// The widest line of `ls[..n]`, measured without terminal sequences.
pub open spec fn widest_line(ls: Seq<Seq<char>>, n: int) -> int
    decreases n,
{
    if n <= 0 || n > ls.len() {
        0
    } else {
        let w = unicode_str_width(stripped(ls[n - 1], true, false)) as int;
        let rest = widest_line(ls, n - 1);
        if w > rest { w } else { rest }
    }
}

/// The final bounds check of a render: total bytes, then the preview's rows, columns and
/// cells against the options (in that order).
pub open spec fn output_bounds(output_bytes: int, preview: Seq<char>, opts: MermansiOptions) -> Result<()> {
    let ls = split_lines(preview);
    let rows = ls.len() as int;
    let width = widest_line(ls, rows);
    if output_bytes > MAX_OUTPUT_BYTES {
        Err(MermansiError::RenderLimit { context: "output bytes", requested: output_bytes as usize, limit: MAX_OUTPUT_BYTES })
    } else if rows > opts.max_height {
        Err(MermansiError::RenderLimit { context: "output rows", requested: rows as usize, limit: opts.max_height })
    } else if width > opts.max_width {
        Err(MermansiError::RenderLimit { context: "output columns", requested: width as usize, limit: opts.max_width })
    } else if width * rows > MAX_CANVAS_CELLS {
        Err(MermansiError::RenderLimit {
            context: "output cells",
            requested: if width * rows > usize::MAX { usize::MAX } else { (width * rows) as usize },
            limit: MAX_CANVAS_CELLS,
        })
    } else {
        Ok(())
    }
}

/// Checks a finished render against the output limits and the preview against the options'
/// width and height.
pub fn validate_output(output: &str, preview: &str, opts: &MermansiOptions) -> (r: Result<()>)
    ensures
        r == output_bounds(byte_len(output@) as int, preview@, *opts),
{
    let output_bytes = output.len();
    if output_bytes > MAX_OUTPUT_BYTES {
        return Err(MermansiError::RenderLimit { context: "output bytes", requested: output_bytes, limit: MAX_OUTPUT_BYTES });
    }
    let chars = chars_of(preview);
    let lines = split_lines_of(&chars);
    let ghost ls = split_lines(preview@);
    let mut rows: usize = 0;
    let mut max_width: usize = 0;
    while rows < lines.len()
        invariant
            rows <= lines@.len(),
            lines@.map_values(|l: Vec<char>| l@) == ls,
            max_width == widest_line(ls, rows as int),
        decreases lines@.len() - rows,
    {
        let line = string_of(lines[rows].as_slice());
        let plain = strip_ansi(line.as_str());
        let w = str_width(plain.as_str());
        proof {
            assert(ls[rows as int] == lines@[rows as int]@);
        }
        if w > max_width {
            max_width = w;
        }
        rows = rows + 1;
    }
    if rows > opts.max_height {
        return Err(MermansiError::RenderLimit { context: "output rows", requested: rows, limit: opts.max_height });
    }
    if max_width > opts.max_width {
        return Err(MermansiError::RenderLimit { context: "output columns", requested: max_width, limit: opts.max_width });
    }
    let cells = match max_width.checked_mul(rows) {
        Some(cells) => cells,
        None => {
            return Err(MermansiError::RenderLimit { context: "output cells", requested: usize::MAX, limit: MAX_CANVAS_CELLS });
        },
    };
    if cells > MAX_CANVAS_CELLS {
        return Err(MermansiError::RenderLimit { context: "output cells", requested: cells, limit: MAX_CANVAS_CELLS });
    }
    Ok(())
}

/// The first line of the semantic section: the family's header, painted as a section header.
pub open spec fn semantic_header(family: Seq<char>, opts: MermansiOptions) -> Seq<char> {
    role_prefix(opts.color_mode, AnsiRole::SectionHeader)@ + seq!['['] + family
        + seq![' ', 's', 'e', 'm', 'a', 'n', 't', 'i', 'c', ' ', 'm', 'o', 'd', 'e', 'l', ']']
        + mode_suffix(opts.color_mode)@ + seq!['\n']
}

/// Whether `section` is a semantic section of `family`: its painted header line first, and a
/// line feed last.
pub open spec fn opens_section(section: Seq<char>, family: Seq<char>, opts: MermansiOptions) -> bool {
    &&& section.len() >= semantic_header(family, opts).len()
    &&& section.subrange(0, semantic_header(family, opts).len() as int) == semantic_header(family, opts)
    &&& section.last() == '\n'
}

/// The JSON value of the semantic model: the projected model of a diagram, or a copy of the
/// raw JSON value. A projection that fails is a parse error.
fn model_json(model: &SourceModel) -> (r: Result<serde_json::Value>)
    ensures
        r matches Err(e) ==> e is Parse,
{
    match model {
        SourceModel::Diagram(parsed) => match model_value(parsed) {
            Ok(value) => Ok(value),
            Err(e) => Err(MermansiError::Parse(e)),
        },
        SourceModel::Json(value) => Ok(json_clone(value)),
    }
}

/// The terminal preview of a model: the terminal renderer's drawing of a diagram, or the box
/// tree of a JSON value.
pub fn render_preview(model: &SourceModel, opts: &MermansiOptions) -> (r: Result<String>)
{
    match model {
        SourceModel::Diagram(parsed) => match render_native(parsed, opts) {
            Some(drawn) => drawn,
            None => match terminal_drawing(parsed, opts) {
                Some(Ok(text)) => Ok(text),
                Some(Err(e)) => Err(MermansiError::AsciiRender(e)),
                None => Err(runtime_unavailable()),
            },
        },
        SourceModel::Json(value) => render_json(value, opts),
    }
}

/// The compact JSON size of a value, refused beyond [`MAX_OUTPUT_BYTES`].
fn ensure_value_within_limit(value: &serde_json::Value) -> (r: Result<()>)
    ensures
        r matches Err(e) ==> (e is StructuredSerialization
            || (e matches MermansiError::RenderLimit { context, limit, .. } && context == "semantic model bytes"
                && limit == MAX_OUTPUT_BYTES)),
{
    let compact = match compact_json(value) {
        Ok(text) => text,
        Err(e) => return Err(MermansiError::StructuredSerialization(e)),
    };
    let requested = compact.as_str().len();
    if requested > MAX_OUTPUT_BYTES {
        return Err(MermansiError::RenderLimit { context: "semantic model bytes", requested, limit: MAX_OUTPUT_BYTES });
    }
    Ok(())
}

/// Refuses a semantic model whose compact JSON exceeds [`MAX_OUTPUT_BYTES`].
pub fn ensure_serialized_model_within_limit(model: &SourceModel) -> (r: Result<()>)
    ensures
        r matches Err(e) ==> (e is Parse || e is StructuredSerialization
            || (e matches MermansiError::RenderLimit { context, limit, .. } && context == "semantic model bytes"
                && limit == MAX_OUTPUT_BYTES)),
{
    match model {
        SourceModel::Diagram(parsed) => {
            let value = match model_value(parsed) {
                Ok(value) => value,
                Err(e) => return Err(MermansiError::Parse(e)),
            };
            ensure_value_within_limit(&value)
        },
        SourceModel::Json(value) => ensure_value_within_limit(value),
    }
}

/// The semantic section: the painted header line, then the model as canonical (key-sorted)
/// indented JSON with terminal controls escaped, then a newline.
pub fn render_semantic_section(family: &str, model: &SourceModel, opts: &MermansiOptions) -> (r: Result<String>)
    ensures
        r matches Ok(s) ==> s@.len() >= semantic_header(family@, *opts).len()
            && s@.subrange(0, semantic_header(family@, *opts).len() as int) == semantic_header(family@, *opts)
            && s@.last() == '\n',
{
    let mut header = String::from_str("[");
    header.append(family);
    header.append(" semantic model]");
    let encoder = AnsiEncoder::new(opts.color_mode);
    let painted = encoder.paint(AnsiRole::SectionHeader, header.as_str());
    match ensure_byte_capacity(0, painted.as_str().len().saturating_add(1)) {
        Ok(()) => {},
        Err(e) => return Err(e),
    }
    let mut semantic = painted;
    semantic.append("\n");
    let ghost head = semantic@;
    proof {
        reveal_strlit("[");
        reveal_strlit(" semantic model]");
        reveal_strlit("\n");
        assert(head =~= semantic_header(family@, *opts));
    }
    let mut value = match model_json(model) {
        Ok(value) => value,
        Err(e) => return Err(e),
    };
    sort_objects(&mut value);
    let pretty = match pretty_json(&value) {
        Ok(text) => text,
        Err(e) => return Err(MermansiError::StructuredSerialization(e)),
    };
    let written = semantic.as_str().len().saturating_add(pretty.as_str().len());
    if written > MAX_OUTPUT_BYTES {
        return Err(MermansiError::RenderLimit { context: "output bytes", requested: written, limit: MAX_OUTPUT_BYTES });
    }
    let escaped = match escape_terminal_json_controls(pretty.as_str()) {
        Ok(text) => text,
        Err(e) => return Err(e),
    };
    match ensure_byte_capacity(semantic.as_str().len(), escaped.as_str().len()) {
        Ok(()) => {},
        Err(e) => return Err(e),
    }
    semantic.append(escaped.as_str());
    match ensure_byte_capacity(semantic.as_str().len(), 1) {
        Ok(()) => {},
        Err(e) => return Err(e),
    }
    semantic.append("\n");
    proof {
        assert(semantic@.subrange(0, head.len() as int) =~= head);
    }
    Ok(semantic)
}

/// The adapter output of a model: in concise mode the preview alone, or the semantic section
/// where the preview shows nothing; in complete mode the preview followed by the semantic
/// section, whose size is checked before the preview is rendered.
pub fn render_structured_adapter<F: FnOnce() -> Result<String>>(family: &str, model: &SourceModel,
    opts: &MermansiOptions, render_preview: F) -> (r: Result<AdapterOutput>)
    requires
        call_requires(render_preview, ()),
    ensures
        r matches Ok(out) ==> (opts.output_mode == OutputMode::Complete <==> out.semantic is Some),
        r matches Ok(out) ==> (out.semantic matches Some(sem) ==> opens_section(sem@, family@, *opts)),
        r matches Ok(out) ==> (opts.output_mode == OutputMode::Complete ==>
            call_ensures(render_preview, (), Ok::<String, MermansiError>(out.preview))),
        r matches Ok(out) ==> (opts.output_mode == OutputMode::Concise ==>
            (call_ensures(render_preview, (), Ok::<String, MermansiError>(out.preview)) && !all_white(out.preview@))
            || (out.preview@.subrange(0, semantic_header(family@, *opts).len() as int) == semantic_header(family@, *opts)
                && exists|p: String| call_ensures(render_preview, (), Ok::<String, MermansiError>(p)) && all_white(#[trigger] p@))),
        opts.output_mode == OutputMode::Concise ==> exists|p: Result<String>| #[trigger] call_ensures(render_preview, (), p)
            && (p matches Err(e) ==> r == Err::<AdapterOutput, MermansiError>(e))
            && (p matches Ok(t) ==> (!all_white(t@) ==> r == Ok::<AdapterOutput, MermansiError>(
                AdapterOutput { preview: t, semantic: None }))),
{
    match opts.output_mode {
        OutputMode::Concise => {
            let drawn = render_preview();
            let preview = match drawn {
                Ok(text) => text,
                Err(e) => return Err(e),
            };
            assert(drawn == Ok::<String, MermansiError>(preview));
            let preview_chars = chars_of(preview.as_str());
            if !crate::adapters::chart_primitives::is_white_line(&preview_chars) {
                return Ok(AdapterOutput { preview, semantic: None });
            }
            match ensure_serialized_model_within_limit(model) {
                Ok(()) => {},
                Err(e) => return Err(e),
            }
            let semantic = match render_semantic_section(family, model, opts) {
                Ok(text) => text,
                Err(e) => return Err(e),
            };
            Ok(AdapterOutput { preview: semantic, semantic: None })
        },
        OutputMode::Complete => {
            match ensure_serialized_model_within_limit(model) {
                Ok(()) => {},
                Err(e) => return Err(e),
            }
            let preview = match render_preview() {
                Ok(text) => text,
                Err(e) => return Err(e),
            };
            let semantic = match render_semantic_section(family, model, opts) {
                Ok(text) => text,
                Err(e) => return Err(e),
            };
            Ok(AdapterOutput { preview, semantic: Some(semantic) })
        },
    }
}

} // verus!
