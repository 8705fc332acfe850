//! Terminal-native rendering of Mermaid diagrams as deterministic ASCII or Unicode text.
//!
//! Rendering the same Mermaid source text with the same options always produces the same
//! output. Sources are parsed by the Mermaid parser; diagrams are drawn by the terminal
//! renderer of the same toolchain, followed (in complete output) by the canonical semantic
//! model. The canvas, the chart primitives and the box router are the library's own.

pub mod error;
pub mod options;
pub mod text;
pub mod ansi;
pub mod canvas;
pub mod adapters;
pub mod input;
pub mod engine;
pub mod output;

pub use ansi::{AnsiEncoder, AnsiRole};
pub use canvas::{Canvas, char_display_width, label_display_width, str_display_width};
pub use error::{MermansiError, Result};
pub use options::{Charset, ColorMode, MermansiOptions, OutputMode, MAX_SOURCE_BYTES};

use vstd::prelude::*;
use crate::ansi::{strip_ansi, stripped, kept_char, lemma_stripped_is_clean};
use crate::input::{is_json_source, parse_source_model, source_has_model, source_refused, SourceModel};
use crate::options::{options_valid, options_error, MAX_OUTPUT_BYTES};
use crate::output::{byte_len, joined, opens_section, output_bounds, render_preview, render_structured_adapter, validate_output,
    AdapterOutput};
use crate::canvas::all_white;

verus! {

/// What a finished render satisfies: it fits the output byte limit and, in plain colour mode,
/// holds no terminal escape sequence or stray control character.
pub open spec fn finished_render(s: Seq<char>, opts: MermansiOptions) -> bool {
    &&& byte_len(s) <= MAX_OUTPUT_BYTES
    &&& opts.color_mode == ColorMode::Plain ==> forall|k: int| 0 <= k < s.len() ==> kept_char(#[trigger] s[k], true, false)
}

/// A finished text that is not empty before any terminal sequences are stripped: the
/// adapter output, or the placeholder line where that is empty, stripped in plain colour mode.
pub open spec fn nonempty_render(s: Seq<char>, opts: MermansiOptions) -> bool {
    exists|t: Seq<char>| t.len() > 0 && s == (if opts.color_mode == ColorMode::Plain { stripped(t, true, false) } else { t })
}

/// What a concise render owes when its preview drew `t`, which shows something: the preview,
/// stripped of terminal sequences in plain colour mode, where it fits the output limits and
/// the options' width and height; else the limit it exceeds.
pub open spec fn concise_result(t: Seq<char>, opts: MermansiOptions, r: Result<String>) -> bool {
    let text = if opts.color_mode == ColorMode::Plain { stripped(t, true, false) } else { t };
    if byte_len(t) > MAX_OUTPUT_BYTES {
        r matches Err(e) && e matches MermansiError::RenderLimit { context, .. } && context == "output bytes"
    } else {
        match output_bounds(byte_len(text) as int, t, opts) {
            Ok(_) => (r matches Ok(s) && s@ == text),
            Err(e) => r == Err::<String, MermansiError>(e),
        }
    }
}

/// `t` as shown under the options: stripped of terminal sequences in plain colour mode.
pub open spec fn shown(t: Seq<char>, opts: MermansiOptions) -> Seq<char> {
    if opts.color_mode == ColorMode::Plain { stripped(t, true, false) } else { t }
}

/// Whether `s` is a complete render of the preview `preview`: the preview, the separating
/// blank line, and a semantic section of some family, as shown under the options.
pub open spec fn complete_render(s: Seq<char>, preview: Seq<char>, opts: MermansiOptions) -> bool {
    exists|family: Seq<char>, section: Seq<char>| #[trigger] opens_section(section, family, opts)
        && s == shown(joined(preview, Some(section)), opts)
}

/// The default options with ASCII characters.
pub open spec fn ascii_options() -> MermansiOptions {
    MermansiOptions { charset: Charset::Ascii, ..options::default_options() }
}

/// The text returned for a source in which no diagram is found.
pub open spec fn no_diagram_text() -> Seq<char> {
    seq!['(', 'n', 'o', ' ', 'd', 'i', 'a', 'g', 'r', 'a', 'm', ' ', 'd', 'e', 't', 'e', 'c', 't', 'e', 'd', ')', '\n']
}

/// Render a parsed model to terminal text, with `render_preview` drawing its terminal
/// preview.
///
/// The options are validated first. The adapter output is joined into one text (a
/// placeholder line where it is empty), stripped of terminal sequences in plain colour mode,
/// and checked against the output limits.
pub fn render_model_with_preview<F: FnOnce() -> Result<String>>(model: &SourceModel, opts: &MermansiOptions,
    render_preview: F) -> (r: Result<String>)
    requires
        call_requires(render_preview, ()),
    ensures
        !options_valid(*opts) ==> r == Err::<String, MermansiError>(options_error(*opts)->0),
        r matches Ok(s) ==> options_valid(*opts) && finished_render(s@, *opts),
        r matches Ok(s) ==> nonempty_render(s@, *opts),
        r matches Ok(s) ==> (opts.color_mode != ColorMode::Plain ==> s@.len() > 0),
        options_valid(*opts) && opts.output_mode == OutputMode::Concise ==> exists|p: Result<String>|
            #[trigger] call_ensures(render_preview, (), p)
            && (p matches Err(e) ==> r == Err::<String, MermansiError>(e))
            && (p matches Ok(t) ==> (!all_white(t@) ==> concise_result(t@, *opts, r))),
        r matches Ok(s) ==> (opts.output_mode == OutputMode::Complete ==> exists|p: String|
            #[trigger] call_ensures(render_preview, (), Ok::<String, MermansiError>(p)) && complete_render(s@, p@, *opts)),
{
    match opts.validate() {
        Ok(()) => {},
        Err(e) => return Err(e),
    }
    let family = model.family();
    let adapted = render_structured_adapter(family.as_str(), model, opts, render_preview);
    let ghost p = choose|p: Result<String>| #[trigger] call_ensures(render_preview, (), p)
        && (p matches Err(e) ==> adapted == Err::<AdapterOutput, MermansiError>(e))
        && (p matches Ok(t) ==> (!all_white(t@) ==> adapted == Ok::<AdapterOutput, MermansiError>(
            AdapterOutput { preview: t, semantic: None })));
    let output = match adapted {
        Ok(output) => output,
        Err(e) => return Err(e),
    };
    let mut result = match output.to_text() {
        Ok(text) => text,
        Err(e) => return Err(e),
    };
    let ghost joined_text = result@;
    proof {
        if opts.output_mode == OutputMode::Complete {
            let section = output.semantic->0@;
            assert(opens_section(section, family@, *opts));
            assert(section.len() > 0);
            assert(joined_text.len() > 0);
        }
    }
    if result.as_str().is_empty() {
        result = String::from_str("(empty render output)\n");
        proof { reveal_strlit("(empty render output)\n"); }
    }
    let ghost unstripped = result@;
    assert(unstripped.len() > 0);
    if opts.color_mode == ColorMode::Plain {
        result = strip_ansi(result.as_str());
    }
    assert(result@ == (if opts.color_mode == ColorMode::Plain { stripped(unstripped, true, false) } else { unstripped }));
    match validate_output(result.as_str(), output.preview.as_str(), opts) {
        Ok(()) => {},
        Err(e) => return Err(e),
    }
    proof {
        if opts.color_mode == ColorMode::Plain {
            let t = result@;
            assert(exists|u: Seq<char>| t == stripped(u, true, false));
            let u = choose|u: Seq<char>| t == stripped(u, true, false);
            lemma_stripped_is_clean(u, true, false);
        }
        if opts.output_mode == OutputMode::Complete {
            let section = output.semantic->0@;
            assert(unstripped == joined(output.preview@, Some(section)));
            assert(opens_section(section, family@, *opts));
            assert(result@ == shown(joined(output.preview@, Some(section)), *opts));
            assert(complete_render(result@, output.preview@, *opts));
            assert(call_ensures(render_preview, (), Ok::<String, MermansiError>(output.preview)));
        }
    }
    Ok(result)
}

/// Render a parsed model to terminal text: [`render_model_with_preview`] with the library's
/// own preview of the model.
pub fn render_model(model: &SourceModel, opts: &MermansiOptions) -> (r: Result<String>)
    ensures
        !options_valid(*opts) ==> r == Err::<String, MermansiError>(options_error(*opts)->0),
        r matches Ok(s) ==> options_valid(*opts) && finished_render(s@, *opts),
        r matches Ok(s) ==> nonempty_render(s@, *opts),
        r matches Ok(s) ==> (opts.color_mode != ColorMode::Plain ==> s@.len() > 0),
        r matches Ok(s) ==> (opts.output_mode == OutputMode::Complete ==> exists|p: Seq<char>|
            #[trigger] complete_render(s@, p, *opts)),
{
    render_model_with_preview(model, opts, || render_preview(model, opts))
}

/// What [`render_source`] gives for `text` under `opts`: invalid options and an oversized
/// source are refused first; a source the parser refuses is an error (a JSON error for a JSON
/// source); a source without a diagram renders as the fixed notice; a source with a model
/// renders, when it succeeds, as finished, non-empty terminal text, which in complete mode
/// opens a semantic section after the preview.
#[verifier::opaque]
pub open spec fn source_rendered(text: Seq<char>, opts: MermansiOptions, r: Result<String>) -> bool {
    &&& !options_valid(opts) ==> r == Err::<String, MermansiError>(options_error(opts)->0)
    &&& options_valid(opts) && byte_len(text) > MAX_SOURCE_BYTES ==> r == Err::<String, MermansiError>(
        MermansiError::RenderLimit { context: "source bytes", requested: byte_len(text), limit: MAX_SOURCE_BYTES })
    &&& r matches Ok(s) ==> options_valid(opts) && ((s@ == no_diagram_text() && !is_json_source(text))
        || (finished_render(s@, opts) && nonempty_render(s@, opts)))
    &&& r matches Ok(s) ==> (opts.color_mode != ColorMode::Plain ==> s@.len() > 0)
    &&& options_valid(opts) && byte_len(text) <= MAX_SOURCE_BYTES && source_refused(text)
        ==> (r matches Err(e) && (if is_json_source(text) { e is JsonSource } else { e is Parse }))
    &&& options_valid(opts) && byte_len(text) <= MAX_SOURCE_BYTES && !source_refused(text)
        && !source_has_model(text) ==> (r matches Ok(s) && s@ == no_diagram_text())
    &&& source_has_model(text) ==> (r matches Ok(s) ==> finished_render(s@, opts) && nonempty_render(s@, opts)
        && (opts.output_mode == OutputMode::Complete ==> exists|p: Seq<char>| #[trigger] complete_render(s@, p, opts)))
}

/// Render a Mermaid source string or a raw JSON object or array to terminal text.
///
/// The options are validated and the source size is bounded first. The source is then read
/// by [`parse_source_model`]: raw JSON is drawn as a tree of boxes, Mermaid through the
/// parser. A source without a diagram renders as a fixed notice.
///
/// The chart families whose geometry is computed in floating point (pie, radar, quadrant,
/// sankey, treemap and Venn) are drawn by their renderers under [`adapters`] from a geometry
/// the caller supplies; given as source text here, they are reported as unsupported by the
/// terminal renderer. [`render_model_with_preview`] renders them with such a preview.
pub fn render_source(mermaid_text: &str, opts: &MermansiOptions) -> (r: Result<String>)
    ensures
        source_rendered(mermaid_text@, *opts, r),
        !options_valid(*opts) ==> r == Err::<String, MermansiError>(options_error(*opts)->0),
        options_valid(*opts) && byte_len(mermaid_text@) > MAX_SOURCE_BYTES ==> r == Err::<String, MermansiError>(
            MermansiError::RenderLimit { context: "source bytes", requested: byte_len(mermaid_text@), limit: MAX_SOURCE_BYTES }),
        r matches Ok(s) ==> options_valid(*opts) && ((s@ == no_diagram_text() && !is_json_source(mermaid_text@))
            || (finished_render(s@, *opts) && nonempty_render(s@, *opts))),
        r matches Ok(s) ==> (opts.color_mode != ColorMode::Plain ==> s@.len() > 0),
        options_valid(*opts) && byte_len(mermaid_text@) <= MAX_SOURCE_BYTES && source_refused(mermaid_text@)
            ==> (r matches Err(e) && (if is_json_source(mermaid_text@) { e is JsonSource } else { e is Parse })),
        options_valid(*opts) && byte_len(mermaid_text@) <= MAX_SOURCE_BYTES && !source_refused(mermaid_text@)
            && !source_has_model(mermaid_text@) ==> (r matches Ok(s) && s@ == no_diagram_text()),
        source_has_model(mermaid_text@) ==> (r matches Ok(s) ==> finished_render(s@, *opts) && nonempty_render(s@, *opts)
            && (opts.output_mode == OutputMode::Complete ==> exists|p: Seq<char>| #[trigger] complete_render(s@, p, *opts))),
{
    let r = render_source_checked(mermaid_text, opts);
    proof {
        reveal(source_rendered);
    }
    r
}

/// The body of [`render_source`], under its clauses one by one.
fn render_source_checked(mermaid_text: &str, opts: &MermansiOptions) -> (r: Result<String>)
    ensures
        !options_valid(*opts) ==> r == Err::<String, MermansiError>(options_error(*opts)->0),
        options_valid(*opts) && byte_len(mermaid_text@) > MAX_SOURCE_BYTES ==> r == Err::<String, MermansiError>(
            MermansiError::RenderLimit { context: "source bytes", requested: byte_len(mermaid_text@), limit: MAX_SOURCE_BYTES }),
        r matches Ok(s) ==> options_valid(*opts) && ((s@ == no_diagram_text() && !is_json_source(mermaid_text@))
            || (finished_render(s@, *opts) && nonempty_render(s@, *opts))),
        r matches Ok(s) ==> (opts.color_mode != ColorMode::Plain ==> s@.len() > 0),
        options_valid(*opts) && byte_len(mermaid_text@) <= MAX_SOURCE_BYTES && source_refused(mermaid_text@)
            ==> (r matches Err(e) && (if is_json_source(mermaid_text@) { e is JsonSource } else { e is Parse })),
        options_valid(*opts) && byte_len(mermaid_text@) <= MAX_SOURCE_BYTES && !source_refused(mermaid_text@)
            && !source_has_model(mermaid_text@) ==> (r matches Ok(s) && s@ == no_diagram_text()),
        source_has_model(mermaid_text@) ==> (r matches Ok(s) ==> finished_render(s@, *opts) && nonempty_render(s@, *opts)
            && (opts.output_mode == OutputMode::Complete ==> exists|p: Seq<char>| #[trigger] complete_render(s@, p, *opts))),
{
    match opts.validate() {
        Ok(()) => {},
        Err(e) => return Err(e),
    }
    let size = mermaid_text.len();
    if size > MAX_SOURCE_BYTES {
        return Err(MermansiError::RenderLimit { context: "source bytes", requested: size, limit: MAX_SOURCE_BYTES });
    }
    match parse_source_model(mermaid_text) {
        Err(e) => Err(e),
        Ok(None) => {
            proof {
                reveal_strlit("(no diagram detected)\n");
            }
            Ok(String::from_str("(no diagram detected)\n"))
        },
        Ok(Some(model)) => render_model(&model, opts),
    }
}

/// Convenience: render Mermaid source as ASCII text: [`render_source`] with
/// [`MermansiOptions::ascii`], under the same contract.
pub fn render_source_ascii(mermaid_text: &str) -> (r: Result<String>)
    ensures
        source_rendered(mermaid_text@, ascii_options(), r),
{
    render_source(mermaid_text, &MermansiOptions::ascii())
}

/// Convenience: render Mermaid source as Unicode text: [`render_source`] with
/// [`MermansiOptions::unicode`], the default options, under the same contract.
pub fn render_source_unicode(mermaid_text: &str) -> (r: Result<String>)
    ensures
        source_rendered(mermaid_text@, options::default_options(), r),
{
    render_source(mermaid_text, &MermansiOptions::unicode())
}

} // verus!
