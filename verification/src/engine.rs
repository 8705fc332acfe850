//! The parser and terminal renderer of the Mermaid toolchain, and JSON encoding of the
//! semantic models they produce.

use vstd::prelude::*;
use crate::options::{Charset, ColorMode, MermansiOptions};

verus! {

#[verifier::external_type_specification]
#[verifier::external_body]
pub struct ExParsedDiagramRender(merman_core::ParsedDiagramRender);

#[verifier::external_type_specification]
#[verifier::external_body]
pub struct ExJsonValue(serde_json::Value);

#[verifier::external_type_specification]
#[verifier::external_body]
pub struct ExOperationContext(merman_core::runtime::OperationContext);

/// The byte offset at which the frontmatter block of `text` ends (0 without one).
pub uninterp spec fn frontmatter_end_of(text: Seq<char>) -> usize;

/// `merman_core::preprocess::split_frontmatter_block`, reduced to the end of the block's full
/// range (0 when the source has none). The contract only names the result.
#[verifier::external_body]
pub(crate) fn frontmatter_end(source: &str) -> (r: usize)
    ensures
        r == frontmatter_end_of(source@),
{
    merman_core::preprocess::split_frontmatter_block(source).map_or(0, |block| block.full.end)
}

/// How a parse of a source ended: refused, no diagram found, or a diagram.
#[derive(PartialEq, Eq, Structural)]
pub enum ParseOutcome {
    Refused,
    NoDiagram,
    Diagram,
}

/// How a parse result ended.
pub open spec fn outcome_of<T, E>(r: std::result::Result<Option<T>, E>) -> ParseOutcome {
    match r {
        Err(_) => ParseOutcome::Refused,
        Ok(None) => ParseOutcome::NoDiagram,
        Ok(Some(_)) => ParseOutcome::Diagram,
    }
}

/// How the strict Mermaid parser ends on `text` (detecting its diagram type from the text).
pub uninterp spec fn detected_parse_outcome(text: Seq<char>) -> ParseOutcome;

/// How the strict `flowchart-v2` parser ends on `text`.
pub uninterp spec fn flowchart_parse_outcome(text: Seq<char>) -> ParseOutcome;

/// Whether `serde_json::from_str` refuses `text` as a JSON value.
pub uninterp spec fn json_decode_fails(text: Seq<char>) -> bool;

/// `Engine::parse_diagram_for_render_model_sync` with strict options: detects the diagram type
/// and parses. Whether it refuses the text, finds no diagram or finds one is named as a
/// function of the text; nothing is stated of the parsed model, which stays opaque, nor of the
/// error.
#[verifier::external_body]
pub(crate) fn parse_detected(text: &str) -> (r: Result<Option<merman_core::ParsedDiagramRender>, merman_core::Error>)
    ensures
        outcome_of(r) == detected_parse_outcome(text@),
{
    merman_core::Engine::new().parse_diagram_for_render_model_sync(text, merman_core::ParseOptions::strict())
}

/// `Engine::parse_diagram_for_render_model_with_type_sync` for the `flowchart-v2` parser with
/// strict options. Whether it refuses the text, finds no diagram or finds one is named as a
/// function of the text; nothing is stated of the parsed model, which stays opaque, nor of the
/// error.
#[verifier::external_body]
pub(crate) fn parse_as_flowchart(text: &str) -> (r: Result<Option<merman_core::ParsedDiagramRender>, merman_core::Error>)
    ensures
        outcome_of(r) == flowchart_parse_outcome(text@),
{
    merman_core::Engine::new().parse_diagram_for_render_model_with_type_sync(
        "flowchart-v2",
        text,
        merman_core::ParseOptions::strict(),
    )
}

/// `serde_json::from_str` into an untyped JSON value. Whether it fails is named as a function
/// of the text; nothing is stated of the value or the error.
#[verifier::external_body]
pub(crate) fn decode_json(text: &str) -> (r: Result<serde_json::Value, serde_json::Error>)
    ensures
        r is Err <==> json_decode_fails(text@),
{
    serde_json::from_str(text)
}

/// `RuntimePolicy::deterministic().begin_operation()`: the operation context of a fixed clock,
/// UTC and a fixed seed, or `None` where it cannot be made. Nothing is stated of it.
#[verifier::external_body]
pub(crate) fn deterministic_context() -> (r: Option<merman_core::runtime::OperationContext>)
{
    merman_core::runtime::RuntimePolicy::deterministic().begin_operation().ok()
}

/// `AsciiRenderer::render_parsed` with the charset and colour mode of `opts`, in `context`,
/// under the default resource policy with its grid-cell budget set to `grid_cells` (a budget
/// below the policy's minimum of one cell is refused by `apply_limit` and the default stays).
/// Nothing is stated of the text.
#[verifier::external_body]
pub(crate) fn render_terminal(parsed: &merman_core::ParsedDiagramRender, opts: &MermansiOptions,
    context: &merman_core::runtime::OperationContext, grid_cells: usize) -> (r: Result<String, merman_ascii::AsciiError>)
{
    let base = match opts.charset {
        Charset::Unicode => merman_ascii::AsciiRenderOptions::unicode(),
        Charset::Ascii => merman_ascii::AsciiRenderOptions::ascii(),
    };
    let color = match opts.color_mode {
        ColorMode::Plain => merman_ascii::AsciiColorMode::Plain,
        ColorMode::Ansi16 => merman_ascii::AsciiColorMode::Ansi16,
        ColorMode::TrueColor => merman_ascii::AsciiColorMode::TrueColor,
    };
    let renderer = merman_ascii::AsciiRenderer::new(base.with_color_mode(color))?;
    let mut resources = merman_ascii::AsciiResourcePolicy::default();
    let _ = resources.apply_limit(merman_ascii::AsciiResourceLimitId::MaxGridCells, grid_cells);
    renderer.render_parsed(parsed, &merman_core::OperationControl::new(), context, resources)
}

/// `RenderSemanticModel::kind` of the parsed model, as text. Nothing is stated of it.
#[verifier::external_body]
pub(crate) fn model_kind(parsed: &merman_core::ParsedDiagramRender) -> (r: String)
{
    parsed.model().kind().to_string()
}

/// `RenderSemanticModel::compatibility_json`: the parsed semantic model as JSON, projected with
/// the parse metadata. Nothing is stated of the value.
#[verifier::external_body]
pub(crate) fn model_value(parsed: &merman_core::ParsedDiagramRender) -> (r: Result<serde_json::Value, merman_core::Error>)
{
    parsed.model().compatibility_json(parsed.metadata())
}

/// `Value::clone`: a copy of a JSON value. Nothing is stated of the copy, which stays opaque.
#[verifier::external_body]
pub(crate) fn json_clone(value: &serde_json::Value) -> (r: serde_json::Value)
{
    value.clone()
}

/// `Value::sort_all_objects`: every object's keys in ascending order, recursively.
#[verifier::external_body]
pub(crate) fn sort_objects(value: &mut serde_json::Value)
{
    value.sort_all_objects()
}

/// `serde_json::to_string`: compact JSON text. Nothing is stated of the text.
#[verifier::external_body]
pub(crate) fn compact_json(value: &serde_json::Value) -> (r: Result<String, serde_json::Error>)
{
    serde_json::to_string(value)
}

/// `serde_json::to_string_pretty`: indented JSON text. Nothing is stated of the text.
#[verifier::external_body]
pub(crate) fn pretty_json(value: &serde_json::Value) -> (r: Result<String, serde_json::Error>)
{
    serde_json::to_string_pretty(value)
}



/// The shape of a JSON value as plain values: an object or array with its entry count, or a
/// scalar.
pub enum JsonShape {
    Object(usize),
    Array(usize),
    Scalar,
}

/// Tells the variants of `serde_json::Value` apart, with `len` of an object or array.
/// Nothing is stated of the value, which stays opaque.
#[verifier::external_body]
pub(crate) fn json_shape(value: &serde_json::Value) -> (r: JsonShape)
{
    match value {
        serde_json::Value::Object(map) => JsonShape::Object(map.len()),
        serde_json::Value::Array(values) => JsonShape::Array(values.len()),
        _ => JsonShape::Scalar,
    }
}

/// `Value`'s `Display`: compact JSON text of a value. Nothing is stated of the text.
#[verifier::external_body]
pub(crate) fn json_text(value: &serde_json::Value) -> (r: String)
{
    value.to_string()
}

/// `Map::keys` of an object value (empty for anything else), in the map's order.
#[verifier::external_body]
pub(crate) fn json_keys(value: &serde_json::Value) -> (r: Vec<String>)
{
    match value {
        serde_json::Value::Object(map) => map.keys().cloned().collect(),
        _ => Vec::new(),
    }
}

/// `Value::get` with a key: the member `key` of an object value.
#[verifier::external_body]
pub(crate) fn json_field<'a>(value: &'a serde_json::Value, key: &str) -> (r: Option<&'a serde_json::Value>)
{
    value.get(key)
}

/// `Value::get` with an index: element `index` of an array value.
#[verifier::external_body]
pub(crate) fn json_element<'a>(value: &'a serde_json::Value, index: usize) -> (r: Option<&'a serde_json::Value>)
{
    value.get(index)
}

} // verus!
