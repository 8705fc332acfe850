use std::cell::Cell;
use mermansi::input::{normalize_flowchart_v2_header, parse_source_model, SourceModel};
use mermansi::output::{ensure_byte_capacity, escape_terminal_json_controls, render_structured_adapter, validate_output, AdapterOutput};
use mermansi::options::OutputMode;
use mermansi::options::MAX_OUTPUT_BYTES;
use mermansi::{
    render_model_with_preview, render_source, render_source_ascii, render_source_unicode, ColorMode, MermansiError,
    MermansiOptions,
};

#[test]
fn normalizes_only_the_exact_leading_alias() {
    let source = "  flowchart-v2 TD\nA --> B";
    let normalized = normalize_flowchart_v2_header(source).expect("alias should normalize");
    assert_eq!(
        normalized, "  flowchart    TD\nA --> B",
        "the grammar header should replace only the parser-id token"
    );
    assert_eq!(normalized.len(), source.len(), "source offsets must not shift");
    assert!(normalize_flowchart_v2_header("flowchart-v20 TD").is_none());
    assert!(normalize_flowchart_v2_header("flowchart TD").is_none());
}

#[test]
fn alias_after_comments_and_directives_is_normalized() {
    let source = "%% comment\n%%{init: {\"theme\":\"default\"}}%%\nflowchart-v2 LR\nA --> B";
    let normalized = normalize_flowchart_v2_header(source).expect("alias");
    assert!(normalized.contains("\nflowchart    LR\n"));
    assert!(normalize_flowchart_v2_header("%%{unterminated\nflowchart-v2 TD").is_none());
}

#[test]
fn render_simple_flowchart() {
    let text = "flowchart TD\n  A --> B";
    let output = render_source(text, &MermansiOptions::unicode()).unwrap();
    assert!(!output.is_empty());
}

#[test]
fn render_deterministic_unicode() {
    let text = "flowchart TD\n  A --> B";
    let a = render_source(text, &MermansiOptions::unicode()).unwrap();
    let b = render_source(text, &MermansiOptions::unicode()).unwrap();
    assert_eq!(a, b);
}

#[test]
fn render_deterministic_ascii() {
    let text = "flowchart TD\n  A --> B";
    let a = render_source(text, &MermansiOptions::ascii()).unwrap();
    let b = render_source(text, &MermansiOptions::ascii()).unwrap();
    assert_eq!(a, b);
}

#[test]
fn render_non_diagram_returns_parse_error() {
    let result = render_source("hello world", &MermansiOptions::default());
    assert!(result.is_err());
}

#[test]
fn complete_output_carries_the_semantic_model() {
    let output = render_source_unicode("flowchart TD\n  A --> B").unwrap();
    assert!(output.contains("semantic model]"));
    assert!(render_source_unicode("flowchart-v2 TD\n  A --> B").unwrap().contains("semantic model]"));
    let ascii = render_source_ascii("flowchart TD\n  A --> B").unwrap();
    assert!(ascii.is_ascii() || ascii.contains("semantic model]"));
}

#[test]
fn plain_output_has_no_escape_sequences() {
    let output = render_source("flowchart TD\n  A[\"\u{1b}[31mred\"] --> B", &MermansiOptions::unicode()).unwrap();
    assert!(!output.contains('\u{1b}'));
    let colored = render_source(
        "flowchart TD\n  A --> B",
        &MermansiOptions::unicode().with_color(ColorMode::TrueColor),
    )
    .unwrap();
    assert!(!colored.is_empty());
}

#[test]
fn invalid_options_and_oversized_sources_are_refused() {
    assert!(matches!(
        render_source("flowchart TD\nA-->B", &MermansiOptions::unicode().with_max_width(0)),
        Err(MermansiError::InvalidOption { field: "max_width", .. })
    ));
    let big = "x".repeat(mermansi::MAX_SOURCE_BYTES + 1);
    assert!(matches!(
        render_source(&big, &MermansiOptions::unicode()),
        Err(MermansiError::RenderLimit { context: "source bytes", .. })
    ));
}

#[test]
fn parses_raw_json_objects_and_arrays() {
    for source in ["{\"name\":\"Alice\"}", "[\"Rust\",\"C\"]"] {
        assert!(matches!(parse_source_model(source), Ok(Some(SourceModel::Json(_)))));
    }
}

#[test]
fn reports_invalid_raw_json_as_a_source_error() {
    assert!(matches!(
        parse_source_model("{\"name\":}"),
        Err(MermansiError::JsonSource { .. })
    ));
}

#[test]
fn invalid_raw_json_is_refused_by_render_source() {
    assert!(matches!(
        render_source("  [1, 2", &MermansiOptions::unicode()),
        Err(MermansiError::JsonSource { .. })
    ));
}

#[test]
fn parses_flowchart_v2_after_upstream_preambles() {
    for source in [
        "%% comment\nflowchart-v2 TD\nA --> B",
        "%%{init: {\"theme\":\"default\"}}%%\nflowchart-v2 TD\nA --> B",
        "%%{init: {\"flowchart\":{\"defaultRenderer\":\"dagre-d3\"}}}%%\nflowchart-v2 TD\nA --> B",
        "---\ntitle: Alias graph\n---\nflowchart-v2 TD\nA --> B",
    ] {
        match parse_source_model(source) {
            Ok(Some(model)) => {
                assert!(matches!(model, SourceModel::Diagram(_)));
                assert_eq!(model.family(), "flowchart");
            }
            _ => panic!("flowchart-v2 source should parse: {source}"),
        }
    }
}

#[test]
fn raw_json_renders_as_a_box_tree_with_its_model() {
    let output = render_source("{\"name\":\"Alice\",\"langs\":[\"Rust\",\"C\"]}", &MermansiOptions::unicode()).unwrap();
    assert!(output.contains("JSON"));
    assert!(output.contains("{} (2 fields)"));
    assert!(output.contains("langs: [] (2 items)"));
    assert!(output.contains("[0]: \"Rust\""));
    assert!(output.contains("name: \"Alice\""));
    assert!(output.contains("[json semantic model]"));
    let concise = render_source("[]", &MermansiOptions::ascii().with_output_mode(OutputMode::Concise)).unwrap();
    assert!(concise.contains("[]"));
    assert!(!concise.contains("semantic model"));
}

fn labelled_model(label: String) -> SourceModel {
    let mut map = serde_json::Map::new();
    map.insert("label".to_owned(), serde_json::Value::String(label));
    SourceModel::Json(serde_json::Value::Object(map))
}

#[test]
fn oversized_structured_model_is_rejected_before_preview_rendering() {
    let model = labelled_model("x".repeat(MAX_OUTPUT_BYTES));
    let preview_called = Cell::new(false);

    let result = render_structured_adapter("json", &model, &MermansiOptions::unicode(), || {
        preview_called.set(true);
        Ok("unreachable preview".to_owned())
    });

    assert!(matches!(
        result,
        Err(MermansiError::RenderLimit { context: "semantic model bytes", .. })
    ));
    assert!(!preview_called.get());
}

#[test]
fn concise_output_skips_an_unused_oversized_semantic_model() {
    let model = labelled_model("x".repeat(MAX_OUTPUT_BYTES));
    let result = render_structured_adapter(
        "json",
        &model,
        &MermansiOptions::unicode().with_output_mode(OutputMode::Concise),
        || Ok("readable preview\n".to_owned()),
    );

    assert_eq!(result.unwrap().to_text().unwrap(), "readable preview\n");
}

#[test]
fn concise_output_uses_the_semantic_model_when_no_preview_exists() {
    let model = labelled_model("kept".to_owned());
    let result = render_structured_adapter(
        "json",
        &model,
        &MermansiOptions::unicode().with_output_mode(OutputMode::Concise),
        || Ok(String::new()),
    )
    .unwrap();

    let result = result.to_text().unwrap();
    assert!(result.contains("[json semantic model]"));
    assert!(result.contains("kept"));
}

#[test]
fn output_text_and_bounds() {
    let out = AdapterOutput { preview: "A".to_owned(), semantic: Some("S\n".to_owned()) };
    assert_eq!(out.to_text().unwrap(), "A\n\nS\n");
    let out = AdapterOutput { preview: "A\n".to_owned(), semantic: Some("S".to_owned()) };
    assert_eq!(out.to_text().unwrap(), "A\n\nS");
    let out = AdapterOutput { preview: String::new(), semantic: Some("S".to_owned()) };
    assert_eq!(out.to_text().unwrap(), "S");
    assert!(ensure_byte_capacity(MAX_OUTPUT_BYTES, 0).is_ok());
    assert!(matches!(
        ensure_byte_capacity(MAX_OUTPUT_BYTES, 1),
        Err(MermansiError::RenderLimit { context: "output bytes", .. })
    ));
    let opts = MermansiOptions::unicode().with_max_width(3).with_max_height(2);
    assert!(validate_output("abc\nde", "abc\nde", &opts).is_ok());
    assert!(matches!(
        validate_output("abcd", "abcd", &opts),
        Err(MermansiError::RenderLimit { context: "output columns", requested: 4, limit: 3 })
    ));
    assert!(matches!(
        validate_output("a\nb\nc", "a\nb\nc", &opts),
        Err(MermansiError::RenderLimit { context: "output rows", requested: 3, limit: 2 })
    ));
    assert!(validate_output("\u{1b}[31mabc\u{1b}[0m", "\u{1b}[31mabc\u{1b}[0m", &opts).is_ok());
}

#[test]
fn json_controls_are_escaped() {
    assert_eq!(escape_terminal_json_controls("a\u{1b}b\n\u{202e}").unwrap(), "a\\u001bb\n\\u202e");
}

#[test]
fn concise_render_gives_back_the_preview_it_was_handed() {
    let model = parse_source_model("flowchart TD\n  A --> B").unwrap().unwrap();
    let opts = MermansiOptions::unicode().with_output_mode(OutputMode::Concise);
    let out = render_model_with_preview(&model, &opts, || Ok("drawn\n".to_owned())).unwrap();
    assert_eq!(out, "drawn\n");
    let plain = opts.with_color(ColorMode::Plain);
    let stripped = render_model_with_preview(&model, &plain, || Ok("\u{1b}[1mdrawn\u{1b}[0m\n".to_owned())).unwrap();
    assert_eq!(stripped, "drawn\n");
    assert!(matches!(
        render_model_with_preview(&model, &opts, || Err(MermansiError::UnsupportedFamily { family: "x".to_owned() })),
        Err(MermansiError::UnsupportedFamily { .. })
    ));
}
