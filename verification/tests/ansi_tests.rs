use mermansi::ansi::{sanitize_label_text, strip_ansi, AnsiEncoder, AnsiRole};
use mermansi::ColorMode;

#[test]
fn sanitize_preserves_plain_text() {
    assert_eq!(sanitize_label_text("Hello World"), "Hello World");
}

#[test]
fn sanitize_strips_csi_sequence() {
    assert_eq!(sanitize_label_text("\u{1b}[31mRed\u{1b}[0m"), "Red");
}

#[test]
fn strip_ansi_removes_string_controls_without_changing_layout() {
    let input = "A\t\u{1b}[31mred\u{1b}[0m\nB\u{1b}]0;title\u{07}C\r\nD\u{009d}hidden\u{009c}E";
    assert_eq!(strip_ansi(input), "A\tred\nBC\r\nDE");
}

#[test]
fn sanitize_strips_osc_bell_terminated() {
    assert_eq!(sanitize_label_text("\u{1b}]0;Title\u{07}"), "");
    assert_eq!(sanitize_label_text("A\u{1b}]0;Title\u{07}B"), "AB");
}

#[test]
fn sanitize_strips_osc_st_terminated() {
    assert_eq!(sanitize_label_text("\u{1b}]0;Title\u{1b}\\"), "");
}

#[test]
fn sanitize_strips_bell_control_byte() {
    assert_eq!(sanitize_label_text("Alert\u{07}"), "Alert");
}

#[test]
fn sanitize_preserves_cjk_emoji_combining() {
    assert_eq!(
        sanitize_label_text("开始 \u{1F680} cafe\u{301}"),
        "开始 \u{1F680} cafe\u{301}"
    );
}

#[test]
fn normalize_terminal_markup_and_markdown_emphasis() {
    assert_eq!(
        sanitize_label_text("<b>Bold</b><br/>Next **strong** &amp; __clear__"),
        "Bold Next strong & clear"
    );
    assert_eq!(sanitize_label_text("a < b"), "a < b");
    assert_eq!(sanitize_label_text("+String **bold*"), "+String bold");
}

#[test]
fn sanitize_removes_bidi_format_controls() {
    assert_eq!(
        sanitize_label_text("safe\u{202e}evil\u{202c}\u{2066}text\u{2069}"),
        "safeeviltext"
    );
}

#[test]
fn sanitize_stabilizes_leading_zero_width_graphemes() {
    assert_eq!(sanitize_label_text("\u{301}Accent"), "◌\u{301}Accent");
    assert_eq!(sanitize_label_text("\u{fe0f}Icon"), "Icon");
    assert_eq!(sanitize_label_text("\u{200d}Join"), "Join");
}

#[test]
fn sanitize_strips_tab_newline_cr() {
    assert_eq!(sanitize_label_text("a\tb\nc\rd"), "abcd");
}

#[test]
fn sanitize_strips_unrecognized_esc_sequences() {
    assert_eq!(sanitize_label_text("\u{1b}Z"), "Z");
}

#[test]
fn sanitize_consumes_embedded_esc_in_osc() {
    assert_eq!(
        sanitize_label_text("\u{1b}]0;T\u{1b}[31m More\u{07}Visible"),
        "Visible"
    );
}

#[test]
fn sanitize_strips_all_string_control_families() {
    assert_eq!(sanitize_label_text("A\u{1b}Pdata\u{07}B"), "AB");
    assert_eq!(sanitize_label_text("A\u{1b}_data\u{1b}\\B"), "AB");
    assert_eq!(sanitize_label_text("A\u{1b}^data\u{07}B"), "AB");
    assert_eq!(sanitize_label_text("A\u{1b}Xdata\u{1b}\\B"), "AB");
    assert_eq!(sanitize_label_text("A\u{009d}data\u{009c}B"), "AB");
}

#[test]
fn sanitize_consumes_embedded_esc_in_dcs() {
    assert_eq!(
        sanitize_label_text("\u{1b}Pdata\u{1b}[31m more\u{07}Visible"),
        "Visible"
    );
}

#[test]
fn stripping_twice_changes_nothing() {
    let input = "x\u{1b}[1;32mgreen\u{1b}[0m\u{1b}]8;;link\u{1b}\\y\u{0007}z";
    let once = strip_ansi(input);
    assert_eq!(once, "xgreenyz");
    assert_eq!(strip_ansi(&once), once);
}

#[test]
fn plain_encoder_paints_nothing() {
    let encoder = AnsiEncoder::new(ColorMode::Plain);
    assert_eq!(encoder.paint(AnsiRole::SectionHeader, "title"), "title");
    let colored = AnsiEncoder::new(ColorMode::Ansi16).paint(AnsiRole::SectionHeader, "title");
    assert_eq!(colored, "\u{1b}[36mtitle\u{1b}[0m");
    assert_eq!(strip_ansi(&colored), "title");
}

#[test]
fn stripping_a_painted_text_gives_it_back() {
    for mode in [ColorMode::Plain, ColorMode::Ansi16, ColorMode::TrueColor] {
        let encoder = AnsiEncoder::new(mode);
        for role in [AnsiRole::NodeBorder, AnsiRole::Title, AnsiRole::ChartSeries(3), AnsiRole::EdgeLabel] {
            assert_eq!(strip_ansi(&encoder.paint(role, "Label 標籤 → ok")), "Label 標籤 → ok");
        }
    }
}
