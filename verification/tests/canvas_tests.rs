use mermansi::canvas::{draw_box, draw_horizontal_line, draw_vertical_line, Canvas, MAX_CELLS};
use mermansi::{Charset, MermansiError};

#[test]
fn new_canvas_is_blank_and_bounded() {
    let canvas = Canvas::new(4, 2).expect("canvas");
    assert_eq!(canvas.width(), 4);
    assert_eq!(canvas.height(), 2);
    assert_eq!(canvas.render(), "\n\n");
    assert!(matches!(
        Canvas::new(MAX_CELLS + 1, 1),
        Err(MermansiError::CanvasOverflow { requested, max: MAX_CELLS }) if requested == MAX_CELLS + 1
    ));
    assert!(matches!(
        Canvas::new(usize::MAX, 2),
        Err(MermansiError::CanvasOverflow { requested: usize::MAX, max: MAX_CELLS })
    ));
}

#[test]
fn text_is_read_back_where_it_was_written() {
    let mut canvas = Canvas::new(10, 3).expect("canvas");
    canvas.set_text(2, 1, "ab").expect("text");
    assert_eq!(canvas.get_cell(2, 1), Some("a"));
    assert_eq!(canvas.get_cell(3, 1), Some("b"));
    assert_eq!(canvas.get_cell(4, 1), Some(""));
    assert_eq!(canvas.get_cell(10, 1), None);
    assert_eq!(canvas.render(), "\n  ab\n\n");
}

#[test]
fn wide_graphemes_own_their_continuation_cells() {
    let mut canvas = Canvas::new(6, 2).expect("canvas");
    canvas.set_text(1, 1, "开").expect("wide");
    assert_eq!(canvas.get_cell(1, 1), Some("开"));
    assert_eq!(canvas.continuation_owner(2, 1), Some((1, 1)));
    assert_eq!(canvas.continuation_owner(1, 1), None);
    canvas.set_char(2, 1, 'x').expect("overwrite continuation");
    assert_eq!(canvas.get_cell(1, 1), Some(""));
    assert_eq!(canvas.get_cell(2, 1), Some("x"));
}

#[test]
fn combining_marks_join_the_previous_grapheme() {
    let mut canvas = Canvas::new(5, 1).expect("canvas");
    canvas.set_text(0, 0, "e").expect("base");
    canvas.set_text(1, 0, "\u{301}").expect("mark");
    assert_eq!(canvas.get_cell(0, 0), Some("e\u{301}"));
    assert!(matches!(
        canvas.set_text(0, 0, "\u{301}"),
        Err(MermansiError::CanvasGrapheme { .. })
    ));
}

#[test]
fn failed_writes_leave_the_canvas_unchanged() {
    let mut canvas = Canvas::new(4, 1).expect("canvas");
    canvas.set_text(0, 0, "ab").expect("text");
    let before = canvas.render();
    assert!(matches!(
        canvas.set_text(2, 0, "xyz"),
        Err(MermansiError::CanvasOverflow { requested: 4, max: 4 })
    ));
    assert_eq!(canvas.render(), before);
    assert!(canvas.set_text(0, 1, "a").is_err());
    assert_eq!(canvas.render(), before);
}

#[test]
fn strokes_merge_into_junctions() {
    let mut canvas = Canvas::new(5, 5).expect("canvas");
    draw_horizontal_line(&mut canvas, 2, 0, 4, Charset::Unicode).expect("h");
    draw_vertical_line(&mut canvas, 2, 0, 4, Charset::Unicode).expect("v");
    assert_eq!(canvas.get_cell(2, 2), Some("┼"));
    assert_eq!(canvas.get_cell(0, 2), Some("─"));
    assert_eq!(canvas.get_cell(2, 0), Some("│"));
    assert!(draw_horizontal_line(&mut canvas, 5, 0, 1, Charset::Unicode).is_err());
}

#[test]
fn boxes_have_corners() {
    let mut canvas = Canvas::new(6, 4).expect("canvas");
    draw_box(&mut canvas, 0, 0, 4, 3, Charset::Ascii).expect("box");
    assert_eq!(canvas.render(), "+--+\n|  |\n+--+\n\n");
    let mut unicode = Canvas::new(3, 3).expect("canvas");
    draw_box(&mut unicode, 0, 0, 3, 3, Charset::Unicode).expect("box");
    assert_eq!(unicode.render(), "┌─┐\n│ │\n└─┘\n");
    assert!(draw_box(&mut unicode, 2, 2, 3, 3, Charset::Unicode).is_err());
}

#[test]
fn styled_text_wraps_the_grapheme_it_starts_at() {
    let mut canvas = Canvas::new(4, 1).expect("canvas");
    canvas.set_styled_text(1, 0, "ok", "<", ">").expect("styled");
    assert_eq!(canvas.render(), " <o>k\n");
}

#[test]
fn render_trims_a_trailing_space_grapheme() {
    let mut canvas = Canvas::new(4, 1).unwrap();
    canvas.set_text(0, 0, "a ").unwrap();
    assert_eq!(canvas.render(), "a\n");
}
