use mermansi::adapters::chart_primitives;
use mermansi::adapters::venn::{cell_is_clear, rightmost_occupied_column, span_has_clear_margin, span_is_clear};
use mermansi::canvas::Canvas;

#[test]
fn cropped_canvas_removes_outer_blank_rows_and_indent() {
    let mut canvas = Canvas::new(20, 8).expect("canvas");
    canvas.set_text(5, 3, "A").expect("label");
    canvas.set_text(7, 4, "B").expect("label");
    assert_eq!(chart_primitives::render_cropped_canvas(&canvas), "A\n  B\n");
}

#[test]
fn label_clearance_checks_neighboring_outline_rows() {
    let mut canvas = Canvas::new(20, 8).expect("canvas");
    canvas.set_text(8, 2, "○").expect("outline");

    assert!(!span_has_clear_margin(&canvas, 7, 3, 4));
    assert!(span_has_clear_margin(&canvas, 7, 5, 4));
}

#[test]
fn clear_cells_and_spans() {
    let mut canvas = Canvas::new(8, 2).expect("canvas");
    canvas.set_text(3, 0, "开").expect("wide");
    assert!(cell_is_clear(&canvas, 0, 0));
    assert!(!cell_is_clear(&canvas, 3, 0));
    assert!(!cell_is_clear(&canvas, 4, 0));
    assert!(!cell_is_clear(&canvas, 8, 0));
    assert!(span_is_clear(&canvas, 0, 0, 3));
    assert!(!span_is_clear(&canvas, 2, 0, 3));
    assert_eq!(rightmost_occupied_column(&canvas), Some(4));
    assert_eq!(rightmost_occupied_column(&Canvas::new(3, 3).expect("canvas")), None);
}
