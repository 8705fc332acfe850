use mermansi::adapters::chart_primitives::{
    checked_chart_dimensions, draw_line, draw_line_over, ensure_entity_limit, fill_char, marker_char,
    render_cropped_canvas, ChartWorkBudget, MAX_CHART_ENTITIES, MAX_CHART_WORK,
};
use mermansi::canvas::Canvas;
use mermansi::{Charset, MermansiError, MermansiOptions};

#[test]
fn chart_work_budget_is_typed_and_bounded() {
    let mut budget = ChartWorkBudget::new("chart test work");
    assert!(budget.consume(MAX_CHART_WORK).is_ok());
    assert!(matches!(
        budget.consume(1),
        Err(MermansiError::RenderLimit {
            context: "chart test work",
            requested,
            limit: MAX_CHART_WORK,
        }) if requested == MAX_CHART_WORK + 1
    ));
}

#[test]
fn chart_dimensions_respect_limits() {
    let opts = MermansiOptions::unicode().with_max_width(30).with_max_height(10);
    assert_eq!(checked_chart_dimensions(&opts, (10, 5), (80, 40)).unwrap(), (30, 10));
    assert_eq!(checked_chart_dimensions(&opts, (10, 5), (20, 8)).unwrap(), (20, 8));
    assert!(matches!(
        checked_chart_dimensions(&opts, (31, 5), (80, 40)),
        Err(MermansiError::RenderLimit { context: "chart width", requested: 31, limit: 30 })
    ));
    assert!(matches!(
        checked_chart_dimensions(&opts, (10, 5), (8, 40)),
        Err(MermansiError::RenderLimit { context: "chart width", requested: 10, limit: 8 })
    ));
    assert!(matches!(
        checked_chart_dimensions(&opts, (10, 11), (80, 40)),
        Err(MermansiError::RenderLimit { context: "chart height", requested: 11, limit: 10 })
    ));
}

#[test]
fn entity_limit_is_typed() {
    assert!(ensure_entity_limit("points", MAX_CHART_ENTITIES).is_ok());
    assert!(matches!(
        ensure_entity_limit("points", MAX_CHART_ENTITIES + 1),
        Err(MermansiError::RenderLimit { context: "points", .. })
    ));
}

#[test]
fn glyphs_cycle_every_eight_series() {
    assert_eq!(fill_char(0, Charset::Unicode), "█");
    assert_eq!(fill_char(9, Charset::Ascii), "@");
    assert_eq!(marker_char(7, Charset::Unicode), "◈");
    assert_eq!(marker_char(8, Charset::Ascii), "*");
}

#[test]
fn lines_join_their_end_points() {
    let mut canvas = Canvas::new(5, 3).expect("canvas");
    draw_line(&mut canvas, 0, 0, 4, 2, "*").expect("line");
    assert_eq!(canvas.render(), "*\n **\n   **\n");
    draw_line(&mut canvas, 0, 2, 4, 0, "o").expect("keeps drawn cells");
    assert_eq!(canvas.get_cell(2, 1), Some("*"));
    draw_line_over(&mut canvas, 0, 2, 4, 0, "o").expect("overwrites");
    assert_eq!(canvas.get_cell(2, 1), Some("o"));
    draw_line(&mut canvas, -3, 1, -1, 1, "x").expect("off canvas");
}

#[test]
fn cropped_empty_canvas_is_empty() {
    let canvas = Canvas::new(6, 3).expect("canvas");
    assert_eq!(render_cropped_canvas(&canvas), "");
}
