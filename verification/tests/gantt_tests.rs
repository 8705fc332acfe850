use mermansi::adapters::gantt::{render_gantt, GanttChart, GanttTask};
use mermansi::{render_source, MermansiError, MermansiOptions};

const JAN_1_2024: i64 = 1_704_067_200_000;
const DAY: i64 = 86_400_000;

fn task(name: &str, section: &str, start: i64, end: i64) -> GanttTask {
    GanttTask {
        id: String::new(),
        task: name.to_string(),
        section: section.to_string(),
        task_type: section.to_string(),
        classes: Vec::new(),
        active: false,
        done: false,
        crit: false,
        milestone: false,
        vert: false,
        order: 0,
        start_ms: start,
        end_ms: end,
        render_end_ms: None,
    }
}

#[test]
fn gantt_too_many_tasks_is_refused() {
    let tasks = (0..4097).map(|i| task(&format!("t{i}"), "S", JAN_1_2024, JAN_1_2024 + DAY)).collect();
    let chart = GanttChart { title: None, tasks };
    let err = render_gantt(&chart, &MermansiOptions::unicode()).unwrap_err();
    assert!(matches!(err, MermansiError::RenderLimit { context: "gantt tasks", requested: 4097, limit: 4096 }));
}

#[test]
fn gantt_without_tasks_is_a_titled_card() {
    let chart = GanttChart { title: None, tasks: Vec::new() };
    let out = render_gantt(&chart, &MermansiOptions::unicode()).unwrap();
    assert!(out.contains("empty Gantt"));
    assert_eq!(out.lines().count(), 3);
}

#[test]
fn gantt_empty_card_too_narrow_is_refused() {
    let chart = GanttChart { title: None, tasks: Vec::new() };
    let err = render_gantt(&chart, &MermansiOptions::unicode().with_max_width(10)).unwrap_err();
    assert!(matches!(err, MermansiError::RenderLimit { context: "gantt empty card", requested: 16, limit: 10 }));
}

#[test]
fn gantt_needs_thirty_two_columns() {
    let chart = GanttChart { title: None, tasks: vec![task("Alpha", "S", JAN_1_2024, JAN_1_2024 + DAY)] };
    let err = render_gantt(&chart, &MermansiOptions::unicode().with_max_width(20)).unwrap_err();
    assert!(matches!(err, MermansiError::RenderLimit { context: "gantt columns", requested: 32, limit: 20 }));
}

#[test]
fn gantt_needs_rows_for_plot_and_details() {
    let chart = GanttChart { title: None, tasks: vec![task("Alpha", "S", JAN_1_2024, JAN_1_2024 + DAY)] };
    let err = render_gantt(&chart, &MermansiOptions::unicode().with_max_height(7)).unwrap_err();
    assert!(matches!(err, MermansiError::RenderLimit { context: "gantt rows", limit: 7, .. }));
}

#[test]
fn gantt_draws_dated_lanes_in_order() {
    let mut second = task("Beta", "Build", JAN_1_2024 + 5 * DAY, JAN_1_2024 + 10 * DAY);
    second.order = 1;
    let first = task("Alpha", "Plan", JAN_1_2024, JAN_1_2024 + 5 * DAY);
    let chart = GanttChart { title: Some("Release".to_string()), tasks: vec![second, first] };
    let out = render_gantt(&chart, &MermansiOptions::ascii()).unwrap();
    assert!(out.contains("Release"));
    assert!(out.contains("2024-01-01"));
    assert!(out.contains("2024-01-11"));
    let alpha = out.find("[1] Plan / Alpha").expect("first task by order");
    let beta = out.find("[2] Build / Beta").expect("second task by order");
    assert!(alpha < beta);
    assert!(out.contains("2024-01-01 -> 2024-01-06"));
}

#[test]
fn gantt_milestone_is_a_marker() {
    let mut stone = task("Ship", "Go", JAN_1_2024 + DAY, JAN_1_2024 + DAY);
    stone.milestone = true;
    let chart = GanttChart { title: None, tasks: vec![task("Work", "Go", JAN_1_2024, JAN_1_2024 + 2 * DAY), stone] };
    let out = render_gantt(&chart, &MermansiOptions::ascii()).unwrap();
    assert!(out.contains('*'));
    assert!(out.contains("milestone"));
}

#[test]
fn gantt_source_is_drawn_by_the_library() {
    let text = "gantt\n    dateFormat YYYY-MM-DD\n    section Plan\n    Alpha :a1, 2024-01-01, 3d\n";
    let out = render_source(text, &MermansiOptions::unicode()).unwrap();
    assert!(out.contains("Alpha"));
    assert!(out.contains("2024-01-01"));
}
