use mermansi::adapters::quadrant_chart::{
    format_styles, render_quadrant_chart, PointCell, QuadrantChart, QuadrantPoint, QuadrantStyles,
};
use mermansi::adapters::pie::{render_pie, PieChart, PieSection, PieValue};
use mermansi::adapters::radar::{render_radar, RadarAxis, RadarChart, RadarCurve, RadarDrawing};
use mermansi::adapters::sankey::{render_sankey, SankeyDiagram, SankeyLink, SankeyNode};
use mermansi::adapters::treemap::{render_treemap, Treemap, TreemapNode};
use mermansi::adapters::venn::{
    point_matches_region, render_venn, Ellipse, Inset, SetCircle, VennDiagram, VennStyle, VennSubset, VennTextNode,
};
use mermansi::{MermansiError, MermansiOptions};

fn flow_node(id: &str, flow: &str, bar: usize) -> SankeyNode {
    SankeyNode { id: id.to_owned(), flow: flow.to_owned(), bar }
}

fn flow_link(source: &str, target: &str, value: &str, bar: usize) -> SankeyLink {
    SankeyLink { source: source.to_owned(), target: target.to_owned(), value: value.to_owned(), bar }
}

#[test]
fn sankey_without_nodes_is_a_placeholder() {
    let model = SankeyDiagram { nodes: Vec::new(), links: Vec::new() };
    assert_eq!(render_sankey(&model, &MermansiOptions::unicode()).unwrap(), "(empty sankey diagram)\n");
}

#[test]
fn sankey_draws_ranked_boxes_with_flow_bars() {
    let model = SankeyDiagram {
        nodes: vec![flow_node("Solar", "10", 8), flow_node("Grid", "10", 8)],
        links: vec![flow_link("Solar", "Grid", "10", 8)],
    };
    let out = render_sankey(&model, &MermansiOptions::unicode()).unwrap();
    assert!(out.contains("Sankey"), "{out}");
    assert!(out.contains("Solar"), "{out}");
    assert!(out.contains("flow 10 ████████"), "{out}");
    let ascii = render_sankey(&model, &MermansiOptions::ascii()).unwrap();
    assert!(ascii.contains("flow 10 ########"), "{ascii}");
}

#[test]
fn sankey_duplicate_node_ids_are_refused() {
    let model = SankeyDiagram {
        nodes: vec![flow_node("A", "1", 1), flow_node("A", "1", 1)],
        links: Vec::new(),
    };
    match render_sankey(&model, &MermansiOptions::unicode()) {
        Err(MermansiError::GeometryLayout { family, message }) => {
            assert_eq!(family, "sankey");
            assert_eq!(message, "duplicate node id cannot be routed unambiguously: A");
        }
        other => panic!("unexpected {other:?}"),
    }
}

#[test]
fn sankey_links_to_unknown_nodes_are_refused() {
    let model = SankeyDiagram {
        nodes: vec![flow_node("A", "1", 1)],
        links: vec![flow_link("A", "B", "1", 1)],
    };
    match render_sankey(&model, &MermansiOptions::unicode()) {
        Err(MermansiError::GeometryLayout { family, message }) => {
            assert_eq!(family, "sankey");
            assert_eq!(message, "link endpoint is not present in the node inventory: A -> B");
        }
        other => panic!("unexpected {other:?}"),
    }
}

#[test]
fn sankey_node_count_is_bounded() {
    let nodes = (0..4097).map(|i| flow_node(&format!("n{i}"), "0", 1)).collect();
    let model = SankeyDiagram { nodes, links: Vec::new() };
    match render_sankey(&model, &MermansiOptions::unicode()) {
        Err(MermansiError::RenderLimit { context, requested, limit }) => {
            assert_eq!((context, requested, limit), ("sankey nodes", 4097, 4096));
        }
        other => panic!("unexpected {other:?}"),
    }
}

fn no_styles() -> QuadrantStyles {
    QuadrantStyles { radius: None, color: None, stroke_color: None, stroke_width: None }
}

fn point(text: &str, x: &str, y: &str) -> QuadrantPoint {
    QuadrantPoint { text: text.to_owned(), x_text: x.to_owned(), y_text: y.to_owned(), class_name: None, styles: no_styles() }
}

fn chart(points: Vec<QuadrantPoint>) -> QuadrantChart {
    QuadrantChart {
        title: Some("Campaigns".to_owned()),
        quadrant1_text: "Expand".to_owned(),
        quadrant2_text: "Promote".to_owned(),
        quadrant3_text: "Re-evaluate".to_owned(),
        quadrant4_text: "Improve".to_owned(),
        x_axis_left_text: "Low Reach".to_owned(),
        x_axis_right_text: "High Reach".to_owned(),
        y_axis_bottom_text: "Low".to_owned(),
        y_axis_top_text: "High".to_owned(),
        points,
        classes: Vec::new(),
    }
}

#[test]
fn quadrant_styles_are_listed_in_braces() {
    assert_eq!(format_styles(&no_styles()), "");
    let styles = QuadrantStyles {
        radius: Some(-3),
        color: Some("#ff0000".to_owned()),
        stroke_color: None,
        stroke_width: Some("2px".to_owned()),
    };
    assert_eq!(format_styles(&styles), " {radius=-3, color=#ff0000, stroke-width=2px}");
}

#[test]
fn quadrant_chart_plots_points_and_reports_their_status() {
    let model = chart(vec![
        point("Alpha", "0.30", "0.60"),
        point("Beta", "NaN", "0.10"),
        point("Gamma", "1.50", "0.10"),
        point("Delta", "0.30", "0.60"),
    ]);
    let locate = |index: usize, left: usize, right: usize, top: usize, bottom: usize| match index {
        1 => PointCell::NonFinite,
        2 => PointCell::OutOfRange,
        _ => PointCell::At(left + (right - left) * 3 / 10, bottom - (bottom - top) * 6 / 10),
    };
    let out = render_quadrant_chart(&model, &MermansiOptions::unicode(), locate).unwrap();
    assert!(out.starts_with("Campaigns\n\n"), "{out}");
    assert!(out.contains("Expand"), "{out}");
    assert!(out.contains("  ● Alpha (0.30, 0.60)\n"), "{out}");
    assert!(out.contains("  ◆ Beta (NaN, 0.10)\n    status: invalid: non-finite coordinate\n"), "{out}");
    assert!(out.contains("  ■ Gamma (1.50, 0.10)\n    status: outside normalized range 0..1\n"), "{out}");
    assert!(out.contains("  ▲ Delta (0.30, 0.60)\n    status: shifted from overlapping coordinate\n"), "{out}");
    assert!(out.contains("\nOverlapping points:\n  cell("), "{out}");
    assert!(out.contains("): ● Alpha, ▲ Delta\n"), "{out}");
}

#[test]
fn quadrant_chart_needs_twenty_columns() {
    let model = chart(Vec::new());
    let opts = MermansiOptions::unicode().with_max_width(19);
    match render_quadrant_chart(&model, &opts, |_, _, _, _, _| PointCell::OutOfRange) {
        Err(MermansiError::RenderLimit { context, requested, limit }) => {
            assert_eq!((context, requested, limit), ("chart width", 20, 19));
        }
        other => panic!("unexpected {other:?}"),
    }
}

fn tree(id: usize, name: &str, children: Vec<TreemapNode>) -> TreemapNode {
    TreemapNode { id, name: name.to_owned(), value: None, class_selector: None, styles: None, children }
}

fn even_share(_id: usize, remaining: usize) -> usize {
    remaining / 2
}

#[test]
fn treemap_lone_unnamed_root_is_a_placeholder() {
    let model = Treemap { title: None, root: tree(0, "  ", Vec::new()) };
    assert_eq!(render_treemap(&model, &MermansiOptions::unicode(), even_share).unwrap(), "(empty treemap)\n");
}

#[test]
fn treemap_nests_children_inside_the_parent() {
    let mut left = tree(1, "Left", Vec::new());
    left.value = Some("3".to_owned());
    let right = tree(2, "Right", Vec::new());
    let model = Treemap { title: Some("Budget".to_owned()), root: tree(0, "root", vec![left, right]) };
    let out = render_treemap(&model, &MermansiOptions::unicode(), even_share).unwrap();
    assert!(out.contains("Budget"), "{out}");
    assert!(out.contains("Left = 3"), "{out}");
    assert!(out.contains("Right"), "{out}");
    assert!(out.contains("┌"), "{out}");
}

#[test]
fn treemap_depth_is_bounded() {
    let mut node = tree(66, "leaf", Vec::new());
    for id in (0..66).rev() {
        node = tree(id, "n", vec![node]);
    }
    let model = Treemap { title: None, root: node };
    match render_treemap(&model, &MermansiOptions::unicode(), even_share) {
        Err(MermansiError::RenderLimit { context, requested, limit }) => {
            assert_eq!((context, requested, limit), ("treemap depth", 65, 64));
        }
        other => panic!("unexpected {other:?}"),
    }
}

#[test]
fn treemap_needs_its_minimum_width() {
    let model = Treemap { title: None, root: tree(0, "root", vec![tree(1, "a", Vec::new())]) };
    let opts = MermansiOptions::unicode().with_max_width(27);
    match render_treemap(&model, &opts, even_share) {
        Err(MermansiError::RenderLimit { context, requested, limit }) => {
            assert_eq!((context, requested, limit), ("chart width", 28, 27));
        }
        other => panic!("unexpected {other:?}"),
    }
}

fn circle(name: &str, cx: i64, cy: i64) -> SetCircle {
    SetCircle { name: name.to_owned(), shape: Ellipse { cx, cy, rx: 8, ry: 4 } }
}

fn inside(e: Ellipse, x: usize, y: usize, inset: f64) -> bool {
    let rx = (e.rx as f64 * inset).max(1.0);
    let ry = (e.ry as f64 * inset).max(1.0);
    let dx = (x as f64 - e.cx as f64) / rx;
    let dy = (y as f64 - e.cy as f64) / ry;
    dx * dx + dy * dy <= 1.0
}

fn contains_at_eight_tenths(e: Ellipse, x: usize, y: usize, inset: Inset) -> bool {
    match inset {
        Inset::Outside => inside(e, x, y, 0.92),
        _ => inside(e, x, y, 0.8),
    }
}

#[test]
fn exact_region_membership_requires_every_requested_set() {
    let circles = vec![circle("A", 8, 5), circle("B", 14, 5)];
    let both = vec![0, 1];
    let f = contains_at_eight_tenths;
    assert!(point_matches_region(&circles, &both, 11, 5, true, Inset::Marker, &f));
    assert!(!point_matches_region(&circles, &both, 5, 5, true, Inset::Marker, &f));

    let only_a = vec![0];
    assert!(point_matches_region(&circles, &only_a, 4, 5, true, Inset::Marker, &f));
    assert!(!point_matches_region(&circles, &only_a, 11, 5, true, Inset::Marker, &f));
}

fn subset(sets: &[&str], label: Option<&str>, size: &str) -> VennSubset {
    VennSubset {
        sets: sets.iter().map(|s| s.to_string()).collect(),
        label: label.map(str::to_owned),
        size_text: size.to_owned(),
    }
}

fn two_sets(_singletons: Vec<usize>, _width: usize, _height: usize) -> Vec<Ellipse> {
    vec![Ellipse { cx: 9, cy: 8, rx: 8, ry: 4 }, Ellipse { cx: 17, cy: 8, rx: 8, ry: 4 }]
}

fn integer_offset(major: i64, minor: i64, d: i64) -> i64 {
    if minor == 0 {
        return 0;
    }
    let mut w = 0;
    while (w + 1) * (w + 1) * minor * minor <= major * major * (minor * minor - d * d) {
        w += 1;
    }
    w
}

#[test]
fn venn_without_single_set_subsets_is_a_placeholder() {
    let model = VennDiagram {
        title: Some("Sets".to_owned()),
        subsets: vec![subset(&["A", "B"], None, "1.0")],
        text_nodes: Vec::new(),
        style_entries: Vec::new(),
    };
    let out = render_venn(&model, &MermansiOptions::unicode(), two_sets, integer_offset, contains_at_eight_tenths).unwrap();
    assert_eq!(out, "Sets\n\n(empty venn diagram)\n");
}

#[test]
fn venn_subset_count_is_bounded() {
    let subsets = (0..4097).map(|_| subset(&["A"], None, "1.0")).collect();
    let model = VennDiagram { title: None, subsets, text_nodes: Vec::new(), style_entries: Vec::new() };
    match render_venn(&model, &MermansiOptions::unicode(), two_sets, integer_offset, contains_at_eight_tenths) {
        Err(MermansiError::RenderLimit { context, requested, limit }) => {
            assert_eq!((context, requested, limit), ("venn subsets", 4097, 4096));
        }
        other => panic!("unexpected {other:?}"),
    }
}

#[test]
fn venn_draws_sets_and_lists_intersections_styles_and_text_nodes() {
    let model = VennDiagram {
        title: None,
        subsets: vec![subset(&["A"], None, "10.0"), subset(&["B"], None, "10.0"), subset(&["A", "B"], Some("Both"), "2.5")],
        text_nodes: vec![VennTextNode { sets: vec!["A".to_owned()], id: "n1".to_owned(), label: Some("note".to_owned()) }],
        style_entries: vec![VennStyle { targets: vec!["A".to_owned()], styles: vec![("fill".to_owned(), "red".to_owned())] }],
    };
    let out = render_venn(&model, &MermansiOptions::unicode(), two_sets, integer_offset, contains_at_eight_tenths).unwrap();
    assert!(out.contains("○"), "{out}");
    assert!(out.contains("\nStyles:\n  A: fill=red\n"), "{out}");
    assert!(out.contains("\nIntersections:\n  {A∩B} size=2.5: Both\n"), "{out}");
    assert!(out.contains("\nText Nodes:\n  {A} n1: note\n"), "{out}");
}

fn section(label: &str, value_text: &str, share_text: &str, value: PieValue) -> PieSection {
    PieSection { label: label.to_owned(), value_text: value_text.to_owned(), share_text: share_text.to_owned(), value }
}

#[test]
fn pie_without_sections_is_a_placeholder() {
    let chart = PieChart { title: Some("Pets".to_owned()), show_data: false, sections: Vec::new(), positive_total: false };
    let out = render_pie(&chart, &MermansiOptions::unicode(), || Ok("drawing".to_owned())).unwrap();
    assert_eq!(out, "Pets\n\n(empty pie chart)\n");
}

#[test]
fn pie_lists_shares_and_excluded_values() {
    let chart = PieChart {
        title: None,
        show_data: true,
        sections: vec![
            section("Dogs", "3.00", "75.0%", PieValue::Plottable),
            section("Cats", "1.00", "25.0%", PieValue::Plottable),
            section("Fish", "NaN", "", PieValue::NotANumber),
            section("Owls", "-2.00", "", PieValue::Negative),
        ],
        positive_total: true,
    };
    let out = render_pie(&chart, &MermansiOptions::unicode(), || Ok("(drawing)".to_owned())).unwrap();
    let expected = "(drawing)\n\n    Label Value Share\n  -------------------\n  █ Dogs   3.00 75.0%\n  ▓ Cats   1.00 25.0%\n\nExcluded (not plotted):\n  × Fish = NaN (not a number)\n  × Owls = -2.00 (negative)\n";
    assert_eq!(out, expected);
}

#[test]
fn pie_with_zero_total_says_why_nothing_is_drawn() {
    let chart = PieChart {
        title: None,
        show_data: false,
        sections: vec![section("A", "0.00", "0.0%", PieValue::Plottable)],
        positive_total: false,
    };
    let out = render_pie(&chart, &MermansiOptions::ascii(), || panic!("no drawing expected")).unwrap();
    assert!(out.starts_with("(pie chart has zero total; no sectors plotted)\n\n"), "{out}");
    assert!(out.contains("  # A      0.0%\n"), "{out}");
}

fn radar(ticks: Option<u64>) -> RadarChart {
    RadarChart {
        title: None,
        axes: vec![
            RadarAxis { name: "a".to_owned(), label: "Speed".to_owned() },
            RadarAxis { name: "b".to_owned(), label: " ".to_owned() },
        ],
        curves: vec![RadarCurve { label: "Car".to_owned(), entries: vec!["3.00".to_owned(), "x\u{1b}[31m".to_owned()] }],
        ticks,
        graticule: "circle".to_owned(),
        show_legend: true,
    }
}

fn fake_drawing(_w: usize, _h: usize, _t: usize, labels: Vec<String>) -> mermansi::Result<RadarDrawing> {
    Ok(RadarDrawing { canvas: labels.join("|"), minimum: "0.00".to_owned(), maximum: "5.00".to_owned() })
}

#[test]
fn radar_lists_scale_axes_and_legend() {
    let out = render_radar(&radar(Some(5)), &MermansiOptions::unicode(), fake_drawing).unwrap();
    assert_eq!(out, "Speed|b\n\nScale: 0.00..5.00 · ticks=5 · circle\nAxes: Speed · b\nLegend:\n  ● Car: 3.00, x\n");
}

#[test]
fn radar_ticks_must_be_a_bounded_positive_integer() {
    assert!(matches!(
        render_radar(&radar(None), &MermansiOptions::unicode(), fake_drawing),
        Err(MermansiError::GeometryLayout { family: "radar", .. })
    ));
    assert!(matches!(
        render_radar(&radar(Some(0)), &MermansiOptions::unicode(), fake_drawing),
        Err(MermansiError::GeometryLayout { family: "radar", .. })
    ));
    assert!(matches!(
        render_radar(&radar(Some(19)), &MermansiOptions::unicode(), fake_drawing),
        Err(MermansiError::RenderLimit { context: "radar ticks", requested: 19, limit: 18 })
    ));
}

#[test]
fn radar_without_axes_is_a_placeholder() {
    let mut chart = radar(Some(5));
    chart.axes.clear();
    assert_eq!(render_radar(&chart, &MermansiOptions::unicode(), fake_drawing).unwrap(), "(empty radar chart)\n");
}
