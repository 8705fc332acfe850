use mermansi::adapters::box_geometry::{
    coalesced_geometry_edges, compress_path, endpoint, ensure_inventory, grid_index, ordered_side_pairs,
    reconstruct_path, weighted_predecessors, BoxDirection, BoxEdge, EdgeMarker, EdgeStyle, Point, Rect,
    render, BoxDiagram, BoxGroup, BoxLayout, BoxNode, EdgeLegend, RouteWorkBudget, Side, MAX_BOX_EDGES,
    MAX_BOX_ITEMS, MAX_DEPTH, MAX_LAYOUT_WORK,
};
use mermansi::MermansiOptions;
use mermansi::canvas::{draw_horizontal_line, Canvas};
use mermansi::{Charset, MermansiError};

#[test]
fn weighted_router_crosses_painted_border_instead_of_following_it() {
    let mut canvas = Canvas::new(16, 9).expect("canvas");
    draw_horizontal_line(&mut canvas, 4, 2, 13, Charset::Unicode).expect("border");
    let width = canvas.width();
    let height = canvas.height();
    let start = Point::new(3, 4);
    let target = Point::new(12, 4);
    let blocked = vec![false; width * height];
    let routed = vec![false; width * height];

    let predecessors = weighted_predecessors(
        start,
        width,
        height,
        &blocked,
        &routed,
        &canvas,
        &mut RouteWorkBudget::new(),
    )
    .expect("route work");
    let cells = reconstruct_path(
        grid_index(start, width),
        grid_index(target, width),
        width,
        &predecessors,
    )
    .expect("route");
    let painted_cells = cells
        .iter()
        .filter(|point| {
            canvas
                .get_cell(point.x, point.y)
                .is_some_and(|cell| !cell.is_empty())
        })
        .count();

    assert_eq!(
        painted_cells, 2,
        "path followed the painted border: {cells:?}"
    );
}

fn edge(from: &str, to: &str, marker_end: EdgeMarker) -> BoxEdge {
    BoxEdge {
        from: from.to_owned(),
        to: to.to_owned(),
        label: String::new(),
        marker_start: EdgeMarker::Absent,
        marker_end,
        style: EdgeStyle::Solid,
        from_side: Some(Side::Right),
        to_side: Some(Side::Left),
    }
}

#[test]
fn reverse_edge_coalescing_keeps_greedy_source_order() {
    let edges = vec![
        edge("a", "b", EdgeMarker::Arrow),
        edge("a", "b", EdgeMarker::Circle),
        BoxEdge {
            from_side: Some(Side::Left),
            to_side: Some(Side::Right),
            ..edge("b", "a", EdgeMarker::Cross)
        },
    ];

    let geometry = coalesced_geometry_edges(&edges);
    assert_eq!(geometry.len(), 2);
    assert_eq!(geometry[0].from, "a");
    assert_eq!(geometry[0].to, "b");
    assert_eq!(geometry[0].marker_start, EdgeMarker::Cross);
    assert_eq!(geometry[0].marker_end, EdgeMarker::Arrow);
    assert_eq!(geometry[1].marker_end, EdgeMarker::Circle);
}

#[test]
fn path_compression_keeps_only_turning_points() {
    let points = vec![
        Point::new(1, 1),
        Point::new(2, 1),
        Point::new(3, 1),
        Point::new(3, 2),
        Point::new(3, 3),
        Point::new(4, 3),
    ];

    assert_eq!(
        compress_path(points),
        vec![
            Point::new(1, 1),
            Point::new(3, 1),
            Point::new(3, 3),
            Point::new(4, 3),
        ]
    );
}

#[test]
fn compression_drops_repeated_points() {
    let points = vec![Point::new(0, 0), Point::new(0, 0), Point::new(0, 2), Point::new(0, 2)];
    assert_eq!(compress_path(points), vec![Point::new(0, 0), Point::new(0, 2)]);
    assert_eq!(compress_path(Vec::new()), Vec::<Point>::new());
}

#[test]
fn missing_links_give_no_path() {
    let predecessors = vec![0, usize::MAX, 1];
    assert_eq!(reconstruct_path(0, 2, 3, &predecessors), None);
    let linked = vec![0, 0, 1];
    assert_eq!(
        reconstruct_path(0, 2, 3, &linked),
        Some(vec![Point::new(0, 0), Point::new(1, 0), Point::new(2, 0)])
    );
}

#[test]
fn blocked_cells_are_never_linked() {
    let canvas = Canvas::new(3, 3).expect("canvas");
    let mut blocked = vec![false; 9];
    blocked[1] = true;
    blocked[4] = true;
    let routed = vec![false; 9];
    let predecessors = weighted_predecessors(Point::new(0, 0), 3, 3, &blocked, &routed, &canvas, &mut RouteWorkBudget::new())
        .expect("route");
    assert_eq!(predecessors[0], 0);
    assert_eq!(predecessors[1], usize::MAX);
    assert_eq!(predecessors[4], usize::MAX);
    assert_eq!(predecessors[3], 0);
    assert_eq!(predecessors[2], 5);
}

#[test]
fn inventory_limits_are_typed() {
    assert!(ensure_inventory(MAX_BOX_ITEMS, MAX_BOX_EDGES).is_ok());
    assert!(matches!(
        ensure_inventory(MAX_BOX_ITEMS + 1, 0),
        Err(MermansiError::RenderLimit { context: "box geometry items", .. })
    ));
    assert!(matches!(
        ensure_inventory(0, MAX_BOX_EDGES + 1),
        Err(MermansiError::RenderLimit { context: "box geometry edges", .. })
    ));
}

#[test]
fn geometry_helpers() {
    let rect = Rect { x: 2, y: 3, width: 5, height: 3 };
    assert_eq!(rect.right(), 6);
    assert_eq!(rect.bottom(), 5);
    assert_eq!(rect.center(), Point::new(4, 4));
    let left = endpoint(rect, Side::Left, 20, 20).expect("left");
    assert_eq!(left.border, Point::new(2, 4));
    assert_eq!(left.outside, Point::new(1, 4));
    assert!(endpoint(Rect { x: 0, y: 0, width: 2, height: 2 }, Side::Left, 20, 20).is_none());
    let pairs = ordered_side_pairs(rect, Rect { x: 12, y: 3, width: 5, height: 3 });
    assert_eq!(pairs.len(), 16);
    assert_eq!(pairs[0], (Side::Right, Side::Left));
    assert_eq!(pairs[1], (Side::Bottom, Side::Top));
    assert_eq!(BoxDirection::from_str("lr"), BoxDirection::Lr);
    assert_eq!(BoxDirection::from_str("sideways"), BoxDirection::Tb);
    assert_eq!(BoxDirection::Rl.edge_sides(), (Side::Left, Side::Right));
    assert_eq!(Side::from_port('b'), Some(Side::Bottom));
    assert_eq!(Side::from_port('x'), None);
}

#[test]
fn shared_box_inventory_is_bounded_before_layout() {
    let nodes = (0..=MAX_BOX_ITEMS)
        .map(|index| BoxNode {
            id: format!("node-{index}"),
            lines: vec!["node".to_owned()],
            dividers: Vec::new(),
            parent: None,
            span: 1,
            order: index,
        })
        .collect();
    let diagram = BoxDiagram {
        family: "test",
        title: None,
        nodes,
        groups: Vec::new(),
        spacers: Vec::new(),
        edges: Vec::new(),
        columns: None,
        layout: BoxLayout::Packed,
        edge_legend: EdgeLegend::Hidden,
    };

    assert!(matches!(
        render(&diagram, &MermansiOptions::unicode()),
        Err(MermansiError::RenderLimit {
            context: "box geometry items",
            requested,
            limit: MAX_BOX_ITEMS,
        }) if requested == MAX_BOX_ITEMS + 1
    ));
}

#[test]
fn shared_box_edge_inventory_is_bounded_before_routing() {
    let edge = BoxEdge {
        from: "a".to_owned(),
        to: "b".to_owned(),
        label: String::new(),
        marker_start: EdgeMarker::Absent,
        marker_end: EdgeMarker::Arrow,
        style: EdgeStyle::Solid,
        from_side: None,
        to_side: None,
    };
    let diagram = BoxDiagram {
        family: "test",
        title: None,
        nodes: Vec::new(),
        groups: Vec::new(),
        spacers: Vec::new(),
        edges: vec![edge; MAX_BOX_EDGES + 1],
        columns: None,
        layout: BoxLayout::Packed,
        edge_legend: EdgeLegend::Hidden,
    };

    assert!(matches!(
        render(&diagram, &MermansiOptions::unicode()),
        Err(MermansiError::RenderLimit {
            context: "box geometry edges",
            requested,
            limit: MAX_BOX_EDGES,
        }) if requested == MAX_BOX_EDGES + 1
    ));
}

#[test]
fn shared_box_layout_work_is_bounded_before_text_normalization() {
    let diagram = BoxDiagram {
        family: "test",
        title: None,
        nodes: vec![BoxNode {
            id: "node".to_owned(),
            lines: vec!["x".repeat(MAX_LAYOUT_WORK)],
            dividers: Vec::new(),
            parent: None,
            span: 1,
            order: 0,
        }],
        groups: Vec::new(),
        spacers: Vec::new(),
        edges: Vec::new(),
        columns: None,
        layout: BoxLayout::Packed,
        edge_legend: EdgeLegend::Hidden,
    };

    assert!(matches!(
        render(&diagram, &MermansiOptions::unicode()),
        Err(MermansiError::RenderLimit {
            context: "box layout work",
            requested,
            limit: MAX_LAYOUT_WORK,
        }) if requested > MAX_LAYOUT_WORK
    ));
}

#[test]
fn shared_box_nesting_depth_is_a_typed_limit() {
    let groups = (0..=MAX_DEPTH)
        .map(|index| BoxGroup {
            id: format!("group-{index}"),
            lines: vec![format!("group {index}")],
            parent: index.checked_sub(1).map(|parent| format!("group-{parent}")),
            columns: None,
            span: 1,
            order: index,
        })
        .collect();
    let diagram = BoxDiagram {
        family: "test",
        title: None,
        nodes: Vec::new(),
        groups,
        spacers: Vec::new(),
        edges: Vec::new(),
        columns: None,
        layout: BoxLayout::Packed,
        edge_legend: EdgeLegend::Hidden,
    };

    assert!(matches!(
        render(&diagram, &MermansiOptions::unicode()),
        Err(MermansiError::RenderLimit {
            context: "box geometry depth",
            requested,
            limit: MAX_DEPTH,
        }) if requested == MAX_DEPTH + 1
    ));
}

#[test]
fn shared_box_rejects_a_fully_unreachable_group_cycle() {
    let groups = vec![
        BoxGroup {
            id: "first".to_owned(),
            lines: vec!["First".to_owned()],
            parent: Some("second".to_owned()),
            columns: None,
            span: 1,
            order: 0,
        },
        BoxGroup {
            id: "second".to_owned(),
            lines: vec!["Second".to_owned()],
            parent: Some("first".to_owned()),
            columns: None,
            span: 1,
            order: 1,
        },
    ];
    let diagram = BoxDiagram {
        family: "test",
        title: Some("must not hide the cycle".to_owned()),
        nodes: Vec::new(),
        groups,
        spacers: Vec::new(),
        edges: Vec::new(),
        columns: None,
        layout: BoxLayout::Packed,
        edge_legend: EdgeLegend::Hidden,
    };

    assert!(matches!(
        render(&diagram, &MermansiOptions::unicode()),
        Err(MermansiError::GeometryLayout {
            family: "test",
            message,
        }) if message.contains("group cycle")
    ));
}

#[test]
fn shared_box_refuses_a_canvas_below_the_minimum_width() {
    let diagram = BoxDiagram {
        family: "test",
        title: None,
        nodes: vec![BoxNode {
            id: "a".to_owned(),
            lines: vec!["A".to_owned()],
            dividers: Vec::new(),
            parent: None,
            span: 1,
            order: 0,
        }],
        groups: Vec::new(),
        spacers: Vec::new(),
        edges: Vec::new(),
        columns: None,
        layout: BoxLayout::Packed,
        edge_legend: EdgeLegend::Hidden,
    };

    assert!(matches!(
        render(&diagram, &MermansiOptions::unicode().with_max_width(11)),
        Err(MermansiError::RenderLimit { context: "box geometry columns", requested: 12, limit: 11 })
    ));
}
