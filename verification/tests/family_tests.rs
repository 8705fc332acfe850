use mermansi::adapters::ishikawa::{compressed_slot_width, interpolate_x, render_ishikawa, IshikawaDiagram, IshikawaNode};
use mermansi::adapters::eventmodeling::{
    data_id, frame_id, render_eventmodeling, EventDataEntity, EventFrame, EventModelingDiagram,
};
use mermansi::adapters::architecture::{
    horizontal_pull, render_architecture, vertical_precedence, ArchitectureDiagram, ArchitectureEdge,
    ArchitectureGroup, ArchitectureNode, ArchitectureNodeKind,
};
use mermansi::adapters::block::{render_block, Block, BlockDiagram, BlockEdge};
use mermansi::adapters::c4::{positive, render_c4, C4Boundary, C4Diagram, C4Rel, C4Shape};
use mermansi::adapters::info::render_info;
use mermansi::adapters::requirement::{
    render_requirement, Requirement, RequirementDiagram, RequirementElement, RequirementRelationship,
};
use mermansi::adapters::box_geometry::{BoxDirection, BoxNodeShape, EdgeMarker};
use mermansi::adapters::flowchart::{
    directional_order, edge_marker, flow_node_shape, node_label, render_fallback, render_flowchart, Delegated,
    FlowchartEdge, FlowchartNode, FlowchartSubgraph, Flowchart, MembershipIndex, MAX_SUBGRAPH_DEPTH, MAX_SUBGRAPH_MEMBERSHIPS,
};
use mermansi::adapters::flowchart::lanes::{render_lane_geometry, requires_lane_geometry};
use mermansi::adapters::journey::{render_journey, score_bar, Journey, JourneyTask};
use mermansi::adapters::kanban::{render_kanban, KanbanItem};
use mermansi::adapters::mindmap::{render_mindmap, Mindmap, MindmapIdea, MindmapLink};
use mermansi::adapters::timeline::{render_timeline, Timeline, TimelinePeriod};
use mermansi::adapters::treeview::{render_treeview, TreeEntry, TreeView};
use mermansi::adapters::{nonempty_or, starts_new_section_run};
use mermansi::Charset;
use mermansi::options::OutputMode;
use mermansi::{render_source, MermansiError, MermansiOptions};

fn node(text: &str, children: Vec<IshikawaNode>) -> IshikawaNode {
    IshikawaNode { text: text.to_owned(), children }
}

#[test]
fn ishikawa_draws_effect_causes_and_subcauses() {
    let model = IshikawaDiagram {
        title: None,
        root: Some(node(
            "Blurry Photo",
            vec![node("Process", vec![node("Out of focus", vec![])]), node("User", vec![node("Shaky hands", vec![])])],
        )),
    };
    let out = render_ishikawa(&model, &MermansiOptions::unicode()).unwrap();
    assert!(out.contains("Blurry Photo"));
    assert!(out.contains("Process"));
    assert!(out.contains("User"));
    assert!(out.contains("◆"));
    assert!(out.contains("╲"));
    assert!(out.contains("╱"));
    let ascii = render_ishikawa(&model, &MermansiOptions::ascii()).unwrap();
    assert!(ascii.is_ascii());
    assert!(ascii.contains('*'));
}

#[test]
fn ishikawa_without_a_root_is_a_notice() {
    let model = IshikawaDiagram { title: Some("t".to_owned()), root: None };
    assert_eq!(render_ishikawa(&model, &MermansiOptions::unicode()).unwrap(), "(empty ishikawa diagram)\n");
}

#[test]
fn ishikawa_depth_is_bounded() {
    let mut deepest = node("leaf", vec![]);
    for _ in 0..70 {
        deepest = node("level", vec![deepest]);
    }
    let model = IshikawaDiagram { title: None, root: Some(deepest) };
    assert!(matches!(
        render_ishikawa(&model, &MermansiOptions::unicode()),
        Err(MermansiError::RenderLimit { context: "ishikawa depth", requested: 65, limit: 64 })
    ));
}

#[test]
fn ishikawa_node_count_is_bounded() {
    let causes = (0..4096).map(|_| node("cause", vec![])).collect();
    let model = IshikawaDiagram { title: None, root: Some(node("effect", causes)) };
    assert!(matches!(
        render_ishikawa(&model, &MermansiOptions::unicode()),
        Err(MermansiError::RenderLimit { context: "ishikawa nodes", requested: 4097, limit: 4096 })
    ));
}

#[test]
fn ishikawa_labels_that_do_not_fit_become_callouts() {
    let long = "a very long cause label that cannot fit in its slot";
    let model = IshikawaDiagram { title: None, root: Some(node("Effect", vec![node(long, vec![])])) };
    let out = render_ishikawa(&model, &MermansiOptions::unicode()).unwrap();
    assert!(out.contains("Labels:"));
    assert!(out.contains(&format!("  [1] {long}")));
}

#[test]
fn ishikawa_geometry_helpers() {
    assert_eq!(compressed_slot_width(24, 2, 20, 100), 24);
    assert_eq!(compressed_slot_width(24, 4, 20, 100), 20);
    assert_eq!(compressed_slot_width(24, 10, 20, 60), 12);
    assert_eq!(interpolate_x(2, 1, 10, 9, 5), 6);
    assert_eq!(interpolate_x(2, 1, 10, 1, 5), 10);
}

#[test]
fn ishikawa_source_is_drawn_by_the_library() {
    let source = "ishikawa-beta\n    Blurry Photo\n        Process\n            Out of focus\n        User\n";
    let out = render_source(source, &MermansiOptions::unicode().with_output_mode(OutputMode::Concise)).unwrap();
    assert!(out.contains("Blurry Photo"));
    assert!(out.contains("Out of focus"));
}

fn frame(name: &str, kind: &str, entity_type: &str, sources: &[&str], reference: Option<&str>) -> EventFrame {
    EventFrame {
        name: name.to_owned(),
        frame_kind: kind.to_owned(),
        model_entity_type: entity_type.to_owned(),
        entity_identifier: format!("{name}-id"),
        source_frames: sources.iter().map(|s| (*s).to_owned()).collect(),
        data_inline_value: None,
        data_reference: reference.map(str::to_owned),
    }
}

#[test]
fn eventmodeling_ids_are_numbered() {
    assert_eq!(frame_id(0), "event-frame-0");
    assert_eq!(data_id(12), "event-data-12");
}

#[test]
fn eventmodeling_draws_frames_data_and_links() {
    let model = EventModelingDiagram {
        title: None,
        frames: vec![
            frame("001", "ui", "Cart", &[], None),
            frame("002", "cmd", "AddItem", &[], Some("Item")),
        ],
        data_entities: vec![EventDataEntity { name: "Item".to_owned(), data_block_value: "{ id }\n\n qty ".to_owned() }],
    };
    let out = render_eventmodeling(&model, &MermansiOptions::unicode()).unwrap();
    assert!(out.contains("Event Modeling"));
    assert!(out.contains("[ui] 001"));
    assert!(out.contains("[cmd] 002"));
    assert!(out.contains("type: AddItem"));
    assert!(out.contains("ref: Item"));
    assert!(out.contains("[data] Item"));
    assert!(out.contains("qty"));
}

#[test]
fn eventmodeling_refuses_unknown_source_frames_and_empty_models_are_a_notice() {
    let model = EventModelingDiagram {
        title: Some("T".to_owned()),
        frames: vec![frame("001", "evt", "A", &["missing"], None)],
        data_entities: Vec::new(),
    };
    assert!(matches!(
        render_eventmodeling(&model, &MermansiOptions::unicode()),
        Err(MermansiError::GeometryLayout { family: "eventmodeling", message })
            if message == "source frame is not present in the frame inventory: missing"
    ));
    let empty = EventModelingDiagram { title: None, frames: Vec::new(), data_entities: Vec::new() };
    assert_eq!(render_eventmodeling(&empty, &MermansiOptions::unicode()).unwrap(), "(empty event modeling diagram)\n");
}

fn service(id: &str, title: Option<&str>, icon: Option<&str>, group: Option<&str>) -> ArchitectureNode {
    ArchitectureNode {
        id: id.to_owned(),
        kind: ArchitectureNodeKind::Service,
        icon: icon.map(str::to_owned),
        icon_text: None,
        title: title.map(str::to_owned),
        in_group: group.map(str::to_owned),
    }
}

#[test]
fn architecture_port_directions() {
    assert_eq!(vertical_precedence('B', 'T'), Some(true));
    assert_eq!(vertical_precedence('t', 'b'), Some(false));
    assert_eq!(vertical_precedence('L', 'R'), None);
    assert_eq!(horizontal_pull('R', 'L'), -1);
    assert_eq!(horizontal_pull('l', 'r'), 1);
    assert_eq!(horizontal_pull('T', 'B'), 0);
}

#[test]
fn architecture_draws_groups_services_and_ports() {
    let model = ArchitectureDiagram {
        title: None,
        nodes: vec![
            service("db", Some("Database"), Some("database"), Some("api")),
            service("server", Some("server"), Some("server"), Some("api")),
        ],
        groups: vec![ArchitectureGroup { id: "api".to_owned(), icon: Some("cloud".to_owned()), title: Some("API".to_owned()), in_group: None }],
        edges: vec![ArchitectureEdge {
            lhs_id: "db".to_owned(),
            lhs_dir: 'B',
            lhs_into: None,
            rhs_id: "server".to_owned(),
            rhs_dir: 'T',
            rhs_into: Some(true),
            title: None,
        }],
    };
    let out = render_architecture(&model, &MermansiOptions::unicode()).unwrap();
    assert!(out.contains("Architecture"));
    assert!(out.contains("api · API"));
    assert!(out.contains("[cloud]"));
    assert!(out.contains("db · Database"));
    assert!(out.contains("[service · database]"));
    assert!(out.contains("ports B -> T"));
    let db_row = out.lines().position(|l| l.contains("db · Database")).unwrap();
    let server_row = out.lines().position(|l| l.contains("[service · server]")).unwrap();
    assert!(db_row < server_row);
}

#[test]
fn architecture_source_is_drawn_by_the_library() {
    let source = "architecture-beta\n    group api(cloud)[API]\n    service db(database)[Database] in api\n    service server(server)[Server] in api\n    db:L -- R:server\n";
    let out = render_source(source, &MermansiOptions::ascii().with_output_mode(OutputMode::Concise)).unwrap();
    assert!(out.contains("Database"));
    assert!(out.contains("ports L -> R"));
}

#[test]
fn c4_layout_hints_and_drawing() {
    assert_eq!(positive(3), Some(3));
    assert_eq!(positive(0), None);
    assert_eq!(positive(-2), None);
    let model = C4Diagram {
        c4_type: "C4Context".to_owned(),
        title: Some("  Banking   system ".to_owned()),
        shape_in_row: 0,
        boundary_in_row: 0,
        shapes: vec![
            C4Shape {
                alias: "customer".to_owned(),
                parent_boundary: "global".to_owned(),
                type_c4_shape: "person".to_owned(),
                label: "Customer".to_owned(),
                techn: None,
                descr: Some("A  bank customer".to_owned()),
            },
            C4Shape {
                alias: "bank".to_owned(),
                parent_boundary: "b1".to_owned(),
                type_c4_shape: "system".to_owned(),
                label: "bank".to_owned(),
                techn: Some("Java".to_owned()),
                descr: None,
            },
        ],
        boundaries: vec![
            C4Boundary {
                alias: "global".to_owned(),
                parent_boundary: String::new(),
                label: String::new(),
                ty: None,
                descr: None,
                node_type: None,
            },
            C4Boundary {
                alias: "b1".to_owned(),
                parent_boundary: "global".to_owned(),
                label: "Bank".to_owned(),
                ty: Some("Enterprise".to_owned()),
                descr: None,
                node_type: None,
            },
        ],
        rels: vec![C4Rel {
            from_alias: "customer".to_owned(),
            to_alias: "bank".to_owned(),
            rel_type: "BiRel".to_owned(),
            label: "Uses".to_owned(),
            techn: Some("HTTPS".to_owned()),
            descr: None,
        }],
    };
    let out = render_c4(&model, &MermansiOptions::unicode()).unwrap();
    assert!(out.contains("C4Context · Banking system"));
    assert!(out.contains("customer · Customer"));
    assert!(out.contains("[person]"));
    assert!(out.contains("A bank customer"));
    assert!(out.contains("technology · Java"));
    assert!(out.contains("b1 · Bank"));
    assert!(out.contains("[Enterprise]"));
    assert!(!out.contains("global"));
}

fn block(id: &str, label: &str, block_type: &str, children: Vec<Block>, columns: Option<i64>) -> Block {
    Block { id: id.to_owned(), label: label.to_owned(), block_type: block_type.to_owned(), children, columns, width_in_columns: None }
}

#[test]
fn block_draws_nested_blocks_and_edges() {
    let model = BlockDiagram {
        root: Some(block(
            "root",
            "",
            "composite",
            vec![
                block("a", "A", "square", vec![], None),
                block("g", "", "composite", vec![block("c", "C", "round", vec![], None)], Some(2)),
                block("s", "", "space", vec![], None),
            ],
            Some(3),
        )),
        edges: vec![BlockEdge {
            start: "a".to_owned(),
            end: "c".to_owned(),
            label: "  go ".to_owned(),
            arrow_type_start: None,
            arrow_type_end: Some("arrow_point".to_owned()),
        }],
    };
    let out = render_block(&model, &MermansiOptions::unicode()).unwrap();
    assert!(out.contains("Block diagram"));
    assert!(out.contains("a · A"));
    assert!(out.contains("[group · 2 columns]"));
    assert!(out.contains("c · C"));
    assert!(out.contains("[round]"));
    assert!(out.contains("go"));
}

#[test]
fn block_nesting_is_bounded() {
    let mut inner = block("leaf", "", "square", vec![], None);
    for i in 0..70 {
        inner = block(&format!("g{i}"), "", "composite", vec![inner], None);
    }
    let model = BlockDiagram { root: Some(block("root", "", "composite", vec![inner], None)), edges: vec![] };
    assert!(matches!(
        render_block(&model, &MermansiOptions::unicode()),
        Err(MermansiError::GeometryLayout { family: "block", message }) if message == "nesting exceeds 64 levels"
    ));
}

#[test]
fn requirement_draws_requirements_elements_and_relationships() {
    assert_eq!(nonempty_or("  ", "(unnamed)"), "(unnamed)");
    assert_eq!(nonempty_or("x", "(unnamed)"), "x");
    let model = RequirementDiagram {
        direction: "TB".to_owned(),
        requirements: vec![Requirement {
            name: "test_req".to_owned(),
            node_type: "Requirement".to_owned(),
            requirement_id: "1".to_owned(),
            text: "the test text.".to_owned(),
            risk: "High".to_owned(),
            verify_method: "Test".to_owned(),
        }],
        elements: vec![RequirementElement { name: "test_entity".to_owned(), element_type: "simulation".to_owned(), doc_ref: String::new() }],
        relationships: vec![RequirementRelationship { rel_type: "satisfies".to_owned(), src: "test_entity".to_owned(), dst: "test_req".to_owned() }],
    };
    let out = render_requirement(&model, &MermansiOptions::unicode()).unwrap();
    assert!(out.contains("Requirement diagram"));
    assert!(out.contains("[Requirement] test_req"));
    assert!(out.contains("id: 1"));
    assert!(out.contains("risk: High"));
    assert!(out.contains("verify: Test"));
    assert!(out.contains("[simulation] test_entity"));
    assert!(!out.contains("docRef"));
    assert!(out.contains("satisfies"));
}

#[test]
fn info_box_shows_the_flag() {
    let out = render_info(true, &MermansiOptions::unicode()).unwrap();
    assert!(out.contains("Mermaid Info"));
    assert!(out.contains("showInfo: true"));
    assert_eq!(out.lines().count(), 5);
    assert!(matches!(
        render_info(false, &MermansiOptions::unicode().with_max_width(10)),
        Err(MermansiError::RenderLimit { context: "info columns", requested: 19, limit: 10 })
    ));
    let out = render_source("info", &MermansiOptions::ascii().with_output_mode(OutputMode::Concise)).unwrap();
    assert!(out.contains("Mermaid Info"));
}

fn subgraph(id: impl Into<String>, nodes: Vec<String>) -> FlowchartSubgraph {
    let id = id.into();
    FlowchartSubgraph { title: id.clone(), id, nodes }
}

#[test]
fn subgraph_depth_is_bounded_independent_of_source_order() {
    let mut groups = (0..=MAX_SUBGRAPH_DEPTH)
        .map(|index| {
            let child = if index < MAX_SUBGRAPH_DEPTH { vec![format!("group-{}", index + 1)] } else { Vec::new() };
            subgraph(format!("group-{index}"), child)
        })
        .collect::<Vec<_>>();
    groups.reverse();

    assert!(matches!(
        MembershipIndex::new(&Vec::new(), &groups),
        Err(MermansiError::RenderLimit {
            context: "flowchart subgraph depth",
            requested,
            limit: MAX_SUBGRAPH_DEPTH,
        }) if requested == MAX_SUBGRAPH_DEPTH + 1
    ));
}

#[test]
fn subgraph_memberships_are_bounded_before_indexing() {
    let groups = vec![subgraph("group", vec![String::new(); MAX_SUBGRAPH_MEMBERSHIPS + 1])];

    assert!(matches!(
        MembershipIndex::new(&Vec::new(), &groups),
        Err(MermansiError::RenderLimit {
            context: "flowchart subgraph memberships",
            requested,
            limit: MAX_SUBGRAPH_MEMBERSHIPS,
        }) if requested == MAX_SUBGRAPH_MEMBERSHIPS + 1
    ));
}

#[test]
fn missing_subgraph_members_are_not_silently_dropped() {
    let groups = vec![subgraph("group", vec!["missing".to_owned()])];

    assert!(matches!(
        MembershipIndex::new(&Vec::new(), &groups),
        Err(MermansiError::GeometryLayout {
            family: "flowchart",
            message,
        }) if message.contains("references missing member missing")
    ));
}

fn flow_node(id: &str, label: Option<&str>, shape: Option<&str>) -> FlowchartNode {
    FlowchartNode { id: id.to_owned(), label: label.map(str::to_owned), layout_shape: shape.map(str::to_owned) }
}

fn flow_edge(from: &str, to: &str, label: Option<&str>, edge_type: &str) -> FlowchartEdge {
    FlowchartEdge {
        from: from.to_owned(),
        to: to.to_owned(),
        label: label.map(str::to_owned),
        edge_type: Some(edge_type.to_owned()),
        stroke: Some("normal".to_owned()),
    }
}

#[test]
fn flowchart_helpers() {
    assert_eq!(edge_marker(&None), EdgeMarker::Arrow);
    assert_eq!(edge_marker(&Some("arrow_open".to_owned())), EdgeMarker::Absent);
    assert_eq!(edge_marker(&Some("double_arrow_circle".to_owned())), EdgeMarker::Circle);
    assert_eq!(edge_marker(&Some("arrow_cross".to_owned())), EdgeMarker::Cross);
    assert_eq!(flow_node_shape(&Some("Diamond".to_owned())), BoxNodeShape::Decision);
    assert_eq!(flow_node_shape(&Some("cyl".to_owned())), BoxNodeShape::Cylinder);
    assert_eq!(flow_node_shape(&Some("stadium".to_owned())), BoxNodeShape::Rounded);
    assert_eq!(flow_node_shape(&None), BoxNodeShape::Rectangle);
    assert_eq!(node_label(&Some("  ".to_owned()), "id"), "id");
    assert_eq!(node_label(&None, "id"), "id");
    assert_eq!(node_label(&Some("Label".to_owned()), "id"), "Label");
    assert_eq!(directional_order(2, 3, 5, 10, BoxDirection::Tb), 23);
    assert_eq!(directional_order(2, 3, 5, 10, BoxDirection::Bt), 33);
}

#[test]
fn flowchart_fallback_draws_subgraphs_shapes_and_relationships() {
    let model = Flowchart {
        direction: Some("TD".to_owned()),
        nodes: vec![flow_node("A", Some("Start"), Some("stadium")), flow_node("B", Some("Check"), Some("diamond")), flow_node("C", None, None)],
        edges: vec![flow_edge("A", "B", Some("go"), "arrow_point"), flow_edge("B", "C", None, "arrow_point")],
        subgraphs: vec![subgraph("S", vec!["B".to_owned(), "C".to_owned()])],
    };
    let out = render_fallback(&model, &MermansiOptions::unicode()).unwrap();
    assert!(out.contains("Start"));
    assert!(out.contains("Check"));
    assert!(out.contains(" A --> B: go") || out.contains("A") && out.contains("go"));
    assert!(out.contains("S"));
    let empty = Flowchart { direction: None, nodes: vec![], edges: vec![], subgraphs: vec![] };
    assert_eq!(render_fallback(&empty, &MermansiOptions::unicode()).unwrap(), "(empty flowchart)\n");
}

#[test]
fn flowchart_uses_the_delegate_only_for_plain_charts() {
    let plain = Flowchart {
        direction: Some("LR".to_owned()),
        nodes: vec![flow_node("A", Some("A"), None), flow_node("B", Some("B"), None)],
        edges: vec![flow_edge("A", "B", None, "arrow_point")],
        subgraphs: vec![],
    };
    let out = render_flowchart(&plain, &MermansiOptions::unicode(), || Delegated::Drawn("drawn\n".to_owned())).unwrap();
    assert_eq!(out, "drawn\n");
    let fallback = render_flowchart(&plain, &MermansiOptions::unicode(), || Delegated::Unsupported).unwrap();
    assert!(fallback.contains("A"));
    assert_ne!(fallback, "drawn\n");
    assert!(matches!(
        render_flowchart(&plain, &MermansiOptions::unicode(), || Delegated::Failed(MermansiError::UnsupportedFamily { family: "x".to_owned() })),
        Err(MermansiError::UnsupportedFamily { .. })
    ));
    let shaped = Flowchart {
        direction: None,
        nodes: vec![flow_node("A", Some("A"), Some("diamond"))],
        edges: vec![],
        subgraphs: vec![],
    };
    let out = render_flowchart(&shaped, &MermansiOptions::unicode(), || Delegated::Drawn("never".to_owned())).unwrap();
    assert_ne!(out, "never");
}

#[test]
fn flowchart_with_subgraph_source_renders() {
    let source = "flowchart TD\n  subgraph one\n    a1-->a2\n  end\n  c1{Decide}-->a1\n";
    let out = render_source(source, &MermansiOptions::unicode().with_output_mode(OutputMode::Concise)).unwrap();
    assert!(out.contains("Decide"));
    assert!(out.contains("a1"));
    assert!(out.contains("one"));
}

#[test]
fn flowchart_lanes_draw_self_loops_and_parallel_edges() {
    let looped = Flowchart {
        direction: Some("TD".to_owned()),
        nodes: vec![flow_node("A", Some("Alpha"), None), flow_node("B", Some("Beta"), None)],
        edges: vec![flow_edge("A", "A", Some("again"), "arrow_point"), flow_edge("A", "B", None, "arrow_point")],
        subgraphs: vec![],
    };
    assert!(requires_lane_geometry(&looped));
    let out = render_lane_geometry(&looped, &MermansiOptions::unicode()).unwrap().unwrap();
    assert!(out.contains("Alpha"));
    assert!(out.contains("Beta"));
    assert!(out.contains("again"));
    assert!(out.contains('◀'));
    assert!(out.contains('▶'));
    assert!(out.ends_with('\n'));
    let parallel = Flowchart {
        direction: Some("LR".to_owned()),
        nodes: vec![flow_node("A", None, None), flow_node("B", None, None)],
        edges: vec![flow_edge("A", "B", Some("one"), "arrow_point"), flow_edge("B", "A", Some("two"), "arrow_open")],
        subgraphs: vec![],
    };
    assert!(requires_lane_geometry(&parallel));
    let out = render_lane_geometry(&parallel, &MermansiOptions::ascii()).unwrap().unwrap();
    assert!(out.contains("one"));
    assert!(out.contains("two"));
    assert!(out.contains('v'));
    let plain = Flowchart {
        direction: None,
        nodes: vec![flow_node("A", None, None), flow_node("B", None, None)],
        edges: vec![flow_edge("A", "B", None, "arrow_point")],
        subgraphs: vec![],
    };
    assert!(!requires_lane_geometry(&plain));
    let odd = Flowchart { direction: Some("XX".to_owned()), ..parallel };
    assert!(render_lane_geometry(&odd, &MermansiOptions::ascii()).unwrap().is_none());
}

#[test]
fn flowchart_self_loop_source_uses_lanes() {
    let out = render_source("flowchart TD\n  A[Start] --> A\n  A --> B\n", &MermansiOptions::unicode().with_output_mode(OutputMode::Concise)).unwrap();
    assert!(out.contains("Start"));
    assert!(out.contains('◀'));
}

#[test]
fn section_runs_and_placeholders() {
    let mut previous = None;
    assert!(starts_new_section_run(&mut previous, "A"));
    assert!(!starts_new_section_run(&mut previous, "A"));
    assert!(starts_new_section_run(&mut previous, "B"));
    assert!(!starts_new_section_run(&mut previous, "  "));
    assert_eq!(previous, None);
    assert!(starts_new_section_run(&mut previous, "B"));
    assert_eq!(nonempty_or(" ", "x"), "x");
}

#[test]
fn timeline_draws_sections_periods_and_events() {
    let model = Timeline {
        title: Some("  History ".to_owned()),
        sections: vec!["Early".to_owned()],
        tasks: vec![
            TimelinePeriod { section: "Early".to_owned(), task_type: "Early".to_owned(), task: "2002".to_owned(), score: 0, events: vec!["LinkedIn".to_owned()] },
            TimelinePeriod { section: "Late".to_owned(), task_type: "kind".to_owned(), task: "2004".to_owned(), score: -3, events: vec![] },
        ],
    };
    let out = render_timeline(&model, &MermansiOptions::unicode()).unwrap();
    assert!(out.contains("History"));
    assert!(out.contains("[Section] Early"));
    assert!(out.contains("[Period] 2002"));
    assert!(out.contains("[Event] LinkedIn"));
    assert!(out.contains("[Section] Late"));
    assert!(out.contains("type: kind"));
    assert!(out.contains("score: -3"));
    let empty = Timeline { title: None, sections: vec![], tasks: vec![] };
    assert_eq!(render_timeline(&empty, &MermansiOptions::unicode()).unwrap(), "Timeline\n\n(empty timeline)\n");
}

#[test]
fn journey_draws_actors_tasks_and_score_bars() {
    assert_eq!(score_bar(3, false, Charset::Unicode), "███░░");
    assert_eq!(score_bar(9, false, Charset::Ascii), "#####");
    assert_eq!(score_bar(-1, false, Charset::Ascii), "-----");
    assert_eq!(score_bar(0, true, Charset::Ascii), "?????");
    let model = Journey {
        title: Some("My day".to_owned()),
        sections: vec!["Go to work".to_owned()],
        tasks: vec![JourneyTask {
            score: 5,
            score_is_nan: false,
            people: vec!["Me".to_owned(), " ".to_owned()],
            section: "Go to work".to_owned(),
            task_type: "Go to work".to_owned(),
            task: "Make tea".to_owned(),
        }],
        actors: vec!["Me".to_owned()],
    };
    let out = render_journey(&model, &MermansiOptions::ascii()).unwrap();
    assert!(out.contains("My day"));
    assert!(out.contains("[Actors]"));
    assert!(out.contains("[Task] Make tea"));
    assert!(out.contains("score: 5/5 #####"));
    assert!(out.contains("actors: Me"));
    let empty = Journey { title: None, sections: vec![], tasks: vec![], actors: vec![] };
    assert_eq!(render_journey(&empty, &MermansiOptions::ascii()).unwrap(), "Journey\n\n(empty journey)\n");
}

fn card(id: &str, label: &str, is_group: bool, parent: Option<&str>) -> KanbanItem {
    KanbanItem {
        id: id.to_owned(),
        label: label.to_owned(),
        is_group,
        parent_id: parent.map(str::to_owned),
        ticket: None,
        priority: Some(" High ".to_owned()),
        assigned: None,
        icon: None,
    }
}

#[test]
fn kanban_draws_columns_and_cards() {
    let items = vec![card("todo", "Todo", true, None), card("t1", "Write docs", false, Some("todo")), card("t2", "t2", false, Some("gone"))];
    let out = render_kanban(&items, &MermansiOptions::unicode()).unwrap();
    assert!(out.contains("Kanban"));
    assert!(out.contains("todo · Todo"));
    assert!(out.contains("t1 · Write docs"));
    assert!(out.contains("priority: High"));
    assert!(out.contains("column: gone"));
    assert_eq!(render_kanban(&Vec::new(), &MermansiOptions::unicode()).unwrap(), "Kanban\n\n(empty board)\n");
}

#[test]
fn mindmap_and_treeview_draw_their_entries() {
    let model = Mindmap {
        nodes: vec![MindmapIdea { id: "root".to_owned(), label: "Root".to_owned() }, MindmapIdea { id: "a".to_owned(), label: " ".to_owned() }],
        edges: vec![MindmapLink { start: "root".to_owned(), end: "a".to_owned() }],
    };
    let out = render_mindmap(&model, &MermansiOptions::unicode()).unwrap();
    assert!(out.contains("Mindmap"));
    assert!(out.contains("Root"));
    assert!(out.contains("(unnamed)"));
    let tree = TreeView {
        title: None,
        entries: vec![TreeEntry { name: "src".to_owned(), children: vec![TreeEntry { name: "lib.rs".to_owned(), children: vec![] }] }],
    };
    let out = render_treeview(&tree, &MermansiOptions::unicode()).unwrap();
    assert!(out.contains("Tree view"));
    assert!(out.contains("src"));
    assert!(out.contains("lib.rs"));
    let mut deep = TreeEntry { name: "leaf".to_owned(), children: vec![] };
    for _ in 0..66 {
        deep = TreeEntry { name: "d".to_owned(), children: vec![deep] };
    }
    assert!(matches!(
        render_treeview(&TreeView { title: None, entries: vec![deep] }, &MermansiOptions::unicode()),
        Err(MermansiError::RenderLimit { context: "treeView depth", requested: 65, limit: 64 })
    ));
}
