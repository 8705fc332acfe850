use mermansi::adapters::er::{render_er, ErAttribute, ErDiagram, ErEntity, ErRelationship};
use mermansi::{render_source, MermansiError, MermansiOptions};

fn entity(key: &str, attributes: Vec<ErAttribute>) -> ErEntity {
    ErEntity { key: key.to_string(), id: key.to_string(), label: key.to_string(), alias: String::new(), attributes }
}

fn relationship(a: &str, b: &str, card_a: &str, card_b: &str, rel_type: &str) -> ErRelationship {
    ErRelationship {
        entity_a: a.to_string(),
        role_a: "places".to_string(),
        entity_b: b.to_string(),
        card_a: card_a.to_string(),
        card_b: card_b.to_string(),
        rel_type: rel_type.to_string(),
    }
}

fn diagram(entities: Vec<ErEntity>, relationships: Vec<ErRelationship>) -> ErDiagram {
    ErDiagram { acc_title: None, direction: "TB".to_string(), entities, relationships }
}

#[test]
fn er_empty_diagram_is_fixed_text() {
    let out = render_er(&diagram(Vec::new(), Vec::new()), &MermansiOptions::unicode()).unwrap();
    assert_eq!(out, "ER diagram\n\n(empty ER diagram)\n");
}

#[test]
fn er_too_many_items_is_refused() {
    let attributes: Vec<ErAttribute> = (0..4096)
        .map(|i| ErAttribute { ty: "int".to_string(), name: format!("a{i}"), keys: Vec::new(), comment: String::new() })
        .collect();
    let err = render_er(&diagram(vec![entity("A", attributes)], Vec::new()), &MermansiOptions::unicode()).unwrap_err();
    assert!(matches!(err, MermansiError::RenderLimit { context: "er items", requested: 4097, limit: 4096 }));
}

#[test]
fn er_unknown_cardinality_is_refused() {
    let err = render_er(
        &diagram(Vec::new(), vec![relationship("A", "B", "ONLY_ONE", "MANY_MANY", "IDENTIFYING")]),
        &MermansiOptions::unicode(),
    )
    .unwrap_err();
    match err {
        MermansiError::GeometryLayout { family, message } => {
            assert_eq!(family, "er");
            assert_eq!(message, "unknown relationship cardinality: MANY_MANY");
        },
        other => panic!("unexpected error {other:?}"),
    }
}

#[test]
fn er_unknown_identification_is_refused() {
    let err = render_er(
        &diagram(Vec::new(), vec![relationship("A", "B", "ONLY_ONE", "ZERO_OR_MORE", "SIDEWAYS")]),
        &MermansiOptions::unicode(),
    )
    .unwrap_err();
    assert!(matches!(err, MermansiError::GeometryLayout { family: "er", .. }));
}

#[test]
fn er_narrow_relationship_is_refused() {
    let err = render_er(
        &diagram(Vec::new(), vec![relationship("A", "B", "ONLY_ONE", "ZERO_OR_MORE", "")]),
        &MermansiOptions::unicode().with_max_width(6),
    )
    .unwrap_err();
    assert!(matches!(err, MermansiError::RenderLimit { context: "er relationship columns", requested: 7, limit: 6 }));
}

#[test]
fn er_draws_entities_and_bracketed_relationship() {
    let attributes = vec![ErAttribute {
        ty: "string".to_string(),
        name: "name".to_string(),
        keys: vec!["PK".to_string()],
        comment: String::new(),
    }];
    let out = render_er(
        &diagram(
            vec![entity("CUSTOMER", attributes), entity("ORDER", Vec::new())],
            vec![relationship("CUSTOMER", "ORDER", "ZERO_OR_MORE", "ONLY_ONE", "IDENTIFYING")],
        ),
        &MermansiOptions::ascii(),
    )
    .unwrap();
    assert!(out.contains("CUSTOMER"));
    assert!(out.contains("string name PK"));
    assert!(out.contains("Relationships - TB"));
    assert!(out.contains("+- CUSTOMER  ||"));
    assert!(out.contains("|- places"));
    assert!(out.contains("+- ORDER  o{"));
}

#[test]
fn er_reversed_flow_lists_from_the_second_end() {
    let mut d = diagram(Vec::new(), vec![relationship("A", "B", "ONLY_ONE", "ZERO_OR_ONE", "NON_IDENTIFYING")]);
    d.direction = "bt".to_string();
    let out = render_er(&d, &MermansiOptions::ascii()).unwrap();
    assert!(out.contains("Relationships - BT"));
    assert!(out.contains("+- B  ||"));
    assert!(out.contains("|. places"));
    assert!(out.contains("+- A  o|"));
}

#[test]
fn er_source_is_drawn_by_the_library() {
    let out = render_source("erDiagram\n    CUSTOMER ||--o{ ORDER : places\n", &MermansiOptions::unicode()).unwrap();
    assert!(out.contains("CUSTOMER"));
    assert!(out.contains("places"));
}
