use mermansi::adapters::class::{
    render_class, ClassChart, ClassEntity, ClassKinds, ClassLollipop, ClassNoteEntry, ClassRelationship,
    MAX_CLASS_ENTITIES,
};
use mermansi::{render_source, MermansiError, MermansiOptions};

fn kinds() -> ClassKinds {
    ClassKinds { extension: 1, aggregation: 0, composition: 2, dependency: 3, lollipop: 4, dotted_line: 1 }
}

fn class(id: &str, members: &[&str], methods: &[&str]) -> ClassEntity {
    ClassEntity {
        key: id.to_string(),
        id: id.to_string(),
        label: id.to_string(),
        type_param: String::new(),
        annotations: Vec::new(),
        members: members.iter().map(|m| m.to_string()).collect(),
        methods: methods.iter().map(|m| m.to_string()).collect(),
        parent: None,
    }
}

fn relation(from: &str, to: &str) -> ClassRelationship {
    ClassRelationship {
        id1: from.to_string(),
        id2: to.to_string(),
        type1: 1,
        type2: -1,
        line_type: 0,
        title: String::new(),
        title1: None,
        title2: None,
    }
}

fn chart(classes: Vec<ClassEntity>, relations: Vec<ClassRelationship>) -> ClassChart {
    ClassChart {
        direction: "TB".to_string(),
        acc_title: None,
        classes,
        relations,
        notes: Vec::new(),
        interfaces: Vec::new(),
        namespaces: Vec::new(),
        kinds: kinds(),
    }
}

#[test]
fn class_renders_compartment_boxes_and_relation() {
    let model = chart(
        vec![class("Animal", &["+int age"], &["+isMammal()"]), class("Duck", &[], &["+swim()"])],
        vec![relation("Animal", "Duck")],
    );
    let out = render_class(&model, &MermansiOptions::unicode()).unwrap();
    assert!(out.contains("Animal"));
    assert!(out.contains("Duck"));
    assert!(out.contains("+int age"));
    assert!(out.contains("+isMammal()"));
    assert!(out.contains("+swim()"));
}

#[test]
fn class_too_many_entities_is_refused() {
    let classes: Vec<ClassEntity> = (0..=MAX_CLASS_ENTITIES).map(|i| class(&format!("C{i}"), &[], &[])).collect();
    let model = chart(classes, Vec::new());
    let err = render_class(&model, &MermansiOptions::unicode()).unwrap_err();
    assert!(matches!(
        err,
        MermansiError::RenderLimit { context: "class entities", requested: 4097, limit: 4096 }
    ));
}

#[test]
fn class_too_many_relationships_is_refused() {
    let relations: Vec<ClassRelationship> = (0..=MAX_CLASS_ENTITIES).map(|_| relation("A", "B")).collect();
    let model = chart(vec![class("A", &[], &[]), class("B", &[], &[])], relations);
    let err = render_class(&model, &MermansiOptions::unicode()).unwrap_err();
    assert!(matches!(
        err,
        MermansiError::RenderLimit { context: "class relationships", requested: 4097, limit: 4096 }
    ));
}

#[test]
fn class_blank_relationship_end_is_refused() {
    let model = chart(vec![class("A", &[], &[])], vec![relation("A", "  ")]);
    let err = render_class(&model, &MermansiOptions::unicode()).unwrap_err();
    match err {
        MermansiError::GeometryLayout { family, message } => {
            assert_eq!(family, "class");
            assert_eq!(message, "relationship endpoint is empty");
        },
        other => panic!("unexpected error {other:?}"),
    }
}

#[test]
fn class_note_for_missing_class_is_refused() {
    let mut model = chart(vec![class("A", &[], &[])], Vec::new());
    model.notes.push(ClassNoteEntry { text: "hello".to_string(), class_id: Some("Ghost".to_string()), parent: None });
    let err = render_class(&model, &MermansiOptions::unicode()).unwrap_err();
    match err {
        MermansiError::GeometryLayout { family, message } => {
            assert_eq!(family, "class");
            assert!(message.starts_with("relationship class is missing: "));
            assert!(message.contains("Ghost"));
        },
        other => panic!("unexpected error {other:?}"),
    }
}

#[test]
fn class_interface_for_missing_class_is_refused() {
    let mut model = chart(vec![class("A", &[], &[])], Vec::new());
    model.interfaces.push(ClassLollipop { label: "Api".to_string(), class_id: "Nope".to_string() });
    let err = render_class(&model, &MermansiOptions::unicode()).unwrap_err();
    assert!(matches!(err, MermansiError::GeometryLayout { family: "class", .. }));
}

#[test]
fn class_note_and_interface_are_drawn() {
    let mut model = chart(vec![class("A", &[], &[])], Vec::new());
    model.notes.push(ClassNoteEntry { text: "remember".to_string(), class_id: Some("A".to_string()), parent: None });
    model.interfaces.push(ClassLollipop { label: "Api".to_string(), class_id: "A".to_string() });
    let out = render_class(&model, &MermansiOptions::unicode()).unwrap();
    assert!(out.contains("[note]"));
    assert!(out.contains("remember"));
    assert!(out.contains("[interface] Api"));
}

#[test]
fn class_source_is_drawn_by_the_library() {
    let out = render_source("classDiagram\nclass Animal\nAnimal <|-- Duck\n", &MermansiOptions::unicode()).unwrap();
    assert!(out.contains("Animal"));
    assert!(out.contains("Duck"));
}
