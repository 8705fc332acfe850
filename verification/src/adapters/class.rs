//! Class diagram terminal geometry.
//!
//! Classes are compartment boxes (annotations, the name, then the attributes and the methods
//! under dividers); namespaces are frames around their classes; notes and interfaces are boxes
//! joined to their class. Relationships use the shared box router with UML end markers.

use vstd::prelude::*;
use crate::adapters::box_geometry::{
    self, marker_at, Point, BoxDiagram, BoxDirection, BoxEdge, BoxGroup, BoxLayout, BoxNode, EdgeLegend, EdgeMarker, EdgeStyle, Side,
    directed_ranks, str_eq,
};
use crate::adapters::chart_primitives::is_white_line;
use crate::adapters::json::decimal_text;
use crate::ansi::sanitize_label_text;
use crate::canvas::all_white;
use crate::error::{MermansiError, Result};
use crate::options::{Charset, MermansiOptions};
use crate::text::{chars_of, trim_text};

verus! {

#[verifier::external_type_specification]
#[verifier::external_body]
pub struct ExClassDiagramModel(merman_core::models::class_diagram::ClassDiagram);

#[verifier::external_type_specification]
#[verifier::external_body]
pub struct ExClassRelationModel(merman_core::models::class_diagram::ClassRelation);

#[verifier::external_type_specification]
#[verifier::external_body]
pub struct ExClassNoteModel(merman_core::models::class_diagram::ClassNote);

#[verifier::external_type_specification]
#[verifier::external_body]
pub struct ExClassInterfaceModel(merman_core::models::class_diagram::ClassInterface);

/// Most class entities (classes, notes, interfaces and namespaces), and most relationships
/// (relations, note links and interface links), drawn.
pub const MAX_CLASS_ENTITIES: usize = 4_096;

/// A class: its key in the model, id, label, type parameter, annotations, the display texts of
/// its attributes and methods, and its namespace.
pub struct ClassEntity {
    pub key: String,
    pub id: String,
    pub label: String,
    pub type_param: String,
    pub annotations: Vec<String>,
    pub members: Vec<String>,
    pub methods: Vec<String>,
    pub parent: Option<String>,
}

/// A namespace: its key in the model, id, label, parent namespace and the classes it holds.
pub struct ClassNamespace {
    pub key: String,
    pub id: String,
    pub label: String,
    pub parent: Option<String>,
    pub class_ids: Vec<String>,
}

/// A note, attached to a class or free, in a namespace or not.
pub struct ClassNoteEntry {
    pub text: String,
    pub class_id: Option<String>,
    pub parent: Option<String>,
}

/// A lollipop interface of a class.
pub struct ClassLollipop {
    pub label: String,
    pub class_id: String,
}

/// A relation between two classes: its ends, the relation kinds at each end, the line kind and
/// the titles.
pub struct ClassRelationship {
    pub id1: String,
    pub id2: String,
    pub type1: i32,
    pub type2: i32,
    pub line_type: i32,
    pub title: String,
    pub title1: Option<String>,
    pub title2: Option<String>,
}

/// The numbers the model gives each relation kind and the dotted line.
#[derive(Clone, Copy)]
pub struct ClassKinds {
    pub extension: i32,
    pub aggregation: i32,
    pub composition: i32,
    pub dependency: i32,
    pub lollipop: i32,
    pub dotted_line: i32,
}

/// A class diagram.
pub struct ClassChart {
    pub direction: String,
    pub acc_title: Option<String>,
    pub classes: Vec<ClassEntity>,
    pub relations: Vec<ClassRelationship>,
    pub notes: Vec<ClassNoteEntry>,
    pub interfaces: Vec<ClassLollipop>,
    pub namespaces: Vec<ClassNamespace>,
    pub kinds: ClassKinds,
}

/// The class model of a parsed diagram, if it is one.
#[verifier::external_body]
pub(crate) fn parsed_class(parsed: &merman_core::ParsedDiagramRender)
    -> (r: Option<&merman_core::models::class_diagram::ClassDiagram>)
{
    match parsed.model() {
        merman_core::diagram::RenderSemanticModel::Class(model) => Some(model),
        _ => None,
    }
}

/// The `direction` field of a class model.
#[verifier::external_body]
fn model_direction(model: &merman_core::models::class_diagram::ClassDiagram) -> (r: String)
{
    model.direction.clone()
}

/// The `acc_title` field of a class model.
#[verifier::external_body]
fn model_acc_title(model: &merman_core::models::class_diagram::ClassDiagram) -> (r: Option<String>)
{
    model.acc_title.clone()
}

/// The relation and line kind numbers of a class model.
#[verifier::external_body]
fn model_kinds(model: &merman_core::models::class_diagram::ClassDiagram) -> (r: ClassKinds)
{
    let kinds = &model.constants.relation_type;
    ClassKinds {
        extension: kinds.extension,
        aggregation: kinds.aggregation,
        composition: kinds.composition,
        dependency: kinds.dependency,
        lollipop: kinds.lollipop,
        dotted_line: model.constants.line_type.dotted_line,
    }
}

/// `IndexMap::len` of the classes of a class model.
#[verifier::external_body]
fn class_count(model: &merman_core::models::class_diagram::ClassDiagram) -> (r: usize)
{
    model.classes.len()
}

/// `IndexMap::get_index` on the classes of a class model: entry `index`, field for field.
#[verifier::external_body]
fn class_at(model: &merman_core::models::class_diagram::ClassDiagram, index: usize) -> (r: Option<ClassEntity>)
{
    model.classes.get_index(index).map(|(key, class)| ClassEntity {
        key: key.clone(),
        id: class.id.clone(),
        label: class.label.clone(),
        type_param: class.type_param.clone(),
        annotations: class.annotations.clone(),
        members: class.members.iter().map(|member| member.display_text.clone()).collect(),
        methods: class.methods.iter().map(|member| member.display_text.clone()).collect(),
        parent: class.parent.clone(),
    })
}

/// `IndexMap::len` of the namespaces of a class model.
#[verifier::external_body]
fn namespace_count(model: &merman_core::models::class_diagram::ClassDiagram) -> (r: usize)
{
    model.namespaces.len()
}

/// `IndexMap::get_index` on the namespaces of a class model: entry `index`, field for field.
#[verifier::external_body]
fn namespace_at(model: &merman_core::models::class_diagram::ClassDiagram, index: usize) -> (r: Option<ClassNamespace>)
{
    model.namespaces.get_index(index).map(|(key, namespace)| ClassNamespace {
        key: key.clone(),
        id: namespace.id.clone(),
        label: namespace.label.clone(),
        parent: namespace.parent.clone(),
        class_ids: namespace.class_ids.clone(),
    })
}

/// The `relations` field of a class model.
#[verifier::external_body]
fn model_relations(model: &merman_core::models::class_diagram::ClassDiagram)
    -> (r: &Vec<merman_core::models::class_diagram::ClassRelation>)
{
    &model.relations
}

/// The `notes` field of a class model.
#[verifier::external_body]
fn model_notes(model: &merman_core::models::class_diagram::ClassDiagram)
    -> (r: &Vec<merman_core::models::class_diagram::ClassNote>)
{
    &model.notes
}

/// The `interfaces` field of a class model.
#[verifier::external_body]
fn model_interfaces(model: &merman_core::models::class_diagram::ClassDiagram)
    -> (r: &Vec<merman_core::models::class_diagram::ClassInterface>)
{
    &model.interfaces
}

/// A parsed relation, field for field.
#[verifier::external_body]
fn relation_of(relation: &merman_core::models::class_diagram::ClassRelation) -> (r: ClassRelationship)
{
    ClassRelationship {
        id1: relation.id1.clone(),
        id2: relation.id2.clone(),
        type1: relation.relation.type1,
        type2: relation.relation.type2,
        line_type: relation.relation.line_type,
        title: relation.title.clone(),
        title1: relation.relation_title_1.clone(),
        title2: relation.relation_title_2.clone(),
    }
}

/// A parsed note, field for field.
#[verifier::external_body]
fn note_of(note: &merman_core::models::class_diagram::ClassNote) -> (r: ClassNoteEntry)
{
    ClassNoteEntry { text: note.text.clone(), class_id: note.class_id.clone(), parent: note.parent.clone() }
}

/// A parsed interface, field for field.
#[verifier::external_body]
fn interface_of(interface: &merman_core::models::class_diagram::ClassInterface) -> (r: ClassLollipop)
{
    ClassLollipop { label: interface.label.clone(), class_id: interface.class_id.clone() }
}

/// The library's copy of a parsed class model.
pub(crate) fn diagram_of(model: &merman_core::models::class_diagram::ClassDiagram) -> (r: ClassChart)
{
    let mut classes: Vec<ClassEntity> = Vec::new();
    let count = class_count(model);
    let mut i: usize = 0;
    while i < count
        invariant
            i <= count,
        decreases count - i,
    {
        match class_at(model, i) {
            Some(class) => classes.push(class),
            None => {},
        }
        i = i + 1;
    }
    let mut namespaces: Vec<ClassNamespace> = Vec::new();
    let count = namespace_count(model);
    let mut i: usize = 0;
    while i < count
        invariant
            i <= count,
        decreases count - i,
    {
        match namespace_at(model, i) {
            Some(namespace) => namespaces.push(namespace),
            None => {},
        }
        i = i + 1;
    }
    let parsed_relations = model_relations(model);
    let mut relations: Vec<ClassRelationship> = Vec::new();
    let mut i: usize = 0;
    while i < parsed_relations.len()
        invariant
            i <= parsed_relations@.len(),
        decreases parsed_relations@.len() - i,
    {
        relations.push(relation_of(&parsed_relations[i]));
        i = i + 1;
    }
    let parsed_notes = model_notes(model);
    let mut notes: Vec<ClassNoteEntry> = Vec::new();
    let mut i: usize = 0;
    while i < parsed_notes.len()
        invariant
            i <= parsed_notes@.len(),
        decreases parsed_notes@.len() - i,
    {
        notes.push(note_of(&parsed_notes[i]));
        i = i + 1;
    }
    let parsed_interfaces = model_interfaces(model);
    let mut interfaces: Vec<ClassLollipop> = Vec::new();
    let mut i: usize = 0;
    while i < parsed_interfaces.len()
        invariant
            i <= parsed_interfaces@.len(),
        decreases parsed_interfaces@.len() - i,
    {
        interfaces.push(interface_of(&parsed_interfaces[i]));
        i = i + 1;
    }
    ClassChart {
        direction: model_direction(model),
        acc_title: model_acc_title(model),
        classes,
        relations,
        notes,
        interfaces,
        namespaces,
        kinds: model_kinds(model),
    }
}

/// `value`, or `usize::MAX` where it does not fit.
pub open spec fn capped(value: int) -> usize {
    if value > usize::MAX { usize::MAX } else { value as usize }
}

/// The number of class entities: classes, notes, interfaces and namespaces.
pub open spec fn entity_count(model: ClassChart) -> usize {
    capped((model.classes@.len() + model.notes@.len() + model.interfaces@.len() + model.namespaces@.len()) as int)
}

/// The number of relationships: relations, and the links of notes and interfaces.
pub open spec fn relationship_count(model: ClassChart) -> usize {
    capped((model.relations@.len() + model.notes@.len() + model.interfaces@.len()) as int)
}

/// Whether a relation has a blank end.
pub open spec fn has_blank_end(relation: ClassRelationship) -> bool {
    all_white(relation.id1@) || all_white(relation.id2@)
}

/// Whether some class of the model has the key `id`.
pub open spec fn names_class(model: ClassChart, id: Seq<char>) -> bool {
    exists|k: int| 0 <= k < model.classes@.len() && (#[trigger] model.classes@[k]).key@ == id
}

/// Whether a note or an interface is attached to a class the model lacks.
pub open spec fn has_missing_class(model: ClassChart) -> bool {
    ||| exists|n: int| 0 <= n < model.notes@.len()
        && ((#[trigger] model.notes@[n]).class_id matches Some(c) && !names_class(model, c@))
    ||| exists|n: int| 0 <= n < model.interfaces@.len()
        && !names_class(model, (#[trigger] model.interfaces@[n]).class_id@)
}

/// Whether `e` is the class family's geometry error whose message starts with `prefix`.
pub open spec fn class_error_with(e: MermansiError, prefix: Seq<char>) -> bool {
    e matches MermansiError::GeometryLayout { family, message } && family == "class"
        && message@.len() >= prefix.len() && message@.subrange(0, prefix.len() as int) == prefix
}

fn ensure_limit(context: &'static str, requested: usize) -> (r: Result<()>)
    ensures
        requested > MAX_CLASS_ENTITIES ==> r == Err::<(), MermansiError>(MermansiError::RenderLimit {
            context, requested, limit: MAX_CLASS_ENTITIES }),
        requested <= MAX_CLASS_ENTITIES ==> r is Ok,
{
    if requested > MAX_CLASS_ENTITIES {
        return Err(MermansiError::RenderLimit { context, requested, limit: MAX_CLASS_ENTITIES });
    }
    Ok(())
}

/// Whether a text is blank.
fn is_blank(value: &str) -> (r: bool)
    ensures
        r == all_white(value@),
{
    is_white_line(&chars_of(value))
}

/// The sanitized, trimmed value, or `(unnamed)` where that is empty.
fn named(value: &str) -> (r: String)
{
    let trimmed = trim_text(sanitize_label_text(value).as_str());
    if trimmed.as_str().is_empty() {
        String::from_str("(unnamed)")
    } else {
        trimmed
    }
}

/// `prefix` followed by the decimal `index`.
fn indexed_id(prefix: &str, index: usize) -> (r: String)
{
    let mut id = String::from_str(prefix);
    id.append(decimal_text(index).as_str());
    id
}

/// The geometry id of the namespace with key `key`, if there is one.
fn namespace_geometry_id(namespaces: &Vec<ClassNamespace>, key: &str) -> (r: Option<String>)
{
    let mut i: usize = 0;
    while i < namespaces.len()
        invariant
            i <= namespaces@.len(),
        decreases namespaces@.len() - i,
    {
        if str_eq(namespaces[i].key.as_str(), key) {
            return Some(indexed_id("__class_namespace_", i));
        }
        i = i + 1;
    }
    None
}

/// The geometry id of the namespace a parent reference names, if any.
fn parent_geometry_id(namespaces: &Vec<ClassNamespace>, parent: &Option<String>) -> (r: Option<String>)
{
    match parent {
        Some(p) => namespace_geometry_id(namespaces, p.as_str()),
        None => None,
    }
}

/// The index of the class with key `key`, if there is one.
fn class_index(classes: &Vec<ClassEntity>, key: &str) -> (r: Option<usize>)
    ensures
        r matches Some(k) ==> k < classes@.len() && classes@[k as int].key@ == key@,
        r is None ==> forall|k: int| 0 <= k < classes@.len() ==> (#[trigger] classes@[k]).key@ != key@,
{
    let mut i: usize = 0;
    while i < classes.len()
        invariant
            i <= classes@.len(),
            forall|k: int| 0 <= k < i ==> (#[trigger] classes@[k]).key@ != key@,
        decreases classes@.len() - i,
    {
        if str_eq(classes[i].key.as_str(), key) {
            return Some(i);
        }
        i = i + 1;
    }
    None
}

/// The namespace geometry id recorded for a class, if any.
fn recorded_namespace(recorded: &Vec<(String, String)>, class_id: &str) -> (r: Option<String>)
{
    let mut i: usize = 0;
    while i < recorded.len()
        invariant
            i <= recorded@.len(),
        decreases recorded@.len() - i,
    {
        if str_eq(recorded[i].0.as_str(), class_id) {
            return Some(recorded[i].1.clone());
        }
        i = i + 1;
    }
    None
}

/// The first namespace listing each class, in namespace order.
fn class_namespaces(namespaces: &Vec<ClassNamespace>) -> (r: Vec<(String, String)>)
{
    let mut recorded: Vec<(String, String)> = Vec::new();
    let mut n: usize = 0;
    while n < namespaces.len()
        invariant
            n <= namespaces@.len(),
        decreases namespaces@.len() - n,
    {
        let geometry_id = indexed_id("__class_namespace_", n);
        let ids = &namespaces[n].class_ids;
        let mut c: usize = 0;
        while c < ids.len()
            invariant
                c <= ids@.len(),
            decreases ids@.len() - c,
        {
            if recorded_namespace(&recorded, ids[c].as_str()).is_none() {
                recorded.push((ids[c].clone(), geometry_id.clone()));
            }
            c = c + 1;
        }
        n = n + 1;
    }
    recorded
}

/// Adds a compartment: a divider, then each member's text.
fn append_compartment(lines: &mut Vec<String>, dividers: &mut Vec<usize>, members: &Vec<String>)
{
    if members.len() == 0 {
        return;
    }
    dividers.push(lines.len());
    lines.push(String::new());
    let mut m: usize = 0;
    while m < members.len()
        invariant
            m <= members@.len(),
        decreases members@.len() - m,
    {
        lines.push(named(members[m].as_str()));
        m = m + 1;
    }
}

/// A class box: its annotations, its name (with the type parameter), then the attribute and
/// method compartments.
fn class_node(class: &ClassEntity, order: usize) -> (r: BoxNode)
{
    let mut lines: Vec<String> = Vec::new();
    let mut a: usize = 0;
    while a < class.annotations.len()
        invariant
            a <= class.annotations@.len(),
        decreases class.annotations@.len() - a,
    {
        let mut line = String::from_str("<<");
        line.append(sanitize_label_text(class.annotations[a].as_str()).as_str());
        line.append(">>");
        lines.push(line);
        a = a + 1;
    }
    let mut title = if is_blank(class.label.as_str()) { named(class.id.as_str()) } else { named(class.label.as_str()) };
    if !is_blank(class.type_param.as_str()) {
        title.append("<");
        title.append(sanitize_label_text(trim_text(class.type_param.as_str()).as_str()).as_str());
        title.append(">");
    }
    lines.push(title);
    let mut dividers: Vec<usize> = Vec::new();
    append_compartment(&mut lines, &mut dividers, &class.members);
    append_compartment(&mut lines, &mut dividers, &class.methods);
    BoxNode { id: class.id.clone(), lines, dividers, parent: None, span: 1, order }
}

/// The non-blank sanitized lines of a note's text, or `(empty note)` where there are none,
/// after the `[note]` heading.
fn note_lines(text: &str) -> (r: Vec<String>)
{
    let mut lines: Vec<String> = Vec::new();
    lines.push(String::from_str("[note]"));
    let chars = chars_of(text);
    let mut start: usize = 0;
    let mut i: usize = 0;
    while i < chars.len()
        invariant
            start <= i <= chars@.len(),
            lines@.len() >= 1,
        decreases chars@.len() - i,
    {
        if chars[i] == '\n' {
            push_note_line(&mut lines, &chars, start, i);
            start = i + 1;
        }
        i = i + 1;
    }
    push_note_line(&mut lines, &chars, start, chars.len());
    if lines.len() == 1 {
        lines.push(String::from_str("(empty note)"));
    }
    lines
}

/// Appends the sanitized text of `chars[start..end]`, without a final carriage return, unless
/// it is blank.
fn push_note_line(lines: &mut Vec<String>, chars: &Vec<char>, start: usize, end: usize)
    requires
        start <= end <= chars@.len(),
    ensures
        final(lines)@.len() >= old(lines)@.len(),
{
    let mut end = end;
    if end > start && chars[end - 1] == '\r' {
        end = end - 1;
    }
    let mut piece: Vec<char> = Vec::new();
    let mut k: usize = start;
    while k < end
        invariant
            start <= k <= end,
            end <= chars@.len(),
        decreases end - k,
    {
        piece.push(chars[k]);
        k = k + 1;
    }
    let line = crate::text::string_of(piece.as_slice());
    let clean = sanitize_label_text(line.as_str());
    if !is_blank(clean.as_str()) {
        lines.push(clean);
    }
}

/// Whether a sanitized, trimmed title is `none` in any ASCII case.
fn is_none_word(value: &str) -> (r: bool)
{
    let chars = chars_of(value);
    if chars.len() != 4 {
        return false;
    }
    let word = ['n', 'o', 'n', 'e'];
    let mut i: usize = 0;
    while i < 4
        invariant
            i <= 4,
            chars@.len() == 4,
        decreases 4 - i,
    {
        let c = chars[i];
        let lower = if 'A' <= c && c <= 'Z' { ((c as u32) + 32) as u8 as char } else { c };
        if lower != word[i] {
            return false;
        }
        i = i + 1;
    }
    true
}

/// The label of a relation: its distinct non-empty titles (none of them `none`), joined by
/// ` / `.
fn relation_label(relation: &ClassRelationship) -> (r: String)
{
    let mut parts: Vec<String> = Vec::new();
    let mut k: usize = 0;
    while k < 3
        invariant
            k <= 3,
        decreases 3 - k,
    {
        let raw: String = if k == 0 {
            relation.title.clone()
        } else if k == 1 {
            match &relation.title1 { Some(t) => t.clone(), None => String::new() }
        } else {
            match &relation.title2 { Some(t) => t.clone(), None => String::new() }
        };
        let value = trim_text(sanitize_label_text(raw.as_str()).as_str());
        if !value.as_str().is_empty() && !is_none_word(value.as_str()) {
            let mut seen = false;
            let mut j: usize = 0;
            while j < parts.len()
                invariant
                    j <= parts@.len(),
                decreases parts@.len() - j,
            {
                if str_eq(parts[j].as_str(), value.as_str()) {
                    seen = true;
                }
                j = j + 1;
            }
            if !seen {
                parts.push(value);
            }
        }
        k = k + 1;
    }
    let mut label = String::new();
    let mut j: usize = 0;
    while j < parts.len()
        invariant
            j <= parts@.len(),
        decreases parts@.len() - j,
    {
        if j > 0 {
            label.append(" / ");
        }
        label.append(parts[j].as_str());
        j = j + 1;
    }
    label
}

/// The UML end marker of relation kind `kind`: a hollow triangle for extension (inheritance),
/// a hollow diamond for aggregation, a filled diamond for composition, an arrow for a
/// dependency, a circle for a lollipop interface, none for a plain association.
pub open spec fn uml_marker(kind: i32, kinds: ClassKinds) -> EdgeMarker {
    if kind == kinds.extension {
        EdgeMarker::OpenTriangle
    } else if kind == kinds.aggregation {
        EdgeMarker::OpenDiamond
    } else if kind == kinds.composition {
        EdgeMarker::FilledDiamond
    } else if kind == kinds.dependency {
        EdgeMarker::Arrow
    } else if kind == kinds.lollipop {
        EdgeMarker::Circle
    } else {
        EdgeMarker::Absent
    }
}

/// Whether the model gives the five relation kinds five different numbers.
pub open spec fn kinds_distinct(kinds: ClassKinds) -> bool {
    &&& kinds.extension != kinds.aggregation
    &&& kinds.extension != kinds.composition
    &&& kinds.extension != kinds.dependency
    &&& kinds.extension != kinds.lollipop
    &&& kinds.aggregation != kinds.composition
    &&& kinds.aggregation != kinds.dependency
    &&& kinds.aggregation != kinds.lollipop
    &&& kinds.composition != kinds.dependency
    &&& kinds.composition != kinds.lollipop
    &&& kinds.dependency != kinds.lollipop
}

/// Law: where the relation kinds are distinct, each marker belongs to exactly one kind: a
/// filled diamond is drawn exactly for composition, a hollow diamond exactly for aggregation,
/// a hollow triangle exactly for extension, an arrow exactly for dependency, a circle exactly
/// for a lollipop, and no marker exactly for any other kind.
pub proof fn lemma_relation_marker_kinds(kind: i32, kinds: ClassKinds)
    requires
        kinds_distinct(kinds),
    ensures
        (uml_marker(kind, kinds) == EdgeMarker::FilledDiamond) <==> kind == kinds.composition,
        (uml_marker(kind, kinds) == EdgeMarker::OpenDiamond) <==> kind == kinds.aggregation,
        (uml_marker(kind, kinds) == EdgeMarker::OpenTriangle) <==> kind == kinds.extension,
        (uml_marker(kind, kinds) == EdgeMarker::Arrow) <==> kind == kinds.dependency,
        (uml_marker(kind, kinds) == EdgeMarker::Circle) <==> kind == kinds.lollipop,
        (uml_marker(kind, kinds) == EdgeMarker::Absent) <==> (kind != kinds.composition
            && kind != kinds.aggregation && kind != kinds.extension && kind != kinds.dependency
            && kind != kinds.lollipop),
{
}

/// Law: where the relation kinds are distinct, a composition end is drawn as a filled diamond
/// (`◆`, ASCII `*`) and an aggregation end as a hollow one (`◇`, ASCII `o`), whatever the
/// route's direction.
pub proof fn lemma_diamond_glyphs(kinds: ClassKinds, end: Point, neighbor: Point)
    requires
        kinds_distinct(kinds),
    ensures
        marker_at(end, neighbor, uml_marker(kinds.composition, kinds), Charset::Unicode).1 == '◆',
        marker_at(end, neighbor, uml_marker(kinds.composition, kinds), Charset::Ascii).1 == '*',
        marker_at(end, neighbor, uml_marker(kinds.aggregation, kinds), Charset::Unicode).1 == '◇',
        marker_at(end, neighbor, uml_marker(kinds.aggregation, kinds), Charset::Ascii).1 == 'o',
{
}

/// The end marker a relation kind draws.
fn relation_marker(kind: i32, kinds: ClassKinds) -> (r: EdgeMarker)
    ensures
        r == uml_marker(kind, kinds),
{
    if kind == kinds.extension {
        EdgeMarker::OpenTriangle
    } else if kind == kinds.aggregation {
        EdgeMarker::OpenDiamond
    } else if kind == kinds.composition {
        EdgeMarker::FilledDiamond
    } else if kind == kinds.dependency {
        EdgeMarker::Arrow
    } else if kind == kinds.lollipop {
        EdgeMarker::Circle
    } else {
        EdgeMarker::Absent
    }
}

/// The side a marked end leaves by: diamonds and circles on the left (or top), filled diamonds
/// and arrows on the right (or bottom), turned across the flow; others by the flow's side.
fn marker_port(marker: EdgeMarker, default: Side) -> (r: Side)
{
    let across = match default {
        Side::Top | Side::Bottom => true,
        Side::Left | Side::Right => false,
    };
    match marker {
        EdgeMarker::OpenDiamond | EdgeMarker::Circle => if across { Side::Left } else { Side::Top },
        EdgeMarker::FilledDiamond | EdgeMarker::Arrow => if across { Side::Right } else { Side::Bottom },
        _ => default,
    }
}

/// The edge of a relation; a relation with a blank end is refused.
fn relation_edge(relation: &ClassRelationship, kinds: ClassKinds, from_side: Side, to_side: Side) -> (r: Result<BoxEdge>)
    ensures
        has_blank_end(*relation) ==> (r matches Err(e) && class_error_with(e, "relationship endpoint is empty"@)
            && e->GeometryLayout_message@ == "relationship endpoint is empty"@),
        !has_blank_end(*relation) ==> r is Ok,
{
    if is_blank(relation.id1.as_str()) || is_blank(relation.id2.as_str()) {
        let message = String::from_str("relationship endpoint is empty");
        proof {
            reveal_strlit("relationship endpoint is empty");
            assert(message@.subrange(0, message@.len() as int) =~= message@);
        }
        return Err(MermansiError::GeometryLayout { family: "class", message });
    }
    let marker_start = relation_marker(relation.type1, kinds);
    let marker_end = relation_marker(relation.type2, kinds);
    let style = if relation.line_type == kinds.dotted_line { EdgeStyle::Dotted } else { EdgeStyle::Solid };
    Ok(BoxEdge {
        from: relation.id1.clone(),
        to: relation.id2.clone(),
        label: relation_label(relation),
        marker_start,
        marker_end,
        style,
        from_side: Some(marker_port(marker_start, from_side)),
        to_side: Some(marker_port(marker_end, to_side)),
    })
}

/// Refuses a link to a class the model lacks.
fn ensure_class(classes: &Vec<ClassEntity>, id: &str) -> (r: Result<()>)
    ensures
        (exists|k: int| 0 <= k < classes@.len() && (#[trigger] classes@[k]).key@ == id@) ==> r is Ok,
        !(exists|k: int| 0 <= k < classes@.len() && (#[trigger] classes@[k]).key@ == id@)
            ==> (r matches Err(e) && class_error_with(e, "relationship class is missing: "@)),
{
    match class_index(classes, id) {
        Some(_) => Ok(()),
        None => {
            let mut message = String::from_str("relationship class is missing: ");
            let ghost head = message@;
            message.append(sanitize_label_text(id).as_str());
            proof {
                reveal_strlit("relationship class is missing: ");
                assert(message@.subrange(0, head.len() as int) =~= head);
            }
            Err(MermansiError::GeometryLayout { family: "class", message })
        },
    }
}

/// Draws a class diagram: each class as a compartment box (annotations, name, attributes,
/// methods), namespaces as frames, notes and interfaces as boxes joined to their class, and
/// every relation routed with its UML end markers, titled with its labels.
///
/// The entity and relationship counts are bounded first; a relation with a blank end, and a
/// note or interface joined to a class the model lacks, are refused.
pub fn render_class(model: &ClassChart, opts: &MermansiOptions) -> (r: Result<String>)
    ensures
        entity_count(*model) > MAX_CLASS_ENTITIES ==> r == Err::<String, MermansiError>(MermansiError::RenderLimit {
            context: "class entities", requested: entity_count(*model), limit: MAX_CLASS_ENTITIES }),
        entity_count(*model) <= MAX_CLASS_ENTITIES && relationship_count(*model) > MAX_CLASS_ENTITIES
            ==> r == Err::<String, MermansiError>(MermansiError::RenderLimit {
            context: "class relationships", requested: relationship_count(*model), limit: MAX_CLASS_ENTITIES }),
        entity_count(*model) <= MAX_CLASS_ENTITIES && relationship_count(*model) <= MAX_CLASS_ENTITIES
            && (exists|i: int| 0 <= i < model.relations@.len() && has_blank_end(#[trigger] model.relations@[i]))
            ==> (r matches Err(e) && class_error_with(e, "relationship endpoint is empty"@)
                && e->GeometryLayout_message@ == "relationship endpoint is empty"@),
        entity_count(*model) <= MAX_CLASS_ENTITIES && relationship_count(*model) <= MAX_CLASS_ENTITIES
            && (forall|i: int| 0 <= i < model.relations@.len() ==> !has_blank_end(#[trigger] model.relations@[i]))
            && has_missing_class(*model)
            ==> (r matches Err(e) && class_error_with(e, "relationship class is missing: "@)),
{
    let entities = model.classes.len().saturating_add(model.notes.len()).saturating_add(model.interfaces.len())
        .saturating_add(model.namespaces.len());
    match ensure_limit("class entities", entities) {
        Ok(()) => {},
        Err(e) => return Err(e),
    }
    let relationships = model.relations.len().saturating_add(model.notes.len()).saturating_add(model.interfaces.len());
    match ensure_limit("class relationships", relationships) {
        Ok(()) => {},
        Err(e) => return Err(e),
    }
    let recorded = class_namespaces(&model.namespaces);
    let mut groups: Vec<BoxGroup> = Vec::new();
    let mut n: usize = 0;
    while n < model.namespaces.len()
        invariant
            n <= model.namespaces@.len(),
        decreases model.namespaces@.len() - n,
    {
        let namespace = &model.namespaces[n];
        let id = match namespace_geometry_id(&model.namespaces, namespace.id.as_str()) {
            Some(id) => id,
            None => indexed_id("__class_namespace_", n),
        };
        let name = if is_blank(namespace.label.as_str()) { named(namespace.id.as_str()) } else { named(namespace.label.as_str()) };
        let mut line = String::from_str("[namespace] ");
        line.append(name.as_str());
        let mut lines: Vec<String> = Vec::new();
        lines.push(line);
        groups.push(BoxGroup {
            id,
            lines,
            parent: parent_geometry_id(&model.namespaces, &namespace.parent),
            columns: None,
            span: 1,
            order: n,
        });
        n = n + 1;
    }
    let mut nodes: Vec<BoxNode> = Vec::new();
    let mut c: usize = 0;
    while c < model.classes.len()
        invariant
            c <= model.classes@.len(),
        decreases model.classes@.len() - c,
    {
        let class = &model.classes[c];
        let mut node = class_node(class, c);
        node.parent = match parent_geometry_id(&model.namespaces, &class.parent) {
            Some(id) => Some(id),
            None => recorded_namespace(&recorded, class.id.as_str()),
        };
        nodes.push(node);
        c = c + 1;
    }
    let note_offset = nodes.len();
    let mut k: usize = 0;
    while k < model.notes.len()
        invariant
            k <= model.notes@.len(),
        decreases model.notes@.len() - k,
    {
        let note = &model.notes[k];
        nodes.push(BoxNode {
            id: indexed_id("__class_note_", k),
            lines: note_lines(note.text.as_str()),
            dividers: Vec::new(),
            parent: parent_geometry_id(&model.namespaces, &note.parent),
            span: 1,
            order: note_offset.saturating_add(k),
        });
        k = k + 1;
    }
    let interface_offset = nodes.len();
    let mut k: usize = 0;
    while k < model.interfaces.len()
        invariant
            k <= model.interfaces@.len(),
        decreases model.interfaces@.len() - k,
    {
        let interface = &model.interfaces[k];
        let mut line = String::from_str("[interface] ");
        line.append(named(interface.label.as_str()).as_str());
        let mut lines: Vec<String> = Vec::new();
        lines.push(line);
        let from_class = match class_index(&model.classes, interface.class_id.as_str()) {
            Some(index) => parent_geometry_id(&model.namespaces, &model.classes[index].parent),
            None => None,
        };
        let parent = match from_class {
            Some(id) => Some(id),
            None => recorded_namespace(&recorded, interface.class_id.as_str()),
        };
        nodes.push(BoxNode {
            id: indexed_id("__class_interface_", k),
            lines,
            dividers: Vec::new(),
            parent,
            span: 1,
            order: interface_offset.saturating_add(k),
        });
        k = k + 1;
    }
    if nodes.len() == 0 && groups.len() == 0 {
        let mut lines: Vec<String> = Vec::new();
        lines.push(String::from_str("(empty class diagram)"));
        nodes.push(BoxNode { id: String::from_str("__empty_class"), lines, dividers: Vec::new(), parent: None, span: 1, order: 0 });
    }
    let direction = BoxDirection::from_str(model.direction.as_str());
    let (from_side, to_side) = direction.edge_sides();
    let mut edges: Vec<BoxEdge> = Vec::new();
    let mut e: usize = 0;
    while e < model.relations.len()
        invariant
            e <= model.relations@.len(),
            forall|i: int| 0 <= i < e ==> !has_blank_end(#[trigger] model.relations@[i]),
            entity_count(*model) <= MAX_CLASS_ENTITIES,
            relationship_count(*model) <= MAX_CLASS_ENTITIES,
        decreases model.relations@.len() - e,
    {
        match relation_edge(&model.relations[e], model.kinds, from_side, to_side) {
            Ok(edge) => edges.push(edge),
            Err(err) => return Err(err),
        }
        e = e + 1;
    }
    let mut k: usize = 0;
    while k < model.notes.len()
        invariant
            k <= model.notes@.len(),
            forall|i: int| 0 <= i < k ==> !((#[trigger] model.notes@[i]).class_id matches Some(c) && !names_class(*model, c@)),
            forall|i: int| 0 <= i < model.relations@.len() ==> !has_blank_end(#[trigger] model.relations@[i]),
            entity_count(*model) <= MAX_CLASS_ENTITIES,
            relationship_count(*model) <= MAX_CLASS_ENTITIES,
        decreases model.notes@.len() - k,
    {
        match &model.notes[k].class_id {
            Some(class_id) => {
                match ensure_class(&model.classes, class_id.as_str()) {
                    Ok(()) => {},
                    Err(err) => return Err(err),
                }
                edges.push(BoxEdge {
                    from: class_id.clone(),
                    to: indexed_id("__class_note_", k),
                    label: String::new(),
                    marker_start: EdgeMarker::Absent,
                    marker_end: EdgeMarker::Absent,
                    style: EdgeStyle::Dotted,
                    from_side: Some(from_side),
                    to_side: Some(to_side),
                });
            },
            None => {},
        }
        k = k + 1;
    }
    let mut k: usize = 0;
    while k < model.interfaces.len()
        invariant
            k <= model.interfaces@.len(),
            forall|i: int| 0 <= i < model.notes@.len()
                ==> !((#[trigger] model.notes@[i]).class_id matches Some(c) && !names_class(*model, c@)),
            forall|i: int| 0 <= i < k ==> names_class(*model, (#[trigger] model.interfaces@[i]).class_id@),
            forall|i: int| 0 <= i < model.relations@.len() ==> !has_blank_end(#[trigger] model.relations@[i]),
            entity_count(*model) <= MAX_CLASS_ENTITIES,
            relationship_count(*model) <= MAX_CLASS_ENTITIES,
        decreases model.interfaces@.len() - k,
    {
        let class_id = &model.interfaces[k].class_id;
        match ensure_class(&model.classes, class_id.as_str()) {
            Ok(()) => {},
            Err(err) => return Err(err),
        }
        edges.push(BoxEdge {
            from: class_id.clone(),
            to: indexed_id("__class_interface_", k),
            label: String::new(),
            marker_start: EdgeMarker::Absent,
            marker_end: EdgeMarker::Circle,
            style: EdgeStyle::Solid,
            from_side: Some(from_side),
            to_side: Some(to_side),
        });
        k = k + 1;
    }
    let layout = if groups.len() == 0 {
        let ranks = directed_ranks(&nodes, &edges);
        BoxLayout::Layered { direction, ranks }
    } else {
        BoxLayout::Packed
    };
    let title = match &model.acc_title {
        Some(t) => Some(t.clone()),
        None => Some(String::from_str("Class diagram")),
    };
    let diagram = BoxDiagram {
        family: "class",
        title,
        nodes,
        groups,
        spacers: Vec::new(),
        edges,
        columns: None,
        layout,
        edge_legend: EdgeLegend::Labeled,
    };
    box_geometry::render(&diagram, opts)
}

} // verus!
