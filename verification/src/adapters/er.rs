//! ER entity compartments and explicit cardinality relationship routes.
//!
//! Entities are boxes with their attributes under a divider; each relationship is listed below
//! them as a bracket from one end to the other, with the cardinality markers at its ends and
//! its role in the middle.

use vstd::prelude::*;
use crate::adapters::box_geometry::{self, str_eq, wrap_display, BoxDiagram, BoxLayout, BoxNode, EdgeLegend};
use crate::adapters::json::decimal_text;
use crate::adapters::{detail_separator, nonempty_or};
use crate::ansi::sanitize_label_text;
use crate::canvas::{all_white, str_display_width};
use crate::error::{MermansiError, Result};
use crate::options::{Charset, MermansiOptions};
use crate::text::{chars_of, trim_text};

verus! {

#[verifier::external_type_specification]
#[verifier::external_body]
pub struct ExErDiagramRenderModel(merman_core::diagrams::er::ErDiagramRenderModel);

#[verifier::external_type_specification]
#[verifier::external_body]
pub struct ExErRelationshipRenderModel(merman_core::diagrams::er::ErRelationshipRenderModel);

/// Most entities, relationships and attributes drawn, together.
pub const MAX_ER_ITEMS: usize = 4_096;

/// An attribute: its type, name, keys and comment.
pub struct ErAttribute {
    pub ty: String,
    pub name: String,
    pub keys: Vec<String>,
    pub comment: String,
}

/// An entity: its key in the model, id, label, alias and attributes.
pub struct ErEntity {
    pub key: String,
    pub id: String,
    pub label: String,
    pub alias: String,
    pub attributes: Vec<ErAttribute>,
}

/// A relationship: its two ends, the role, the cardinality at each end and the
/// identification type.
pub struct ErRelationship {
    pub entity_a: String,
    pub role_a: String,
    pub entity_b: String,
    pub card_a: String,
    pub card_b: String,
    pub rel_type: String,
}

/// An ER diagram.
pub struct ErDiagram {
    pub acc_title: Option<String>,
    pub direction: String,
    pub entities: Vec<ErEntity>,
    pub relationships: Vec<ErRelationship>,
}

/// The ER model of a parsed diagram, if it is one.
#[verifier::external_body]
pub(crate) fn parsed_er(parsed: &merman_core::ParsedDiagramRender)
    -> (r: Option<&merman_core::diagrams::er::ErDiagramRenderModel>)
{
    match parsed.model() {
        merman_core::diagram::RenderSemanticModel::Er(model) => Some(model),
        _ => None,
    }
}

/// The `acc_title` and `direction` fields of an ER model.
#[verifier::external_body]
fn model_heading(model: &merman_core::diagrams::er::ErDiagramRenderModel) -> (r: (Option<String>, String))
{
    (model.acc_title.clone(), model.direction.clone())
}

/// `IndexMap::len` of the entities of an ER model.
#[verifier::external_body]
fn entity_count(model: &merman_core::diagrams::er::ErDiagramRenderModel) -> (r: usize)
{
    model.entities.len()
}

/// `IndexMap::get_index` on the entities of an ER model: entry `index`, field for field.
#[verifier::external_body]
fn entity_at(model: &merman_core::diagrams::er::ErDiagramRenderModel, index: usize) -> (r: Option<ErEntity>)
{
    model.entities.get_index(index).map(|(key, entity)| ErEntity {
        key: key.clone(),
        id: entity.id.clone(),
        label: entity.label.clone(),
        alias: entity.alias.clone(),
        attributes: entity.attributes.iter().map(|a| ErAttribute {
            ty: a.ty.clone(), name: a.name.clone(), keys: a.keys.clone(), comment: a.comment.clone(),
        }).collect(),
    })
}

/// The `relationships` field of an ER model.
#[verifier::external_body]
fn model_relationships(model: &merman_core::diagrams::er::ErDiagramRenderModel)
    -> (r: &Vec<merman_core::diagrams::er::ErRelationshipRenderModel>)
{
    &model.relationships
}

/// A relationship of an ER model, field for field.
#[verifier::external_body]
fn relationship_of(relationship: &merman_core::diagrams::er::ErRelationshipRenderModel) -> (r: ErRelationship)
{
    ErRelationship {
        entity_a: relationship.entity_a.clone(),
        role_a: relationship.role_a.clone(),
        entity_b: relationship.entity_b.clone(),
        card_a: relationship.rel_spec.card_a.clone(),
        card_b: relationship.rel_spec.card_b.clone(),
        rel_type: relationship.rel_spec.rel_type.clone(),
    }
}

/// The library's ER diagram of a parsed ER model.
pub(crate) fn diagram_of(model: &merman_core::diagrams::er::ErDiagramRenderModel) -> (r: ErDiagram)
{
    let (acc_title, direction) = model_heading(model);
    let count = entity_count(model);
    let mut entities: Vec<ErEntity> = Vec::new();
    let mut i: usize = 0;
    while i < count
        invariant
            i <= count,
        decreases count - i,
    {
        match entity_at(model, i) {
            Some(entity) => entities.push(entity),
            None => {},
        }
        i = i + 1;
    }
    let source = model_relationships(model);
    let mut relationships: Vec<ErRelationship> = Vec::new();
    let mut k: usize = 0;
    while k < source.len()
        invariant
            k <= source@.len(),
        decreases source@.len() - k,
    {
        relationships.push(relationship_of(&source[k]));
        k = k + 1;
    }
    ErDiagram { acc_title, direction, entities, relationships }
}

/// `value`, or `usize::MAX` where it does not fit.
pub open spec fn capped(value: int) -> usize {
    if value > usize::MAX { usize::MAX } else { value as usize }
}

/// The number of attributes of the first `n` entities.
pub open spec fn attribute_total(entities: Seq<ErEntity>, n: int) -> int
    decreases n,
{
    if n <= 0 { 0 } else { attribute_total(entities, n - 1) + entities[n - 1].attributes@.len() }
}

/// The number of items drawn: entities, relationships and attributes (saturating).
pub open spec fn item_count(diagram: ErDiagram) -> usize {
    capped(diagram.entities@.len() + diagram.relationships@.len()
        + attribute_total(diagram.entities@, diagram.entities@.len() as int))
}

/// The text of a diagram without entities or relationships.
pub open spec fn empty_er_text() -> Seq<char> {
    "ER diagram\n\n(empty ER diagram)\n"@
}

/// Whether `card` is one of the cardinalities the model names.
pub open spec fn known_cardinality(card: Seq<char>) -> bool {
    card == "ONLY_ONE"@ || card == "ZERO_OR_ONE"@ || card == "ONE_OR_MORE"@ || card == "ZERO_OR_MORE"@
        || card == "MD_PARENT"@
}

/// The crow's-foot marker of a known cardinality: exactly one `||`, zero or one `o|`, one or
/// more `|{`, zero or more `o{`, a parent `P|`.
pub open spec fn crow_foot(card: Seq<char>) -> Seq<char> {
    if card == "ONLY_ONE"@ {
        "||"@
    } else if card == "ZERO_OR_ONE"@ {
        "o|"@
    } else if card == "ONE_OR_MORE"@ {
        "|{"@
    } else if card == "ZERO_OR_MORE"@ {
        "o{"@
    } else if card == "MD_PARENT"@ {
        "P|"@
    } else {
        Seq::<char>::empty()
    }
}

/// Law: a crow's-foot marker reads back its cardinality. It has two characters; the first is
/// `o` exactly for the optional cardinalities (zero or one, zero or more) and `P` exactly for a
/// parent; the second is `{` exactly for the many cardinalities (one or more, zero or more).
pub proof fn lemma_crow_foot_reads_cardinality(card: Seq<char>)
    requires
        known_cardinality(card),
    ensures
        crow_foot(card).len() == 2,
        (crow_foot(card)[0] == 'o') <==> (card == "ZERO_OR_ONE"@ || card == "ZERO_OR_MORE"@),
        (crow_foot(card)[0] == 'P') <==> card == "MD_PARENT"@,
        (crow_foot(card)[1] == '{') <==> (card == "ONE_OR_MORE"@ || card == "ZERO_OR_MORE"@),
{
    reveal_strlit("ONLY_ONE");
    reveal_strlit("ZERO_OR_ONE");
    reveal_strlit("ONE_OR_MORE");
    reveal_strlit("ZERO_OR_MORE");
    reveal_strlit("MD_PARENT");
    reveal_strlit("||");
    reveal_strlit("o|");
    reveal_strlit("|{");
    reveal_strlit("o{");
    reveal_strlit("P|");
    assert("ZERO_OR_ONE"@[0] != "ONE_OR_MORE"@[0]);
    assert("ONLY_ONE"@.len() != "ZERO_OR_ONE"@.len());
    assert("ONLY_ONE"@.len() != "ZERO_OR_MORE"@.len());
    assert("ONLY_ONE"@.len() != "MD_PARENT"@.len());
    assert("ZERO_OR_ONE"@.len() != "ZERO_OR_MORE"@.len());
    assert("ZERO_OR_ONE"@.len() != "MD_PARENT"@.len());
    assert("ONE_OR_MORE"@.len() != "ZERO_OR_MORE"@.len());
    assert("ONE_OR_MORE"@.len() != "MD_PARENT"@.len());
    assert("ZERO_OR_MORE"@.len() != "MD_PARENT"@.len());
    assert("ONLY_ONE"@.len() != "ONE_OR_MORE"@.len());
}

/// Law: distinct cardinalities get distinct markers.
pub proof fn lemma_crow_foot_distinct(a: Seq<char>, b: Seq<char>)
    requires
        known_cardinality(a),
        known_cardinality(b),
        crow_foot(a) == crow_foot(b),
    ensures
        a == b,
{
    lemma_crow_foot_reads_cardinality(a);
    lemma_crow_foot_reads_cardinality(b);
    reveal_strlit("ONLY_ONE");
    reveal_strlit("ZERO_OR_ONE");
    reveal_strlit("ONE_OR_MORE");
    reveal_strlit("ZERO_OR_MORE");
    reveal_strlit("MD_PARENT");
    reveal_strlit("||");
    reveal_strlit("o|");
    reveal_strlit("|{");
    reveal_strlit("o{");
    reveal_strlit("P|");
}

/// Whether `e` is the ER family's geometry error whose message starts with `prefix`.
pub open spec fn er_error_with(e: MermansiError, prefix: Seq<char>) -> bool {
    e matches MermansiError::GeometryLayout { family, message } && family == "er"
        && message@.len() >= prefix.len() && message@.subrange(0, prefix.len() as int) == prefix
}

/// The ER family's geometry error: `prefix` followed by `value`.
fn layout_error(prefix: &str, value: &str) -> (r: MermansiError)
    ensures
        er_error_with(r, prefix@),
{
    let mut message = String::from_str(prefix);
    let ghost head = message@;
    message.append(value);
    proof {
        assert(message@.subrange(0, head.len() as int) =~= head);
    }
    MermansiError::GeometryLayout { family: "er", message }
}

/// The marker of a cardinality; an unknown one is refused.
fn cardinality_marker(card: &str) -> (r: Result<&'static str>)
    ensures
        known_cardinality(card@) ==> (r matches Ok(m) && m@ == crow_foot(card@)),
        !known_cardinality(card@) ==> (r matches Err(e) && er_error_with(e, "unknown relationship cardinality: "@)),
{
    if str_eq(card, "ONLY_ONE") {
        Ok("||")
    } else if str_eq(card, "ZERO_OR_ONE") {
        Ok("o|")
    } else if str_eq(card, "ONE_OR_MORE") {
        Ok("|{")
    } else if str_eq(card, "ZERO_OR_MORE") {
        Ok("o{")
    } else if str_eq(card, "MD_PARENT") {
        Ok("P|")
    } else {
        Err(layout_error("unknown relationship cardinality: ", card))
    }
}

/// The bracket pieces of a relationship: top, stem, the role's row and bottom.
struct RelationshipChars {
    top: &'static str,
    stem: &'static str,
    relationship: &'static str,
    bottom: &'static str,
}

/// The bracket of a relationship type; a non-identifying one is dotted at the role, and an
/// unknown type is refused.
fn relationship_chars(charset: Charset, relationship_type: &str) -> (r: Result<RelationshipChars>)
{
    let dotted = if str_eq(relationship_type, "") || str_eq(relationship_type, "IDENTIFYING") {
        false
    } else if str_eq(relationship_type, "NON_IDENTIFYING") {
        true
    } else {
        return Err(layout_error("unknown relationship identification type: ", relationship_type));
    };
    Ok(match charset {
        Charset::Unicode => RelationshipChars {
            top: "┌─ ", stem: "│  ", relationship: if dotted { "├╌ " } else { "├─ " }, bottom: "└─ ",
        },
        Charset::Ascii => RelationshipChars {
            top: "+- ", stem: "|  ", relationship: if dotted { "|. " } else { "|- " }, bottom: "+- ",
        },
    })
}

/// Whether `value` is `upper` in any ASCII case (two letters).
fn is_direction(value: &str, upper: [char; 2], lower: [char; 2]) -> (r: bool)
{
    let chars = chars_of(value);
    chars.len() == 2 && (chars[0] == upper[0] || chars[0] == lower[0]) && (chars[1] == upper[1] || chars[1] == lower[1])
}

/// The flow of the relationships and whether they are listed from their second end.
fn normalized_direction(direction: &str) -> (r: (&'static str, bool))
{
    if is_direction(direction, ['B', 'T'], ['b', 't']) {
        ("BT", true)
    } else if is_direction(direction, ['L', 'R'], ['l', 'r']) {
        ("LR", false)
    } else if is_direction(direction, ['R', 'L'], ['r', 'l']) {
        ("RL", true)
    } else {
        ("TB", false)
    }
}

/// The sanitized label of an entity: its alias, label, id or key, the first not blank.
fn entity_label(entity: &ErEntity) -> (r: String)
{
    let label = if !all_blank(entity.alias.as_str()) {
        entity.alias.as_str()
    } else if !all_blank(entity.label.as_str()) {
        entity.label.as_str()
    } else if !all_blank(entity.id.as_str()) {
        entity.id.as_str()
    } else {
        entity.key.as_str()
    };
    nonempty_or(sanitize_label_text(label).as_str(), "(unnamed entity)")
}

fn all_blank(value: &str) -> (r: bool)
    ensures
        r == all_white(value@),
{
    crate::adapters::chart_primitives::is_white_line(&chars_of(value))
}

/// The text of an attribute: its type, name, keys (joined by commas) and comment, each
/// sanitized and trimmed, the empty ones left out, joined by spaces.
fn attribute_text(attribute: &ErAttribute) -> (r: String)
{
    let mut parts: Vec<String> = Vec::new();
    let ty = trim_text(sanitize_label_text(attribute.ty.as_str()).as_str());
    if !ty.as_str().is_empty() {
        parts.push(ty);
    }
    let name = trim_text(sanitize_label_text(attribute.name.as_str()).as_str());
    if !name.as_str().is_empty() {
        parts.push(name);
    }
    let mut keys = String::new();
    let mut k: usize = 0;
    while k < attribute.keys.len()
        invariant
            k <= attribute.keys@.len(),
        decreases attribute.keys@.len() - k,
    {
        let key = trim_text(sanitize_label_text(attribute.keys[k].as_str()).as_str());
        if !key.as_str().is_empty() {
            if !keys.as_str().is_empty() {
                keys.append(",");
            }
            keys.append(key.as_str());
        }
        k = k + 1;
    }
    if !keys.as_str().is_empty() {
        parts.push(keys);
    }
    let comment = trim_text(sanitize_label_text(attribute.comment.as_str()).as_str());
    if !comment.as_str().is_empty() {
        parts.push(comment);
    }
    let mut text = String::new();
    let mut p: usize = 0;
    while p < parts.len()
        invariant
            p <= parts@.len(),
        decreases parts@.len() - p,
    {
        if p > 0 {
            text.append(" ");
        }
        text.append(parts[p].as_str());
        p = p + 1;
    }
    text
}

/// The box of an entity: its label, then its attributes under a divider.
fn entity_node(entity: &ErEntity, order: usize) -> (r: BoxNode)
{
    let mut lines: Vec<String> = Vec::new();
    lines.push(entity_label(entity));
    let mut dividers: Vec<usize> = Vec::new();
    if entity.attributes.len() > 0 {
        dividers.push(lines.len());
        lines.push(String::new());
        let mut a: usize = 0;
        while a < entity.attributes.len()
            invariant
                a <= entity.attributes@.len(),
            decreases entity.attributes@.len() - a,
        {
            lines.push(nonempty_or(attribute_text(&entity.attributes[a]).as_str(), "(empty attribute)"));
            a = a + 1;
        }
    }
    let mut id = String::from_str("er-");
    id.append(decimal_text(order).as_str());
    BoxNode { id, lines, dividers, parent: None, span: 1, order }
}

/// The label of a relationship end: the label of the entity with that key, else of the first
/// entity with that id, else the sanitized end itself (or `(missing entity)`).
fn endpoint_label(entities: &Vec<ErEntity>, id: &str) -> (r: String)
{
    let mut k: usize = 0;
    while k < entities.len()
        invariant
            k <= entities@.len(),
        decreases entities@.len() - k,
    {
        if str_eq(entities[k].key.as_str(), id) {
            return entity_label(&entities[k]);
        }
        k = k + 1;
    }
    let mut k: usize = 0;
    while k < entities.len()
        invariant
            k <= entities@.len(),
        decreases entities@.len() - k,
    {
        if !entities[k].id.as_str().is_empty() && str_eq(entities[k].id.as_str(), id) {
            return entity_label(&entities[k]);
        }
        k = k + 1;
    }
    nonempty_or(sanitize_label_text(id).as_str(), "(missing entity)")
}

/// The lines of a relationship end: its label wrapped beside the marker, which ends the last
/// line.
fn endpoint_lines(label: &str, marker: &str, width: usize) -> (r: Vec<String>)
{
    let mut suffix = String::from_str("  ");
    suffix.append(marker);
    let room = width.saturating_sub(str_display_width(suffix.as_str()));
    let label_width = if room < 1 { 1 } else { room };
    let mut lines = wrap_display(label, label_width);
    let last = lines.len() - 1;
    let mut line = lines.remove(last);
    line.append(suffix.as_str());
    lines.push(line);
    lines
}

/// Appends `lines` to `out`, each after its bracket piece: `first` on the first line, `last`
/// on the last (where `last_marks` holds), `stem` elsewhere.
fn push_bracketed(out: &mut Vec<String>, lines: &Vec<String>, first: &'static str, last: &'static str, last_marks: bool,
    stem: &'static str)
{
    let mut k: usize = 0;
    while k < lines.len()
        invariant
            k <= lines@.len(),
        decreases lines@.len() - k,
    {
        let piece = if last_marks && k + 1 == lines.len() { last } else if k == 0 { first } else { stem };
        let mut line = String::from_str(piece);
        line.append(lines[k].as_str());
        out.push(line);
        k = k + 1;
    }
}

/// The lines of a relationship: its first end, its role and its last end, bracketed. The
/// ends' cardinalities, the columns and the identification type are checked in that order.
fn relationship_lines(relationship: &ErRelationship, entities: &Vec<ErEntity>, reverse: bool, opts: &MermansiOptions)
    -> (r: Result<Vec<String>>)
    ensures
        !known_cardinality(relationship.card_b@) ==> (r matches Err(e)
            && er_error_with(e, "unknown relationship cardinality: "@)),
        known_cardinality(relationship.card_b@) && !known_cardinality(relationship.card_a@) ==> (r matches Err(e)
            && er_error_with(e, "unknown relationship cardinality: "@)),
        known_cardinality(relationship.card_b@) && known_cardinality(relationship.card_a@) && opts.max_width < 7
            ==> r == Err::<Vec<String>, MermansiError>(MermansiError::RenderLimit {
                context: "er relationship columns", requested: 7, limit: opts.max_width }),
{
    let source_label = endpoint_label(entities, relationship.entity_a.as_str());
    let source_marker = match cardinality_marker(relationship.card_b.as_str()) {
        Ok(m) => m,
        Err(e) => return Err(e),
    };
    let target_label = endpoint_label(entities, relationship.entity_b.as_str());
    let target_marker = match cardinality_marker(relationship.card_a.as_str()) {
        Ok(m) => m,
        Err(e) => return Err(e),
    };
    let content_width = opts.max_width.saturating_sub(3);
    if content_width < 4 {
        return Err(MermansiError::RenderLimit { context: "er relationship columns", requested: 7, limit: opts.max_width });
    }
    let (first_label, first_marker, last_label, last_marker) = if reverse {
        (target_label, target_marker, source_label, source_marker)
    } else {
        (source_label, source_marker, target_label, target_marker)
    };
    let first_lines = endpoint_lines(first_label.as_str(), first_marker, content_width);
    let role = trim_text(sanitize_label_text(relationship.role_a.as_str()).as_str());
    let role = nonempty_or(role.as_str(), "(unlabeled)");
    let role_lines = wrap_display(role.as_str(), content_width);
    let last_lines = endpoint_lines(last_label.as_str(), last_marker, content_width);
    let chars = match relationship_chars(opts.charset, relationship.rel_type.as_str()) {
        Ok(c) => c,
        Err(e) => return Err(e),
    };
    let mut lines: Vec<String> = Vec::new();
    push_bracketed(&mut lines, &first_lines, chars.top, chars.stem, false, chars.stem);
    push_bracketed(&mut lines, &role_lines, chars.relationship, chars.stem, false, chars.stem);
    push_bracketed(&mut lines, &last_lines, chars.stem, chars.bottom, true, chars.stem);
    Ok(lines)
}

/// Draws an ER diagram: the entities as compartment boxes (label, then attributes), then,
/// under a `Relationships` heading with the flow, each relationship as a bracket from one end
/// to the other with the cardinality markers at its ends and its role between them.
///
/// The item count is bounded first; a diagram with neither entities nor relationships is a
/// fixed text; an unknown cardinality or identification type is refused.
pub fn render_er(diagram: &ErDiagram, opts: &MermansiOptions) -> (r: Result<String>)
    ensures
        item_count(*diagram) > MAX_ER_ITEMS ==> r == Err::<String, MermansiError>(MermansiError::RenderLimit {
            context: "er items", requested: item_count(*diagram), limit: MAX_ER_ITEMS }),
        item_count(*diagram) <= MAX_ER_ITEMS && diagram.entities@.len() == 0 && diagram.relationships@.len() == 0
            ==> (r matches Ok(s) && s@ == empty_er_text()),
        item_count(*diagram) <= MAX_ER_ITEMS && diagram.entities@.len() == 0 && diagram.relationships@.len() > 0
            && !known_cardinality(diagram.relationships@[0].card_b@)
            ==> (r matches Err(e) && er_error_with(e, "unknown relationship cardinality: "@)),
        item_count(*diagram) <= MAX_ER_ITEMS && diagram.entities@.len() == 0 && diagram.relationships@.len() > 0
            && known_cardinality(diagram.relationships@[0].card_b@) && known_cardinality(diagram.relationships@[0].card_a@)
            && opts.max_width < 7 ==> r == Err::<String, MermansiError>(MermansiError::RenderLimit {
                context: "er relationship columns", requested: 7, limit: opts.max_width }),
{
    let mut attributes: usize = 0;
    let mut k: usize = 0;
    while k < diagram.entities.len()
        invariant
            k <= diagram.entities@.len(),
            attributes == capped(attribute_total(diagram.entities@, k as int)),
            attribute_total(diagram.entities@, k as int) >= 0,
        decreases diagram.entities@.len() - k,
    {
        attributes = attributes.saturating_add(diagram.entities[k].attributes.len());
        k = k + 1;
    }
    let items = diagram.entities.len().saturating_add(diagram.relationships.len()).saturating_add(attributes);
    if items > MAX_ER_ITEMS {
        return Err(MermansiError::RenderLimit { context: "er items", requested: items, limit: MAX_ER_ITEMS });
    }
    if diagram.entities.len() == 0 && diagram.relationships.len() == 0 {
        proof {
            reveal_strlit("ER diagram\n\n(empty ER diagram)\n");
        }
        return Ok(String::from_str("ER diagram\n\n(empty ER diagram)\n"));
    }
    let mut output = String::new();
    if diagram.entities.len() > 0 {
        let mut nodes: Vec<BoxNode> = Vec::new();
        let mut n: usize = 0;
        while n < diagram.entities.len()
            invariant
                n <= diagram.entities@.len(),
            decreases diagram.entities@.len() - n,
        {
            nodes.push(entity_node(&diagram.entities[n], n));
            n = n + 1;
        }
        let title = match &diagram.acc_title {
            Some(t) => Some(t.clone()),
            None => None,
        };
        let boxes = BoxDiagram {
            family: "er",
            title,
            nodes,
            groups: Vec::new(),
            spacers: Vec::new(),
            edges: Vec::new(),
            columns: None,
            layout: BoxLayout::Packed,
            edge_legend: EdgeLegend::Hidden,
        };
        output = match box_geometry::render(&boxes, opts) {
            Ok(text) => text,
            Err(e) => return Err(e),
        };
    }
    if diagram.relationships.len() == 0 {
        return Ok(output);
    }
    let (direction, reverse) = normalized_direction(diagram.direction.as_str());
    let out_chars = chars_of(output.as_str());
    if out_chars.len() > 0 && out_chars[out_chars.len() - 1] != '\n' {
        output.append("\n");
    }
    if !all_blank(output.as_str()) {
        output.append("\n");
    }
    let mut heading = String::from_str("Relationships");
    heading.append(detail_separator(opts.charset));
    heading.append(direction);
    let heading_lines = wrap_display(heading.as_str(), opts.max_width);
    let mut h: usize = 0;
    while h < heading_lines.len()
        invariant
            h <= heading_lines@.len(),
        decreases heading_lines@.len() - h,
    {
        output.append(heading_lines[h].as_str());
        output.append("\n");
        h = h + 1;
    }
    let mut i: usize = 0;
    while i < diagram.relationships.len()
        invariant
            i <= diagram.relationships@.len(),
            item_count(*diagram) <= MAX_ER_ITEMS,
            i > 0 ==> known_cardinality(diagram.relationships@[0].card_b@)
                && known_cardinality(diagram.relationships@[0].card_a@) && opts.max_width >= 7,
        decreases diagram.relationships@.len() - i,
    {
        if i > 0 {
            output.append("\n");
        }
        let lines = match relationship_lines(&diagram.relationships[i], &diagram.entities, reverse, opts) {
            Ok(lines) => lines,
            Err(e) => return Err(e),
        };
        let mut l: usize = 0;
        while l < lines.len()
            invariant
                l <= lines@.len(),
            decreases lines@.len() - l,
        {
            output.append(lines[l].as_str());
            output.append("\n");
            l = l + 1;
        }
        i = i + 1;
    }
    Ok(output)
}

} // verus!
