//! Requirement diagram terminal geometry.
//!
//! Every requirement and element is a closed box, every typed relationship a directed route;
//! the diagram's direction orders the layers.

use vstd::prelude::*;
use crate::adapters::box_geometry::{
    self, BoxDiagram, BoxDirection, BoxEdge, BoxLayout, BoxNode, EdgeLegend, EdgeMarker, EdgeStyle, directed_ranks,
    MAX_BOX_EDGES, MAX_BOX_ITEMS,
};
use crate::adapters::nonempty_or;
use crate::adapters::kanban::texts;
use crate::canvas::all_white;
use crate::error::{MermansiError, Result};
use crate::options::MermansiOptions;

verus! {

#[verifier::external_type_specification]
#[verifier::external_body]
pub struct ExRequirementDiagramRenderModel(merman_core::diagrams::requirement::RequirementDiagramRenderModel);

#[verifier::external_type_specification]
#[verifier::external_body]
pub struct ExRequirementRenderNode(merman_core::diagrams::requirement::RequirementRenderNode);

#[verifier::external_type_specification]
#[verifier::external_body]
pub struct ExRequirementRenderElement(merman_core::diagrams::requirement::RequirementRenderElement);

#[verifier::external_type_specification]
#[verifier::external_body]
pub struct ExRequirementRenderRelationship(merman_core::diagrams::requirement::RequirementRenderRelationship);

/// A requirement with its attributes.
pub struct Requirement {
    pub name: String,
    pub node_type: String,
    pub requirement_id: String,
    pub text: String,
    pub risk: String,
    pub verify_method: String,
}

/// An element that satisfies, traces or verifies requirements.
pub struct RequirementElement {
    pub name: String,
    pub element_type: String,
    pub doc_ref: String,
}

/// A typed relationship from `src` to `dst`.
pub struct RequirementRelationship {
    pub rel_type: String,
    pub src: String,
    pub dst: String,
}

/// A requirement diagram.
pub struct RequirementDiagram {
    pub direction: String,
    pub requirements: Vec<Requirement>,
    pub elements: Vec<RequirementElement>,
    pub relationships: Vec<RequirementRelationship>,
}

/// The requirement model of a parsed diagram, if it is one.
#[verifier::external_body]
pub(crate) fn parsed_requirement(parsed: &merman_core::ParsedDiagramRender)
    -> (r: Option<&merman_core::diagrams::requirement::RequirementDiagramRenderModel>)
{
    match parsed.model() {
        merman_core::diagram::RenderSemanticModel::Requirement(model) => Some(model),
        _ => None,
    }
}

/// The `direction` field of a requirement model.
#[verifier::external_body]
fn model_direction(model: &merman_core::diagrams::requirement::RequirementDiagramRenderModel) -> (r: String)
{
    model.direction.clone()
}

/// The `requirements` field of a requirement model.
#[verifier::external_body]
fn model_requirements(model: &merman_core::diagrams::requirement::RequirementDiagramRenderModel)
    -> (r: &Vec<merman_core::diagrams::requirement::RequirementRenderNode>)
{
    &model.requirements
}

/// The `elements` field of a requirement model.
#[verifier::external_body]
fn model_elements(model: &merman_core::diagrams::requirement::RequirementDiagramRenderModel)
    -> (r: &Vec<merman_core::diagrams::requirement::RequirementRenderElement>)
{
    &model.elements
}

/// The `relationships` field of a requirement model.
#[verifier::external_body]
fn model_relationships(model: &merman_core::diagrams::requirement::RequirementDiagramRenderModel)
    -> (r: &Vec<merman_core::diagrams::requirement::RequirementRenderRelationship>)
{
    &model.relationships
}

/// A parsed requirement, field for field.
#[verifier::external_body]
fn requirement_of(node: &merman_core::diagrams::requirement::RequirementRenderNode) -> (r: Requirement)
{
    Requirement {
        name: node.name.clone(),
        node_type: node.node_type.clone(),
        requirement_id: node.requirement_id.clone(),
        text: node.text.clone(),
        risk: node.risk.clone(),
        verify_method: node.verify_method.clone(),
    }
}

/// A parsed element, field for field.
#[verifier::external_body]
fn element_of(element: &merman_core::diagrams::requirement::RequirementRenderElement) -> (r: RequirementElement)
{
    RequirementElement { name: element.name.clone(), element_type: element.element_type.clone(), doc_ref: element.doc_ref.clone() }
}

/// A parsed relationship, field for field.
#[verifier::external_body]
fn relationship_of(rel: &merman_core::diagrams::requirement::RequirementRenderRelationship) -> (r: RequirementRelationship)
{
    RequirementRelationship { rel_type: rel.rel_type.clone(), src: rel.src.clone(), dst: rel.dst.clone() }
}

/// The library's copy of a parsed requirement model.
pub(crate) fn diagram_of(model: &merman_core::diagrams::requirement::RequirementDiagramRenderModel)
    -> (r: RequirementDiagram)
{
    let parsed_requirements = model_requirements(model);
    let mut requirements: Vec<Requirement> = Vec::new();
    let mut i: usize = 0;
    while i < parsed_requirements.len()
        invariant
            i <= parsed_requirements@.len(),
        decreases parsed_requirements@.len() - i,
    {
        requirements.push(requirement_of(&parsed_requirements[i]));
        i = i + 1;
    }
    let parsed_elements = model_elements(model);
    let mut elements: Vec<RequirementElement> = Vec::new();
    let mut j: usize = 0;
    while j < parsed_elements.len()
        invariant
            j <= parsed_elements@.len(),
        decreases parsed_elements@.len() - j,
    {
        elements.push(element_of(&parsed_elements[j]));
        j = j + 1;
    }
    let parsed_relationships = model_relationships(model);
    let mut relationships: Vec<RequirementRelationship> = Vec::new();
    let mut k: usize = 0;
    while k < parsed_relationships.len()
        invariant
            k <= parsed_relationships@.len(),
        decreases parsed_relationships@.len() - k,
    {
        relationships.push(relationship_of(&parsed_relationships[k]));
        k = k + 1;
    }
    RequirementDiagram { direction: model_direction(model), requirements, elements, relationships }
}

/// `label: value`, added where the value is not empty.
/// The line an attribute adds: `label` and `value`, where the value is not empty.
pub open spec fn attribute_lines(label: Seq<char>, value: Seq<char>) -> Seq<Seq<char>> {
    if value.len() > 0 { seq![label + value] } else { seq![] }
}

/// `[kind] name`, with `(unnamed)` for a blank name.
pub open spec fn heading_text(kind: Seq<char>, name: Seq<char>) -> Seq<char> {
    "["@ + kind + "] "@ + (if all_white(name) { "(unnamed)"@ } else { name })
}

fn push_attribute(lines: &mut Vec<String>, label: &str, value: &str)
    ensures
        texts(final(lines)@) == texts(old(lines)@) + attribute_lines(label@, value@),
{
    if !value.is_empty() {
        let mut line = String::from_str(label);
        line.append(value);
        lines.push(line);
    }
    assert(texts(lines@) =~= texts(old(lines)@) + attribute_lines(label@, value@));
}

/// `[kind] name`.
fn heading(kind: &str, name: &str) -> (r: String)
    ensures
        r@ == heading_text(kind@, name@),
{
    let mut line = String::from_str("[");
    line.append(kind);
    line.append("] ");
    let shown = nonempty_or(name, "(unnamed)");
    line.append(shown.as_str());
    assert(line@ =~= heading_text(kind@, name@));
    line
}

fn requirement_node(req: &Requirement, order: usize) -> (r: BoxNode)
    ensures
        r.id == req.name,
        r.parent is None,
        r.span == 1,
        r.order == order,
        r.dividers@.len() == 0,
        texts(r.lines@) == seq![heading_text(req.node_type@, req.name@)] + attribute_lines("id: "@, req.requirement_id@)
            + attribute_lines("text: "@, req.text@) + attribute_lines("risk: "@, req.risk@)
            + attribute_lines("verify: "@, req.verify_method@),
{
    let mut lines: Vec<String> = Vec::new();
    lines.push(heading(req.node_type.as_str(), req.name.as_str()));
    assert(texts(lines@) =~= seq![heading_text(req.node_type@, req.name@)]);
    push_attribute(&mut lines, "id: ", req.requirement_id.as_str());
    push_attribute(&mut lines, "text: ", req.text.as_str());
    push_attribute(&mut lines, "risk: ", req.risk.as_str());
    push_attribute(&mut lines, "verify: ", req.verify_method.as_str());
    assert(texts(lines@) =~= seq![heading_text(req.node_type@, req.name@)] + attribute_lines("id: "@, req.requirement_id@)
        + attribute_lines("text: "@, req.text@) + attribute_lines("risk: "@, req.risk@)
        + attribute_lines("verify: "@, req.verify_method@));
    BoxNode { id: req.name.clone(), lines, dividers: Vec::new(), parent: None, span: 1, order }
}

fn element_node(element: &RequirementElement, order: usize) -> (r: BoxNode)
    ensures
        r.id == element.name,
        r.parent is None,
        r.span == 1,
        r.order == order,
        r.dividers@.len() == 0,
        texts(r.lines@) == seq![heading_text(element.element_type@, element.name@)]
            + attribute_lines("docRef: "@, element.doc_ref@),
{
    let mut lines: Vec<String> = Vec::new();
    lines.push(heading(element.element_type.as_str(), element.name.as_str()));
    assert(texts(lines@) =~= seq![heading_text(element.element_type@, element.name@)]);
    push_attribute(&mut lines, "docRef: ", element.doc_ref.as_str());
    assert(texts(lines@) =~= seq![heading_text(element.element_type@, element.name@)]
        + attribute_lines("docRef: "@, element.doc_ref@));
    BoxNode { id: element.name.clone(), lines, dividers: Vec::new(), parent: None, span: 1, order }
}

/// Draws a requirement diagram: requirements, then elements, as boxes in layers along the
/// diagram's direction, each relationship an arrow labelled with its type.
pub fn render_requirement(model: &RequirementDiagram, opts: &MermansiOptions) -> (r: Result<String>)
    ensures
        ({
            let items = model.requirements@.len() + model.elements@.len();
            &&& items > MAX_BOX_ITEMS ==> r == Err::<String, MermansiError>(MermansiError::RenderLimit {
                context: "box geometry items", requested: if items > usize::MAX { usize::MAX } else { items as usize },
                limit: MAX_BOX_ITEMS })
            &&& items <= MAX_BOX_ITEMS && model.relationships@.len() > MAX_BOX_EDGES ==> r == Err::<String, MermansiError>(
                MermansiError::RenderLimit { context: "box geometry edges", requested: model.relationships@.len() as usize,
                limit: MAX_BOX_EDGES })
        }),
{
    let direction = BoxDirection::from_str(model.direction.as_str());
    let (from_side, to_side) = direction.edge_sides();
    let mut nodes: Vec<BoxNode> = Vec::new();
    let mut i: usize = 0;
    while i < model.requirements.len()
        invariant
            i <= model.requirements@.len(),
            nodes@.len() == i,
        decreases model.requirements@.len() - i,
    {
        nodes.push(requirement_node(&model.requirements[i], i));
        i = i + 1;
    }
    let node_order = model.requirements.len();
    let mut j: usize = 0;
    while j < model.elements.len()
        invariant
            j <= model.elements@.len(),
            node_order == model.requirements@.len(),
            nodes@.len() == node_order + j,
        decreases model.elements@.len() - j,
    {
        nodes.push(element_node(&model.elements[j], node_order.saturating_add(j)));
        j = j + 1;
    }
    let mut edges: Vec<BoxEdge> = Vec::new();
    let mut k: usize = 0;
    while k < model.relationships.len()
        invariant
            k <= model.relationships@.len(),
            edges@.len() == k,
        decreases model.relationships@.len() - k,
    {
        let rel = &model.relationships[k];
        edges.push(BoxEdge {
            from: rel.src.clone(),
            to: rel.dst.clone(),
            label: rel.rel_type.clone(),
            marker_start: EdgeMarker::Absent,
            marker_end: EdgeMarker::Arrow,
            style: EdgeStyle::Solid,
            from_side: Some(from_side),
            to_side: Some(to_side),
        });
        k = k + 1;
    }
    let ranks = directed_ranks(&nodes, &edges);
    let diagram = BoxDiagram {
        family: "requirement",
        title: Some(String::from_str("Requirement diagram")),
        nodes,
        groups: Vec::new(),
        spacers: Vec::new(),
        edges,
        columns: None,
        layout: BoxLayout::Layered { direction, ranks },
        edge_legend: EdgeLegend::All,
    };
    box_geometry::render(&diagram, opts)
}

} // verus!
