//! Mindmap terminal geometry: ideas as boxes in layers from the root, left to right.

use vstd::prelude::*;
use crate::adapters::box_geometry::{
    self, BoxDiagram, BoxDirection, BoxEdge, BoxLayout, BoxNode, EdgeLegend, EdgeMarker, EdgeStyle, directed_ranks,
    ensure_inventory,
};
use crate::adapters::chart_primitives::is_white_line;
use crate::error::Result;
use crate::options::MermansiOptions;
use crate::text::chars_of;

verus! {

#[verifier::external_type_specification]
#[verifier::external_body]
pub struct ExMindmapDiagramRenderModel(merman_core::diagrams::mindmap::MindmapDiagramRenderModel);

/// An idea of the mindmap.
pub struct MindmapIdea {
    pub id: String,
    pub label: String,
}

/// A link from one idea to another.
pub struct MindmapLink {
    pub start: String,
    pub end: String,
}

/// A mindmap: its ideas and the links between them.
pub struct Mindmap {
    pub nodes: Vec<MindmapIdea>,
    pub edges: Vec<MindmapLink>,
}

#[verifier::external_type_specification]
#[verifier::external_body]
pub struct ExMindmapDiagramRenderNode(merman_core::diagrams::mindmap::MindmapDiagramRenderNode);

#[verifier::external_type_specification]
#[verifier::external_body]
pub struct ExMindmapDiagramRenderEdge(merman_core::diagrams::mindmap::MindmapDiagramRenderEdge);

/// The mindmap model of a parsed diagram, if it is one.
#[verifier::external_body]
pub(crate) fn parsed_mindmap(parsed: &merman_core::ParsedDiagramRender)
    -> (r: Option<&merman_core::diagrams::mindmap::MindmapDiagramRenderModel>)
{
    match parsed.model() {
        merman_core::diagram::RenderSemanticModel::Mindmap(model) => Some(model),
        _ => None,
    }
}

/// The `nodes` field of a mindmap model.
#[verifier::external_body]
fn model_nodes(model: &merman_core::diagrams::mindmap::MindmapDiagramRenderModel)
    -> (r: &Vec<merman_core::diagrams::mindmap::MindmapDiagramRenderNode>)
{
    &model.nodes
}

/// The `edges` field of a mindmap model.
#[verifier::external_body]
fn model_edges(model: &merman_core::diagrams::mindmap::MindmapDiagramRenderModel)
    -> (r: &Vec<merman_core::diagrams::mindmap::MindmapDiagramRenderEdge>)
{
    &model.edges
}

/// The id and label of a parsed idea.
#[verifier::external_body]
fn idea_of(node: &merman_core::diagrams::mindmap::MindmapDiagramRenderNode) -> (r: MindmapIdea)
{
    MindmapIdea { id: node.id.clone(), label: node.label.clone() }
}

/// The ends of a parsed link.
#[verifier::external_body]
fn link_of(edge: &merman_core::diagrams::mindmap::MindmapDiagramRenderEdge) -> (r: MindmapLink)
{
    MindmapLink { start: edge.start.clone(), end: edge.end.clone() }
}

/// The library's copy of a parsed mindmap.
pub(crate) fn diagram_of(model: &merman_core::diagrams::mindmap::MindmapDiagramRenderModel) -> (r: Mindmap)
{
    let parsed_nodes = model_nodes(model);
    let mut nodes: Vec<MindmapIdea> = Vec::new();
    let mut i: usize = 0;
    while i < parsed_nodes.len()
        invariant
            i <= parsed_nodes@.len(),
        decreases parsed_nodes@.len() - i,
    {
        nodes.push(idea_of(&parsed_nodes[i]));
        i = i + 1;
    }
    let parsed_edges = model_edges(model);
    let mut edges: Vec<MindmapLink> = Vec::new();
    let mut j: usize = 0;
    while j < parsed_edges.len()
        invariant
            j <= parsed_edges@.len(),
        decreases parsed_edges@.len() - j,
    {
        edges.push(link_of(&parsed_edges[j]));
        j = j + 1;
    }
    Mindmap { nodes, edges }
}

/// Draws a mindmap: every idea a box (`(unnamed)` where its label is blank), every link an
/// arrow, in layers left to right from the root.
pub fn render_mindmap(model: &Mindmap, opts: &MermansiOptions) -> (r: Result<String>)
    ensures
        model.nodes@.len() > box_geometry::MAX_BOX_ITEMS ==> r == Err::<String, crate::error::MermansiError>(
            crate::error::MermansiError::RenderLimit { context: "box geometry items", requested: model.nodes@.len() as usize,
                limit: box_geometry::MAX_BOX_ITEMS }),
        model.nodes@.len() <= box_geometry::MAX_BOX_ITEMS && model.edges@.len() > box_geometry::MAX_BOX_EDGES
            ==> r == Err::<String, crate::error::MermansiError>(crate::error::MermansiError::RenderLimit {
                context: "box geometry edges", requested: model.edges@.len() as usize, limit: box_geometry::MAX_BOX_EDGES }),
{
    match ensure_inventory(model.nodes.len(), model.edges.len()) {
        Ok(()) => {},
        Err(e) => return Err(e),
    }
    let direction = BoxDirection::Lr;
    let (from_side, to_side) = direction.edge_sides();
    let mut nodes: Vec<BoxNode> = Vec::new();
    let mut i: usize = 0;
    while i < model.nodes.len()
        invariant
            i <= model.nodes@.len(),
        decreases model.nodes@.len() - i,
    {
        let idea = &model.nodes[i];
        let chars = chars_of(idea.label.as_str());
        let label = if is_white_line(&chars) { String::from_str("(unnamed)") } else { idea.label.clone() };
        let mut lines: Vec<String> = Vec::new();
        lines.push(label);
        nodes.push(BoxNode { id: idea.id.clone(), lines, dividers: Vec::new(), parent: None, span: 1, order: i });
        i = i + 1;
    }
    let mut edges: Vec<BoxEdge> = Vec::new();
    let mut e: usize = 0;
    while e < model.edges.len()
        invariant
            e <= model.edges@.len(),
        decreases model.edges@.len() - e,
    {
        let link = &model.edges[e];
        edges.push(BoxEdge {
            from: link.start.clone(),
            to: link.end.clone(),
            label: String::new(),
            marker_start: EdgeMarker::Absent,
            marker_end: EdgeMarker::Arrow,
            style: EdgeStyle::Solid,
            from_side: Some(from_side),
            to_side: Some(to_side),
        });
        e = e + 1;
    }
    let ranks = directed_ranks(&nodes, &edges);
    let diagram = BoxDiagram {
        family: "mindmap",
        title: Some(String::from_str("Mindmap")),
        nodes,
        groups: Vec::new(),
        spacers: Vec::new(),
        edges,
        columns: None,
        layout: BoxLayout::Layered { direction, ranks },
        edge_legend: EdgeLegend::Hidden,
    };
    box_geometry::render(&diagram, opts)
}

} // verus!
