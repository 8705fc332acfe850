//! Sankey terminal geometry.
//!
//! Nodes are closed boxes arranged by flow rank. Every link is a connected directed route whose
//! label holds the parsed value and a proportional terminal bar. The flow totals, their text and
//! the bar lengths are computed from the parsed numbers before the diagram reaches this module.

use vstd::prelude::*;
use crate::adapters::box_geometry::{
    self, BoxDiagram, BoxDirection, BoxEdge, BoxLayout, BoxNode, EdgeLegend, EdgeMarker, EdgeStyle, Side,
    directed_ranks, layout_error, rank_of, str_eq, text_of, MAX_BOX_EDGES, MAX_BOX_ITEMS,
};
use crate::ansi::sanitize_label_text;
use crate::error::{MermansiError, Result};
use crate::options::{Charset, MermansiOptions};

verus! {

/// Most nodes drawn.
pub const MAX_SANKEY_NODES: usize = 4096;
/// Most links drawn.
pub const MAX_SANKEY_LINKS: usize = 4096;
/// Longest flow bar, in cells.
pub const MAX_FLOW_BAR: usize = 8;

/// A node: its id, the text of its flow total and the length of its flow bar.
pub struct SankeyNode {
    pub id: String,
    pub flow: String,
    pub bar: usize,
}

/// A link between two node ids: the text of its value and the length of its flow bar.
pub struct SankeyLink {
    pub source: String,
    pub target: String,
    pub value: String,
    pub bar: usize,
}

/// A sankey diagram: its nodes and links, in source order.
pub struct SankeyDiagram {
    pub nodes: Vec<SankeyNode>,
    pub links: Vec<SankeyLink>,
}

/// Whether two nodes share an id.
pub open spec fn duplicate_ids(nodes: Seq<SankeyNode>) -> bool {
    exists|i: int, j: int| 0 <= i < j < nodes.len() && (#[trigger] nodes[i]).id@ == (#[trigger] nodes[j]).id@
}

/// Whether a node has the id `id`.
pub open spec fn has_node(nodes: Seq<SankeyNode>, id: Seq<char>) -> bool {
    exists|i: int| 0 <= i < nodes.len() && (#[trigger] nodes[i]).id@ == id
}

/// Whether a link names an end that is no node.
pub open spec fn dangling_link(nodes: Seq<SankeyNode>, links: Seq<SankeyLink>) -> bool {
    exists|k: int| 0 <= k < links.len()
        && (!has_node(nodes, (#[trigger] links[k]).source@) || !has_node(nodes, links[k].target@))
}

/// Whether `e` is a sankey geometry error.
pub open spec fn sankey_layout_error(e: MermansiError) -> bool {
    e matches MermansiError::GeometryLayout { family, .. } && family == "sankey"
}

/// The glyph flow bars are drawn with.
fn bar_fill(charset: Charset) -> (r: &'static str) {
    match charset {
        Charset::Unicode => "█",
        Charset::Ascii => "#",
    }
}

/// `count` copies of `fill`.
/// `fill`, `count` times over.
pub open spec fn repeated_text(fill: Seq<char>, count: int) -> Seq<char>
    decreases count,
{
    if count <= 0 { seq![] } else { repeated_text(fill, count - 1) + fill }
}

fn repeated(fill: &str, count: usize) -> (r: String)
    requires
        count <= MAX_FLOW_BAR,
    ensures
        r@ == repeated_text(fill@, count as int),
{
    let mut out = String::new();
    let mut i: usize = 0;
    while i < count
        invariant
            i <= count,
            out@ == repeated_text(fill@, i as int),
        decreases count - i,
    {
        out.append(fill);
        i = i + 1;
    }
    out
}

/// Whether some node has the id `id`.
fn node_exists(nodes: &Vec<SankeyNode>, id: &str) -> (r: bool)
    ensures
        r == has_node(nodes@, id@),
{
    let mut i: usize = 0;
    while i < nodes.len()
        invariant
            i <= nodes@.len(),
            forall|a: int| 0 <= a < i ==> (#[trigger] nodes@[a]).id@ != id@,
        decreases nodes@.len() - i,
    {
        if str_eq(nodes[i].id.as_str(), id) {
            return true;
        }
        i = i + 1;
    }
    false
}

/// The first node whose id an earlier node has, if there is one.
fn first_duplicate(nodes: &Vec<SankeyNode>) -> (r: Option<usize>)
    ensures
        r is None <==> !duplicate_ids(nodes@),
        r matches Some(i) ==> i < nodes@.len(),
{
    let n = nodes.len();
    let mut i: usize = 0;
    while i < n
        invariant
            i <= n,
            n == nodes@.len(),
            forall|a: int, b: int| 0 <= a < b < i ==> (#[trigger] nodes@[a]).id@ != (#[trigger] nodes@[b]).id@,
        decreases n - i,
    {
        let mut j: usize = 0;
        while j < i
            invariant
                j <= i < n,
                n == nodes@.len(),
                forall|a: int| 0 <= a < j ==> (#[trigger] nodes@[a]).id@ != nodes@[i as int].id@,
            decreases i - j,
        {
            if str_eq(nodes[j].id.as_str(), nodes[i].id.as_str()) {
                return Some(i);
            }
            j = j + 1;
        }
        i = i + 1;
    }
    None
}

/// The first link with an end that is no node, if there is one.
fn first_dangling(nodes: &Vec<SankeyNode>, links: &Vec<SankeyLink>) -> (r: Option<usize>)
    ensures
        r is None <==> !dangling_link(nodes@, links@),
        r matches Some(k) ==> k < links@.len(),
{
    let mut k: usize = 0;
    while k < links.len()
        invariant
            k <= links@.len(),
            forall|a: int| 0 <= a < k ==> has_node(nodes@, (#[trigger] links@[a]).source@)
                && has_node(nodes@, links@[a].target@),
        decreases links@.len() - k,
    {
        if !node_exists(nodes, links[k].source.as_str()) || !node_exists(nodes, links[k].target.as_str()) {
            return Some(k);
        }
        k = k + 1;
    }
    None
}

/// The boxes of the nodes: the label (or `(unnamed)`) over the flow total and its bar.
fn flow_nodes(model: &SankeyDiagram, charset: Charset) -> (r: Vec<BoxNode>)
    requires
        forall|i: int| 0 <= i < model.nodes@.len() ==> (#[trigger] model.nodes@[i]).bar <= MAX_FLOW_BAR,
    ensures
        r@.len() == model.nodes@.len(),
        forall|i: int| 0 <= i < r@.len() ==> (#[trigger] r@[i]).id@ == model.nodes@[i].id@,
{
    let fill = bar_fill(charset);
    let mut nodes: Vec<BoxNode> = Vec::new();
    let mut i: usize = 0;
    while i < model.nodes.len()
        invariant
            i <= model.nodes@.len(),
            nodes@.len() == i,
            forall|a: int| 0 <= a < model.nodes@.len() ==> (#[trigger] model.nodes@[a]).bar <= MAX_FLOW_BAR,
            forall|a: int| 0 <= a < i ==> (#[trigger] nodes@[a]).id@ == model.nodes@[a].id@,
        decreases model.nodes@.len() - i,
    {
        let node = &model.nodes[i];
        let label = sanitize_label_text(node.id.as_str());
        let first = if label.as_str().len() == 0 { String::from_str("(unnamed)") } else { label };
        let bar = repeated(fill, node.bar);
        let second = text_of(&["flow ", node.flow.as_str(), " ", bar.as_str()]);
        let mut lines: Vec<String> = Vec::new();
        lines.push(first);
        lines.push(second);
        nodes.push(BoxNode { id: node.id.clone(), lines, dividers: Vec::new(), parent: None, span: 1, order: i });
        i = i + 1;
    }
    nodes
}

/// The directed edges of the links, labeled with the value and its bar.
fn flow_edges(model: &SankeyDiagram, charset: Charset) -> (r: Vec<BoxEdge>)
    requires
        forall|k: int| 0 <= k < model.links@.len() ==> (#[trigger] model.links@[k]).bar <= MAX_FLOW_BAR,
    ensures
        r@.len() == model.links@.len(),
{
    let fill = bar_fill(charset);
    let (from_side, to_side) = BoxDirection::Lr.edge_sides();
    let mut edges: Vec<BoxEdge> = Vec::new();
    let mut k: usize = 0;
    while k < model.links.len()
        invariant
            k <= model.links@.len(),
            edges@.len() == k,
            forall|a: int| 0 <= a < model.links@.len() ==> (#[trigger] model.links@[a]).bar <= MAX_FLOW_BAR,
        decreases model.links@.len() - k,
    {
        let link = &model.links[k];
        let value = sanitize_label_text(link.value.as_str());
        let bar = repeated(fill, link.bar);
        edges.push(BoxEdge {
            from: link.source.clone(),
            to: link.target.clone(),
            label: text_of(&[value.as_str(), " ", bar.as_str()]),
            marker_start: EdgeMarker::Absent,
            marker_end: EdgeMarker::Arrow,
            style: EdgeStyle::Solid,
            from_side: Some(from_side),
            to_side: Some(to_side),
        });
        k = k + 1;
    }
    edges
}

/// Lays the boxes out in ranks along `direction`. In a horizontal layout, edges that skip a
/// rank leave and enter by the top and bottom sides in turn, so they pass around the ranks
/// between.
fn render_layout(nodes: Vec<BoxNode>, edges: &Vec<BoxEdge>, ranks: Vec<(String, usize)>, direction: BoxDirection,
    opts: &MermansiOptions) -> (r: Result<String>)
    ensures
        nodes@.len() > MAX_BOX_ITEMS ==> r == Err::<String, MermansiError>(MermansiError::RenderLimit {
            context: "box geometry items", requested: if nodes@.len() > usize::MAX { usize::MAX }
            else { nodes@.len() as usize }, limit: MAX_BOX_ITEMS }),
        nodes@.len() <= MAX_BOX_ITEMS && edges@.len() > MAX_BOX_EDGES ==> r == Err::<String, MermansiError>(
            MermansiError::RenderLimit { context: "box geometry edges", requested: edges@.len() as usize,
            limit: MAX_BOX_EDGES }),
{
    let (from_side, to_side) = direction.edge_sides();
    let horizontal = match direction {
        BoxDirection::Lr | BoxDirection::Rl => true,
        _ => false,
    };
    let mut routed: Vec<BoxEdge> = Vec::new();
    let mut outer_route: usize = 0;
    let mut k: usize = 0;
    while k < edges.len()
        invariant
            k <= edges@.len(),
            outer_route <= k,
            routed@.len() == k,
        decreases edges@.len() - k,
    {
        let mut edge = edges[k].duplicate();
        edge.from_side = Some(from_side);
        edge.to_side = Some(to_side);
        let gap = match (rank_of(&ranks, edge.from.as_str()), rank_of(&ranks, edge.to.as_str())) {
            (Some(a), Some(b)) => if a > b { a - b } else { b - a },
            _ => 0,
        };
        if gap > 1 && horizontal {
            let side = if outer_route % 2 == 0 { Side::Top } else { Side::Bottom };
            edge.from_side = Some(side);
            edge.to_side = Some(side);
            outer_route = outer_route + 1;
        }
        routed.push(edge);
        k = k + 1;
    }
    box_geometry::render(
        &BoxDiagram {
            family: "sankey",
            title: Some(String::from_str("Sankey")),
            nodes,
            groups: Vec::new(),
            spacers: Vec::new(),
            edges: routed,
            columns: None,
            layout: BoxLayout::Layered { direction, ranks },
            edge_legend: EdgeLegend::All,
        },
        opts,
    )
}

/// Whether `e` says that the boxes did not fit the width.
fn is_column_limit(e: &MermansiError) -> (r: bool) {
    match e {
        MermansiError::RenderLimit { context, .. } => str_eq(context, "box geometry columns"),
        _ => false,
    }
}

/// Render a sankey diagram as ranked boxes joined by directed flow routes, left to right, or
/// top to bottom where the ranks do not fit the width.
///
/// The node and link counts are bounded first; a diagram without nodes gives a placeholder
/// line. A node id that occurs twice, or a link end that names no node, cannot be routed and is
/// a geometry error.
pub fn render_sankey(model: &SankeyDiagram, opts: &MermansiOptions) -> (r: Result<String>)
    requires
        forall|i: int| 0 <= i < model.nodes@.len() ==> (#[trigger] model.nodes@[i]).bar <= MAX_FLOW_BAR,
        forall|k: int| 0 <= k < model.links@.len() ==> (#[trigger] model.links@[k]).bar <= MAX_FLOW_BAR,
    ensures
        ({
            let n = model.nodes@.len();
            let m = model.links@.len();
            &&& n > MAX_SANKEY_NODES ==> r == Err::<String, MermansiError>(MermansiError::RenderLimit {
                context: "sankey nodes", requested: n as usize, limit: MAX_SANKEY_NODES })
            &&& n <= MAX_SANKEY_NODES && m > MAX_SANKEY_LINKS ==> r == Err::<String, MermansiError>(
                MermansiError::RenderLimit { context: "sankey links", requested: m as usize, limit: MAX_SANKEY_LINKS })
            &&& n <= MAX_SANKEY_NODES && m <= MAX_SANKEY_LINKS && n == 0 ==> (r matches Ok(s) && s@ == "(empty sankey diagram)\n"@)
            &&& n <= MAX_SANKEY_NODES && m <= MAX_SANKEY_LINKS && n > 0 && duplicate_ids(model.nodes@)
                ==> (r matches Err(e) && sankey_layout_error(e))
            &&& n <= MAX_SANKEY_NODES && m <= MAX_SANKEY_LINKS && n > 0 && !duplicate_ids(model.nodes@)
                && dangling_link(model.nodes@, model.links@) ==> (r matches Err(e) && sankey_layout_error(e))
            &&& r is Ok ==> n <= MAX_SANKEY_NODES && m <= MAX_SANKEY_LINKS
                && (n == 0 || (!duplicate_ids(model.nodes@) && !dangling_link(model.nodes@, model.links@)))
        }),
{
    if model.nodes.len() > MAX_SANKEY_NODES {
        return Err(MermansiError::RenderLimit { context: "sankey nodes", requested: model.nodes.len(), limit: MAX_SANKEY_NODES });
    }
    if model.links.len() > MAX_SANKEY_LINKS {
        return Err(MermansiError::RenderLimit { context: "sankey links", requested: model.links.len(), limit: MAX_SANKEY_LINKS });
    }
    if model.nodes.len() == 0 {
        return Ok(String::from_str("(empty sankey diagram)\n"));
    }
    match first_duplicate(&model.nodes) {
        Some(i) => {
            let id = sanitize_label_text(model.nodes[i].id.as_str());
            return Err(layout_error("sankey", text_of(&["duplicate node id cannot be routed unambiguously: ", id.as_str()])));
        },
        None => {},
    }
    match first_dangling(&model.nodes, &model.links) {
        Some(k) => {
            let source = sanitize_label_text(model.links[k].source.as_str());
            let target = sanitize_label_text(model.links[k].target.as_str());
            return Err(layout_error("sankey", text_of(&[
                "link endpoint is not present in the node inventory: ", source.as_str(), " -> ", target.as_str(),
            ])));
        },
        None => {},
    }
    let nodes = flow_nodes(model, opts.charset);
    let edges = flow_edges(model, opts.charset);
    let ranks = directed_ranks(&nodes, &edges);
    match render_layout(nodes, &edges, ranks, BoxDirection::Lr, opts) {
        Err(e) => {
            if is_column_limit(&e) {
                // Ranks do not depend on the axis: reflowing changes only ports and orientation.
                let nodes = flow_nodes(model, opts.charset);
                let ranks = directed_ranks(&nodes, &edges);
                render_layout(nodes, &edges, ranks, BoxDirection::Tb, opts)
            } else {
                Err(e)
            }
        },
        Ok(s) => Ok(s),
    }
}

} // verus!
