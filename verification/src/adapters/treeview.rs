//! Tree view terminal geometry: every entry a box, linked from its parent, in layers left to
//! right.

use vstd::prelude::*;
use crate::adapters::box_geometry::{
    self, BoxDiagram, BoxDirection, BoxEdge, BoxLayout, BoxNode, EdgeLegend, EdgeMarker, EdgeStyle, directed_ranks,
};
use crate::adapters::chart_primitives::is_white_line;
use crate::adapters::json::decimal_text;
use crate::error::{MermansiError, Result};
use crate::options::MermansiOptions;
use crate::text::chars_of;

verus! {

#[verifier::external_type_specification]
#[verifier::external_body]
pub struct ExTreeViewDiagramRenderModel(merman_core::diagrams::tree_view::TreeViewDiagramRenderModel);

#[verifier::external_type_specification]
#[verifier::external_body]
pub struct ExTreeViewNodeRenderModel(merman_core::diagrams::tree_view::TreeViewNodeRenderModel);

/// Deepest entry drawn.
pub const MAX_TREE_DEPTH: usize = 64;
/// Most entries drawn.
pub const MAX_TREE_NODES: usize = 4_096;

/// An entry of the tree, with its children.
pub struct TreeEntry {
    pub name: String,
    pub children: Vec<TreeEntry>,
}

/// A tree view: its title and the entries under its (undrawn) root.
pub struct TreeView {
    pub title: Option<String>,
    pub entries: Vec<TreeEntry>,
}

/// The tree view model of a parsed diagram, if it is one.
#[verifier::external_body]
pub(crate) fn parsed_treeview(parsed: &merman_core::ParsedDiagramRender)
    -> (r: Option<&merman_core::diagrams::tree_view::TreeViewDiagramRenderModel>)
{
    match parsed.model() {
        merman_core::diagram::RenderSemanticModel::TreeView(model) => Some(model),
        _ => None,
    }
}

/// The title and the root entry of a tree view model.
#[verifier::external_body]
fn model_parts(model: &merman_core::diagrams::tree_view::TreeViewDiagramRenderModel)
    -> (r: (Option<String>, &merman_core::diagrams::tree_view::TreeViewNodeRenderModel))
{
    (model.title.clone(), &model.root)
}

/// The `name` field of a parsed entry.
#[verifier::external_body]
fn entry_name(node: &merman_core::diagrams::tree_view::TreeViewNodeRenderModel) -> (r: String)
{
    node.name.clone()
}

/// The `children` field of a parsed entry.
#[verifier::external_body]
fn entry_children(node: &merman_core::diagrams::tree_view::TreeViewNodeRenderModel)
    -> (r: &Vec<merman_core::diagrams::tree_view::TreeViewNodeRenderModel>)
{
    &node.children
}

/// Copies a parsed entry and its children, down to one level below the deepest one drawn
/// (a tree that deep is refused when it is drawn).
fn entry_of(node: &merman_core::diagrams::tree_view::TreeViewNodeRenderModel, depth: usize) -> (r: TreeEntry)
    requires
        depth <= MAX_TREE_DEPTH + 1,
    decreases MAX_TREE_DEPTH + 1 - depth,
{
    let mut children: Vec<TreeEntry> = Vec::new();
    if depth <= MAX_TREE_DEPTH {
        let parsed = entry_children(node);
        let mut i: usize = 0;
        while i < parsed.len()
            invariant
                depth <= MAX_TREE_DEPTH,
                i <= parsed@.len(),
            decreases parsed@.len() - i,
        {
            children.push(entry_of(&parsed[i], depth + 1));
            i = i + 1;
        }
    }
    TreeEntry { name: entry_name(node), children }
}

/// The library's copy of a parsed tree view.
pub(crate) fn diagram_of(model: &merman_core::diagrams::tree_view::TreeViewDiagramRenderModel) -> (r: TreeView)
{
    let (title, root) = model_parts(model);
    let parsed = entry_children(root);
    let mut entries: Vec<TreeEntry> = Vec::new();
    let mut i: usize = 0;
    while i < parsed.len()
        invariant
            i <= parsed@.len(),
        decreases parsed@.len() - i,
    {
        entries.push(entry_of(&parsed[i], 0));
        i = i + 1;
    }
    TreeView { title, entries }
}

/// The outcome of adding the boxes of `entry` at `depth`, `count` boxes being there: the new
/// box count, or the limit that was passed first.
pub open spec fn tree_collect(entry: TreeEntry, depth: int, count: int) -> Result<int>
    decreases MAX_TREE_DEPTH + 2 - depth, 0int,
{
    if depth > MAX_TREE_DEPTH {
        Err(MermansiError::RenderLimit { context: "treeView depth", requested: depth as usize, limit: MAX_TREE_DEPTH })
    } else if count + 1 > MAX_TREE_NODES {
        Err(MermansiError::RenderLimit { context: "treeView nodes", requested: (count + 1) as usize, limit: MAX_TREE_NODES })
    } else {
        entries_collect(entry.children@, entry.children@.len() as int, depth + 1, count + 1)
    }
}

/// The outcome of adding the boxes of the first `n` of `entries` at `depth` in turn.
pub open spec fn entries_collect(entries: Seq<TreeEntry>, n: int, depth: int, count: int) -> Result<int>
    decreases MAX_TREE_DEPTH + 2 - depth, n + 1,
{
    if n <= 0 || depth > MAX_TREE_DEPTH + 1 {
        Ok(count)
    } else {
        match entries_collect(entries, n - 1, depth, count) {
            Err(e) => Err(e),
            Ok(c) => tree_collect(entries[n - 1], depth, c),
        }
    }
}

proof fn lemma_entries_collect_err(entries: Seq<TreeEntry>, k: int, n: int, depth: int, count: int)
    requires
        0 <= k <= n,
        entries_collect(entries, k, depth, count) is Err,
    ensures
        entries_collect(entries, n, depth, count) == entries_collect(entries, k, depth, count),
    decreases n - k,
{
    if k < n {
        lemma_entries_collect_err(entries, k, n - 1, depth, count);
    }
}

/// Adds a box for `entry` (and an arrow from its parent) and then for its children, depth
/// first. An entry deeper than [`MAX_TREE_DEPTH`] or more than [`MAX_TREE_NODES`] entries are
/// refused.
fn collect_tree(entry: &TreeEntry, parent_id: Option<String>, depth: usize, nodes: &mut Vec<BoxNode>,
    edges: &mut Vec<BoxEdge>) -> (r: Result<()>)
    requires
        old(nodes)@.len() <= MAX_TREE_NODES,
    ensures
        r is Ok ==> final(nodes)@.len() <= MAX_TREE_NODES,
        r matches Err(e) ==> e matches MermansiError::RenderLimit { context, .. }
            && (context == "treeView depth" || context == "treeView nodes"),
        match tree_collect(*entry, depth as int, old(nodes)@.len() as int) {
            Ok(c) => r is Ok && final(nodes)@.len() == c,
            Err(e) => r == Err::<(), MermansiError>(e),
        },
    decreases MAX_TREE_DEPTH + 1 - depth,
{
    if depth > MAX_TREE_DEPTH {
        return Err(MermansiError::RenderLimit { context: "treeView depth", requested: depth, limit: MAX_TREE_DEPTH });
    }
    let requested = nodes.len() + 1;
    if requested > MAX_TREE_NODES {
        return Err(MermansiError::RenderLimit { context: "treeView nodes", requested, limit: MAX_TREE_NODES });
    }
    let mut id = String::from_str("tree-");
    let digits = decimal_text(nodes.len());
    id.append(digits.as_str());
    let order = nodes.len();
    let chars = chars_of(entry.name.as_str());
    let label = if is_white_line(&chars) { String::from_str("(unnamed)") } else { entry.name.clone() };
    let mut lines: Vec<String> = Vec::new();
    lines.push(label);
    nodes.push(BoxNode { id: id.clone(), lines, dividers: Vec::new(), parent: None, span: 1, order });
    match parent_id {
        Some(parent) => {
            edges.push(BoxEdge {
                from: parent,
                to: id.clone(),
                label: String::new(),
                marker_start: EdgeMarker::Absent,
                marker_end: EdgeMarker::Arrow,
                style: EdgeStyle::Solid,
                from_side: None,
                to_side: None,
            });
        },
        None => {},
    }
    let ghost start = nodes@.len() as int;
    let mut i: usize = 0;
    while i < entry.children.len()
        invariant
            depth <= MAX_TREE_DEPTH,
            i <= entry.children@.len(),
            nodes@.len() <= MAX_TREE_NODES,
            start == old(nodes)@.len() + 1,
            start <= MAX_TREE_NODES,
            entries_collect(entry.children@, i as int, depth + 1, start) == Ok::<int, MermansiError>(nodes@.len() as int),
        decreases entry.children@.len() - i,
    {
        let ghost before = nodes@.len() as int;
        let result = collect_tree(&entry.children[i], Some(id.clone()), depth + 1, nodes, edges);
        assert(entries_collect(entry.children@, i + 1, depth + 1, start)
            == tree_collect(entry.children@[i as int], depth + 1, before));
        match result {
            Ok(()) => {},
            Err(e) => {
                proof {
                    lemma_entries_collect_err(entry.children@, i + 1, entry.children@.len() as int, depth + 1, start);
                }
                return Err(e);
            },
        }
        i = i + 1;
    }
    Ok(())
}

/// Draws a tree view left to right, titled with its title (or `Tree view`).
pub fn render_treeview(model: &TreeView, opts: &MermansiOptions) -> (r: Result<String>)
    ensures
        entries_collect(model.entries@, model.entries@.len() as int, 0, 0) matches Err(e)
            ==> r == Err::<String, MermansiError>(e),
{
    let direction = BoxDirection::Lr;
    let (from_side, to_side) = direction.edge_sides();
    let mut nodes: Vec<BoxNode> = Vec::new();
    let mut edges: Vec<BoxEdge> = Vec::new();
    let mut i: usize = 0;
    while i < model.entries.len()
        invariant
            i <= model.entries@.len(),
            nodes@.len() <= MAX_TREE_NODES,
            entries_collect(model.entries@, i as int, 0, 0) == Ok::<int, MermansiError>(nodes@.len() as int),
        decreases model.entries@.len() - i,
    {
        let ghost before = nodes@.len() as int;
        let result = collect_tree(&model.entries[i], None, 0, &mut nodes, &mut edges);
        assert(entries_collect(model.entries@, i + 1, 0, 0) == tree_collect(model.entries@[i as int], 0, before));
        match result {
            Ok(()) => {},
            Err(e) => {
                proof {
                    lemma_entries_collect_err(model.entries@, i + 1, model.entries@.len() as int, 0, 0);
                }
                return Err(e);
            },
        }
        i = i + 1;
    }
    let mut sided: Vec<BoxEdge> = Vec::new();
    let total = edges.len();
    let mut k: usize = 0;
    while k < total
        invariant
            k <= total,
            k + edges@.len() == total,
        decreases total - k,
    {
        let mut edge = edges.remove(0);
        edge.from_side = Some(from_side);
        edge.to_side = Some(to_side);
        sided.push(edge);
        k = k + 1;
    }
    let ranks = directed_ranks(&nodes, &sided);
    let title = match &model.title {
        Some(t) => t.clone(),
        None => String::from_str("Tree view"),
    };
    let diagram = BoxDiagram {
        family: "treeView",
        title: Some(title),
        nodes,
        groups: Vec::new(),
        spacers: Vec::new(),
        edges: sided,
        columns: None,
        layout: BoxLayout::Layered { direction, ranks },
        edge_legend: EdgeLegend::Hidden,
    };
    box_geometry::render(&diagram, opts)
}

} // verus!
