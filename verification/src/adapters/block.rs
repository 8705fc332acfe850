//! Block diagram terminal geometry.
//!
//! Composite blocks are frames with their column count, other blocks are boxes with their
//! shape, spaces keep their columns free; edges are drawn between blocks.

use vstd::prelude::*;
use crate::adapters::box_geometry::{
    self, BoxDiagram, BoxEdge, BoxGroup, BoxLayout, BoxNode, BoxSpacer, EdgeLegend, EdgeMarker, EdgeStyle,
    collapse_words, collapsed, opt_eq, str_eq,
};
use crate::adapters::architecture::separator_text;
use crate::adapters::c4::ascii_lower;
use crate::adapters::c4::positive;
use crate::adapters::detail_separator;
use crate::adapters::json::decimal_text;
use crate::error::{MermansiError, Result};
use crate::options::{Charset, MermansiOptions};
use crate::text::chars_of;

verus! {

#[verifier::external_type_specification]
#[verifier::external_body]
pub struct ExBlockDiagramRenderModel(merman_core::diagrams::block::BlockDiagramRenderModel);

#[verifier::external_type_specification]
#[verifier::external_body]
pub struct ExBlockNodeRenderModel(merman_core::diagrams::block::BlockNodeRenderModel);

#[verifier::external_type_specification]
#[verifier::external_body]
pub struct ExBlockEdgeRenderModel(merman_core::diagrams::block::BlockEdgeRenderModel);

/// Deepest block nesting drawn.
pub const MAX_BLOCK_DEPTH: usize = 64;

/// A block, with the blocks nested in it.
pub struct Block {
    pub id: String,
    pub label: String,
    pub block_type: String,
    pub children: Vec<Block>,
    pub columns: Option<i64>,
    pub width_in_columns: Option<i64>,
}

/// An edge between two blocks, with the arrow type at each end.
pub struct BlockEdge {
    pub start: String,
    pub end: String,
    pub label: String,
    pub arrow_type_start: Option<String>,
    pub arrow_type_end: Option<String>,
}

/// A block diagram: the root block (whose children are drawn) and the edges.
pub struct BlockDiagram {
    pub root: Option<Block>,
    pub edges: Vec<BlockEdge>,
}

/// The block model of a parsed diagram, if it is one.
#[verifier::external_body]
pub(crate) fn parsed_block(parsed: &merman_core::ParsedDiagramRender) -> (r: Option<&merman_core::diagrams::block::BlockDiagramRenderModel>)
{
    match parsed.model() {
        merman_core::diagram::RenderSemanticModel::Block(model) => Some(model),
        _ => None,
    }
}

/// The `blocks_flat` field of a block model.
#[verifier::external_body]
fn model_blocks(model: &merman_core::diagrams::block::BlockDiagramRenderModel) -> (r: &Vec<merman_core::diagrams::block::BlockNodeRenderModel>)
{
    &model.blocks_flat
}

/// The `edges` field of a block model.
#[verifier::external_body]
fn model_edges(model: &merman_core::diagrams::block::BlockDiagramRenderModel) -> (r: &Vec<merman_core::diagrams::block::BlockEdgeRenderModel>)
{
    &model.edges
}

/// The fields of a parsed block other than its children: id, label, type, columns and width.
#[verifier::external_body]
fn block_fields(block: &merman_core::diagrams::block::BlockNodeRenderModel) -> (r: (String, String, String, Option<i64>, Option<i64>))
{
    (block.id.clone(), block.label.clone(), block.block_type.clone(), block.columns, block.width_in_columns)
}

/// The `children` field of a parsed block.
#[verifier::external_body]
fn block_children(block: &merman_core::diagrams::block::BlockNodeRenderModel) -> (r: &Vec<merman_core::diagrams::block::BlockNodeRenderModel>)
{
    &block.children
}

/// A parsed edge, field for field.
#[verifier::external_body]
fn edge_of(edge: &merman_core::diagrams::block::BlockEdgeRenderModel) -> (r: BlockEdge)
{
    BlockEdge {
        start: edge.start.clone(),
        end: edge.end.clone(),
        label: edge.label.clone(),
        arrow_type_start: edge.arrow_type_start.clone(),
        arrow_type_end: edge.arrow_type_end.clone(),
    }
}

/// Copies a parsed block and the blocks nested in it, down to one level below the deepest one
/// drawn (deeper nesting is refused when it is drawn).
fn block_of(block: &merman_core::diagrams::block::BlockNodeRenderModel, depth: usize) -> (r: Block)
    requires
        depth <= MAX_BLOCK_DEPTH + 1,
    decreases MAX_BLOCK_DEPTH + 1 - depth,
{
    let (id, label, block_type, columns, width_in_columns) = block_fields(block);
    let mut children: Vec<Block> = Vec::new();
    if depth <= MAX_BLOCK_DEPTH {
        let parsed = block_children(block);
        let mut i: usize = 0;
        while i < parsed.len()
            invariant
                depth <= MAX_BLOCK_DEPTH,
                i <= parsed@.len(),
            decreases parsed@.len() - i,
        {
            children.push(block_of(&parsed[i], depth + 1));
            i = i + 1;
        }
    }
    Block { id, label, block_type, children, columns, width_in_columns }
}

/// The library's copy of a parsed block model: the block with id `root` (else the first
/// block) and the edges.
pub(crate) fn diagram_of(model: &merman_core::diagrams::block::BlockDiagramRenderModel) -> (r: BlockDiagram)
{
    let blocks = model_blocks(model);
    let mut root_index: Option<usize> = None;
    let mut i: usize = 0;
    while i < blocks.len()
        invariant
            i <= blocks@.len(),
            root_index matches Some(k) ==> k < blocks@.len(),
        decreases blocks@.len() - i,
    {
        let (id, _, _, _, _) = block_fields(&blocks[i]);
        if str_eq(id.as_str(), "root") {
            root_index = Some(i);
            break;
        }
        i = i + 1;
    }
    if root_index.is_none() && blocks.len() > 0 {
        root_index = Some(0);
    }
    let root = match root_index {
        Some(k) => Some(block_of(&blocks[k], 0)),
        None => None,
    };
    let parsed_edges = model_edges(model);
    let mut edges: Vec<BlockEdge> = Vec::new();
    let mut e: usize = 0;
    while e < parsed_edges.len()
        invariant
            e <= parsed_edges@.len(),
        decreases parsed_edges@.len() - e,
    {
        edges.push(edge_of(&parsed_edges[e]));
        e = e + 1;
    }
    BlockDiagram { root, edges }
}

/// Whether `a` equals `word` (lower-case ASCII) ignoring ASCII case.
fn ascii_is(a: &str, word: &str) -> (r: bool)
    ensures
        r == (a@.len() == word@.len() && forall|i: int| 0 <= i < a@.len() ==> ascii_lower(#[trigger] a@[i]) == word@[i]),
{
    let x = chars_of(a);
    let y = chars_of(word);
    if x.len() != y.len() {
        return false;
    }
    let mut i: usize = 0;
    while i < x.len()
        invariant
            i <= x@.len(),
            x@.len() == y@.len(),
            x@ == a@,
            y@ == word@,
            forall|j: int| 0 <= j < i ==> ascii_lower(#[trigger] a@[j]) == word@[j],
        decreases x@.len() - i,
    {
        let c = x[i];
        let lower = if 'A' <= c && c <= 'Z' { (((c as u32) + 32) as u8) as char } else { c };
        assert(lower == ascii_lower(a@[i as int]));
        if lower != y[i] {
            return false;
        }
        i = i + 1;
    }
    true
}

/// The id, followed by the label where there is one that differs from it.
fn display_identity(id: &str, label: &str, charset: Charset) -> (r: String)
    ensures
        r@ == if collapsed(label@).len() == 0 || collapsed(label@) == id@ { id@ }
            else { id@ + separator_text(charset) + collapsed(label@) },
{
    let label = collapse_words(label);
    if label.as_str().is_empty() || str_eq(label.as_str(), id) {
        String::from_str(id)
    } else {
        let mut out = String::from_str(id);
        out.append(detail_separator(charset));
        out.append(label.as_str());
        out
    }
}

/// The width of a block in columns (1 unless it says more).
fn span_of(block: &Block) -> (r: usize)
    ensures
        r == match block.width_in_columns { Some(w) => if 0 < w <= usize::MAX { w as usize } else { 1 }, None => 1 },
{
    match block.width_in_columns {
        Some(w) => match positive(w) {
            Some(span) => span,
            None => 1,
        },
        None => 1,
    }
}

/// The column count a block asks for, where it is positive.
fn columns_of(block: &Block) -> (r: Option<usize>)
{
    match block.columns {
        Some(c) => positive(c),
        None => None,
    }
}

fn block_node(block: &Block, parent: Option<String>, order: usize, charset: Charset) -> (r: BoxNode)
    ensures
        r.id == block.id,
        r.parent == parent,
        r.order == order,
        r.dividers@.len() == 0,
        r.span == match block.width_in_columns { Some(w) => if 0 < w <= usize::MAX { w as usize } else { 1 }, None => 1 },
        ({
            let t = block.block_type@;
            let identity = if collapsed(block.label@).len() == 0 || collapsed(block.label@) == block.id@ { block.id@ }
                else { block.id@ + separator_text(charset) + collapsed(block.label@) };
            &&& r.lines@.len() == if t.len() == 0 || t == "na"@ || t == "square"@ { 1int } else { 2int }
            &&& r.lines@[0]@ == identity
            &&& r.lines@.len() == 2 ==> r.lines@[1]@ == "["@ + t + "]"@
        }),
{
    let mut lines: Vec<String> = Vec::new();
    lines.push(display_identity(block.id.as_str(), block.label.as_str(), charset));
    let t = block.block_type.as_str();
    if !(t.is_empty() || str_eq(t, "na") || str_eq(t, "square")) {
        let mut line = String::from_str("[");
        line.append(t);
        line.append("]");
        lines.push(line);
    }
    BoxNode { id: block.id.clone(), lines, dividers: Vec::new(), parent, span: span_of(block), order }
}

/// Whether `a` equals `word` (lower-case ASCII) ignoring ASCII case.
pub open spec fn ascii_matches(a: Seq<char>, word: Seq<char>) -> bool {
    a.len() == word.len() && forall|i: int| 0 <= i < a.len() ==> ascii_lower(#[trigger] a[i]) == word[i]
}

/// Whether a block is a space.
pub open spec fn is_space_block(block: Block) -> bool {
    ascii_matches(block.block_type@, "space"@)
}

/// Whether a block is a composite (drawn as a frame around its children).
pub open spec fn is_composite_block(block: Block) -> bool {
    !is_space_block(block) && ascii_matches(block.block_type@, "composite"@)
}

/// Whether some of the first `n` of `blocks` at `depth`, or a block nested in one of their
/// composites, lies at [`MAX_BLOCK_DEPTH`] or deeper.
pub open spec fn too_deep(blocks: Seq<Block>, n: int, depth: int) -> bool
    decreases MAX_BLOCK_DEPTH + 1 - depth, n,
{
    if n <= 0 || depth > MAX_BLOCK_DEPTH {
        n > 0
    } else {
        depth >= MAX_BLOCK_DEPTH || too_deep(blocks, n - 1, depth)
            || (is_composite_block(blocks[n - 1])
                && too_deep(blocks[n - 1].children@, blocks[n - 1].children@.len() as int, depth + 1))
    }
}

proof fn lemma_too_deep_grows(blocks: Seq<Block>, k: int, n: int, depth: int)
    requires
        0 <= k <= n,
        too_deep(blocks, k, depth),
    ensures
        too_deep(blocks, n, depth),
    decreases n - k,
{
    if k < n {
        lemma_too_deep_grows(blocks, k, n - 1, depth);
    }
}

/// The items of the blocks in `blocks` and everything nested in them, in depth-first order,
/// numbered from `order` on.
fn collect_blocks(blocks: &Vec<Block>, parent: Option<String>, depth: usize, order: &mut usize,
    nodes: &mut Vec<BoxNode>, groups: &mut Vec<BoxGroup>, spacers: &mut Vec<BoxSpacer>, charset: Charset) -> (r: Result<()>)
    requires
        depth <= MAX_BLOCK_DEPTH,
    ensures
        r is Err <==> too_deep(blocks@, blocks@.len() as int, depth as int),
        r matches Err(e) ==> e is GeometryLayout,
    decreases MAX_BLOCK_DEPTH + 1 - depth,
{
    let mut i: usize = 0;
    while i < blocks.len()
        invariant
            depth <= MAX_BLOCK_DEPTH,
            i <= blocks@.len(),
            !too_deep(blocks@, i as int, depth as int),
        decreases blocks@.len() - i,
    {
        if depth >= MAX_BLOCK_DEPTH {
            proof { lemma_too_deep_grows(blocks@, i + 1, blocks@.len() as int, depth as int); }
            return Err(MermansiError::GeometryLayout { family: "block", message: String::from_str("nesting exceeds 64 levels") });
        }
        let block = &blocks[i];
        let item_order = *order;
        *order = order.saturating_add(1);
        if ascii_is(block.block_type.as_str(), "space") {
            spacers.push(BoxSpacer { parent: parent.clone(), span: span_of(block), order: item_order });
        } else if ascii_is(block.block_type.as_str(), "composite") {
            let mut lines: Vec<String> = Vec::new();
            lines.push(display_identity(block.id.as_str(), block.label.as_str(), charset));
            let mut details = String::from_str("[group");
            match columns_of(block) {
                Some(columns) => {
                    details.append(detail_separator(charset));
                    let count = decimal_text(columns);
                    details.append(count.as_str());
                    details.append(" columns");
                },
                None => {},
            }
            details.append("]");
            lines.push(details);
            groups.push(BoxGroup {
                id: block.id.clone(),
                lines,
                parent: parent.clone(),
                columns: columns_of(block),
                span: span_of(block),
                order: item_order,
            });
            match collect_blocks(&block.children, Some(block.id.clone()), depth + 1, order, nodes, groups, spacers, charset) {
                Ok(()) => {},
                Err(e) => {
                    proof { lemma_too_deep_grows(blocks@, i + 1, blocks@.len() as int, depth as int); }
                    return Err(e);
                },
            }
        } else {
            nodes.push(block_node(block, parent.clone(), item_order, charset));
        }
        i = i + 1;
    }
    Ok(())
}

fn block_edge(edge: &BlockEdge) -> (r: BoxEdge)
    ensures
        r.from == edge.start,
        r.to == edge.end,
        r.label@ == collapsed(edge.label@),
        r.marker_start == if edge.arrow_type_start matches Some(a) && a@ == "arrow_point"@ { EdgeMarker::Arrow }
            else { EdgeMarker::Absent },
        r.marker_end == if edge.arrow_type_end matches Some(a) && a@ == "arrow_point"@ { EdgeMarker::Arrow }
            else { EdgeMarker::Absent },
        r.style == EdgeStyle::Solid,
        r.from_side is None,
        r.to_side is None,
{
    BoxEdge {
        from: edge.start.clone(),
        to: edge.end.clone(),
        label: collapse_words(edge.label.as_str()),
        marker_start: if opt_eq(&edge.arrow_type_start, "arrow_point") { EdgeMarker::Arrow } else { EdgeMarker::Absent },
        marker_end: if opt_eq(&edge.arrow_type_end, "arrow_point") { EdgeMarker::Arrow } else { EdgeMarker::Absent },
        style: EdgeStyle::Solid,
        from_side: None,
        to_side: None,
    }
}

/// Draws a block diagram: the blocks nested in the root, in the root's column count, and the
/// edges between them with a legend. Nesting deeper than [`MAX_BLOCK_DEPTH`] is refused.
pub fn render_block(model: &BlockDiagram, opts: &MermansiOptions) -> (r: Result<String>)
    ensures
        (model.root matches Some(root) && too_deep(root.children@, root.children@.len() as int, 0))
            ==> (r matches Err(e) && e is GeometryLayout),
{
    let mut nodes: Vec<BoxNode> = Vec::new();
    let mut groups: Vec<BoxGroup> = Vec::new();
    let mut spacers: Vec<BoxSpacer> = Vec::new();
    let mut order: usize = 0;
    match &model.root {
        Some(root) => {
            match collect_blocks(&root.children, None, 0, &mut order, &mut nodes, &mut groups, &mut spacers, opts.charset) {
                Ok(()) => {},
                Err(e) => return Err(e),
            }
        },
        None => {},
    }
    let mut edges: Vec<BoxEdge> = Vec::new();
    let mut e: usize = 0;
    while e < model.edges.len()
        invariant
            e <= model.edges@.len(),
        decreases model.edges@.len() - e,
    {
        edges.push(block_edge(&model.edges[e]));
        e = e + 1;
    }
    let columns = match &model.root {
        Some(root) => columns_of(root),
        None => None,
    };
    let diagram = BoxDiagram {
        family: "block",
        title: Some(String::from_str("Block diagram")),
        nodes,
        groups,
        spacers,
        edges,
        columns,
        layout: BoxLayout::Packed,
        edge_legend: EdgeLegend::All,
    };
    box_geometry::render(&diagram, opts)
}

} // verus!
