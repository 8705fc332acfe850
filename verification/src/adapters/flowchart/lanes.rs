//! Edge-lane geometry for flowcharts with self-loops or parallel edges: nodes stand in a
//! column (or a row), every edge takes a lane of its own beside them, and every self-loop a
//! loop on the far side.

use vstd::prelude::*;
use crate::adapters::box_geometry::str_eq;
use crate::adapters::flowchart::{Flowchart, FlowchartEdge, FlowchartNode, has_word, node_label, occurs};
use crate::ansi::sanitize_label_text;
use crate::canvas::{Canvas, CanvasView, boxed, draw_box, draw_horizontal_line, draw_vertical_line, rendered, str_display_width,
    view_wf};
use crate::error::{MermansiError, Result};
use crate::options::{Charset, MermansiOptions};
use crate::text::chars_of;

verus! {

const NODE_MIN_WIDTH: usize = 7;
const NODE_HEIGHT: usize = 5;
const NODE_GAP: usize = 3;
const EDGE_LANE_GAP: usize = 3;

/// Where an edge attaches: between two nodes, at a slot of each, or a loop on one node.
#[derive(Clone, Copy)]
pub enum EdgePorts {
    External { from_node: usize, to_node: usize, from_slot: usize, to_slot: usize },
    SelfLoop { node: usize, ordinal: usize },
}

/// The ports of every edge, and how many edges attach to each node.
pub struct Topology {
    pub ports: Vec<EdgePorts>,
    pub external_counts: Vec<usize>,
    pub self_counts: Vec<usize>,
    pub external_edges: usize,
    pub self_edges: usize,
}

/// The well-formedness of a topology over `nodes` nodes and `edges` edges.
pub open spec fn topology_wf(t: Topology, nodes: nat, edges: nat) -> bool {
    &&& t.ports@.len() == edges
    &&& t.external_counts@.len() == nodes
    &&& t.self_counts@.len() == nodes
    &&& forall|e: int| 0 <= e < t.ports@.len() ==> match #[trigger] t.ports@[e] {
        EdgePorts::External { from_node, to_node, .. } => from_node < nodes && to_node < nodes,
        EdgePorts::SelfLoop { node, .. } => node < nodes,
    }
}

/// Whether an edge with ends `a` and `b` joins the same two nodes as one with ends `c`, `d`.
fn same_pair(a: &str, b: &str, c: &str, d: &str) -> (r: bool)
    ensures
        r == ((a@ == c@ && b@ == d@) || (a@ == d@ && b@ == c@)),
{
    (str_eq(a, c) && str_eq(b, d)) || (str_eq(a, d) && str_eq(b, c))
}

/// Whether an edge leaves and enters the same node.
pub open spec fn self_loop(e: FlowchartEdge) -> bool {
    e.from@ == e.to@
}

/// Whether two edges join the same two nodes, in either direction.
pub open spec fn parallel(a: FlowchartEdge, b: FlowchartEdge) -> bool {
    (a.from@ == b.from@ && a.to@ == b.to@) || (a.from@ == b.to@ && a.to@ == b.from@)
}

/// Whether some edge is a self-loop or parallels an earlier edge that is not one.
pub open spec fn needs_lanes(edges: Seq<FlowchartEdge>) -> bool {
    exists|e: int| 0 <= e < edges.len() && (self_loop(#[trigger] edges[e])
        || exists|f: int| 0 <= f < e && !self_loop(#[trigger] edges[f]) && parallel(edges[e], edges[f]))
}

/// Whether a flowchart has a self-loop or two edges between the same two nodes.
pub fn requires_lane_geometry(model: &Flowchart) -> (r: bool)
    ensures
        r == needs_lanes(model.edges@),
{
    let mut e: usize = 0;
    while e < model.edges.len()
        invariant
            e <= model.edges@.len(),
            forall|a: int| 0 <= a < e ==> !self_loop(#[trigger] model.edges@[a])
                && forall|f: int| 0 <= f < a ==> !(!self_loop(#[trigger] model.edges@[f]) && parallel(model.edges@[a], model.edges@[f])),
        decreases model.edges@.len() - e,
    {
        let edge = &model.edges[e];
        if str_eq(edge.from.as_str(), edge.to.as_str()) {
            assert(self_loop(model.edges@[e as int]));
            return true;
        }
        let mut f: usize = 0;
        while f < e
            invariant
                f <= e < model.edges@.len(),
                *edge == model.edges@[e as int],
                forall|g: int| 0 <= g < f ==> !(!self_loop(#[trigger] model.edges@[g]) && parallel(model.edges@[e as int], model.edges@[g])),
            decreases e - f,
        {
            let other = &model.edges[f];
            if !str_eq(other.from.as_str(), other.to.as_str())
                && same_pair(edge.from.as_str(), edge.to.as_str(), other.from.as_str(), other.to.as_str()) {
                assert(!self_loop(model.edges@[f as int]) && parallel(model.edges@[e as int], model.edges@[f as int]));
                return true;
            }
            f = f + 1;
        }
        e = e + 1;
    }
    false
}

/// The index of the node with id `id`.
fn node_index(model: &Flowchart, id: &str) -> (r: Option<usize>)
    ensures
        r matches Some(i) ==> i < model.nodes@.len() && model.nodes@[i as int].id@ == id@
            && forall|j: int| 0 <= j < i ==> (#[trigger] model.nodes@[j]).id@ != id@,
        r is None ==> forall|j: int| 0 <= j < model.nodes@.len() ==> (#[trigger] model.nodes@[j]).id@ != id@,
{
    let mut i: usize = 0;
    while i < model.nodes.len()
        invariant
            i <= model.nodes@.len(),
            forall|j: int| 0 <= j < i ==> (#[trigger] model.nodes@[j]).id@ != id@,
        decreases model.nodes@.len() - i,
    {
        if str_eq(model.nodes[i].id.as_str(), id) {
            return Some(i);
        }
        i = i + 1;
    }
    None
}

/// Whether no two nodes share an id.
pub open spec fn ids_distinct(nodes: Seq<FlowchartNode>) -> bool {
    forall|i: int, j: int| 0 <= j < i < nodes.len() ==> (#[trigger] nodes[i]).id@ != (#[trigger] nodes[j]).id@
}

/// Whether some node has the id `id`.
pub open spec fn names_node(nodes: Seq<FlowchartNode>, id: Seq<char>) -> bool {
    exists|i: int| 0 <= i < nodes.len() && (#[trigger] nodes[i]).id@ == id
}

/// Whether both ends of every edge name a node.
pub open spec fn ends_named(model: Flowchart) -> bool {
    forall|e: int| 0 <= e < model.edges@.len() ==> names_node(model.nodes@, (#[trigger] model.edges@[e]).from@)
        && names_node(model.nodes@, model.edges@[e].to@)
}

impl Topology {
    /// Assigns each edge its ports, numbering the slots of each node in edge order; `None` where
    /// two nodes share an id or an edge names a missing node.
    pub fn new(model: &Flowchart) -> (r: Option<Topology>)
        ensures
            r matches Some(t) ==> topology_wf(t, model.nodes@.len(), model.edges@.len()),
            r is Some <==> ids_distinct(model.nodes@) && ends_named(*model),
    {
        let n = model.nodes.len();
        let mut i: usize = 0;
        while i < n
            invariant
                i <= n,
                n == model.nodes@.len(),
                forall|a: int, b: int| 0 <= b < a < i ==> (#[trigger] model.nodes@[a]).id@ != (#[trigger] model.nodes@[b]).id@,
            decreases n - i,
        {
            let mut j: usize = 0;
            while j < i
                invariant
                    j <= i < n,
                    n == model.nodes@.len(),
                    forall|b: int| 0 <= b < j ==> model.nodes@[i as int].id@ != (#[trigger] model.nodes@[b]).id@,
                decreases i - j,
            {
                if str_eq(model.nodes[i].id.as_str(), model.nodes[j].id.as_str()) {
                    assert(!ids_distinct(model.nodes@)) by {
                        assert(model.nodes@[i as int].id@ == model.nodes@[j as int].id@);
                    }
                    return None;
                }
                j = j + 1;
            }
            i = i + 1;
        }
        assert(ids_distinct(model.nodes@));
        let mut external_counts: Vec<usize> = Vec::new();
        let mut self_counts: Vec<usize> = Vec::new();
        let mut k: usize = 0;
        while k < n
            invariant
                k <= n,
                external_counts@.len() == k,
                self_counts@.len() == k,
                forall|q: int| 0 <= q < k ==> (#[trigger] external_counts@[q]) == 0,
                forall|q: int| 0 <= q < k ==> (#[trigger] self_counts@[q]) == 0,
            decreases n - k,
        {
            external_counts.push(0);
            self_counts.push(0);
            k = k + 1;
        }
        let mut ports: Vec<EdgePorts> = Vec::new();
        let mut external_edges: usize = 0;
        let mut self_edges: usize = 0;
        let mut e: usize = 0;
        while e < model.edges.len()
            invariant
                e <= model.edges@.len(),
                n == model.nodes@.len(),
                ids_distinct(model.nodes@),
                forall|f: int| 0 <= f < e ==> names_node(model.nodes@, (#[trigger] model.edges@[f]).from@)
                    && names_node(model.nodes@, model.edges@[f].to@),
                forall|q: int| 0 <= q < n ==> (#[trigger] external_counts@[q]) <= e,
                forall|q: int| 0 <= q < n ==> (#[trigger] self_counts@[q]) <= e,
                external_edges <= e,
                self_edges <= e,
                ports@.len() == e,
                external_counts@.len() == n,
                self_counts@.len() == n,
                forall|q: int| 0 <= q < ports@.len() ==> match #[trigger] ports@[q] {
                    EdgePorts::External { from_node, to_node, .. } => from_node < n && to_node < n,
                    EdgePorts::SelfLoop { node, .. } => node < n,
                },
            decreases model.edges@.len() - e,
        {
            let edge = &model.edges[e];
            let from_node = match node_index(model, edge.from.as_str()) {
                Some(i) => i,
                None => {
                    assert(!ends_named(*model)) by {
                        assert(!names_node(model.nodes@, model.edges@[e as int].from@));
                    }
                    return None;
                },
            };
            let to_node = match node_index(model, edge.to.as_str()) {
                Some(i) => i,
                None => {
                    assert(!ends_named(*model)) by {
                        assert(!names_node(model.nodes@, model.edges@[e as int].to@));
                    }
                    return None;
                },
            };
            assert(names_node(model.nodes@, model.edges@[e as int].from@));
            assert(names_node(model.nodes@, model.edges@[e as int].to@));
            if from_node == to_node {
                let ordinal = self_counts[from_node];
                let next = match ordinal.checked_add(1) {
                    Some(v) => v,
                    None => return None,
                };
                self_counts.set(from_node, next);
                self_edges = match self_edges.checked_add(1) {
                    Some(v) => v,
                    None => return None,
                };
                ports.push(EdgePorts::SelfLoop { node: from_node, ordinal });
            } else {
                let from_slot = external_counts[from_node];
                let next_from = match from_slot.checked_add(1) {
                    Some(v) => v,
                    None => return None,
                };
                external_counts.set(from_node, next_from);
                let to_slot = external_counts[to_node];
                let next_to = match to_slot.checked_add(1) {
                    Some(v) => v,
                    None => return None,
                };
                external_counts.set(to_node, next_to);
                external_edges = match external_edges.checked_add(1) {
                    Some(v) => v,
                    None => return None,
                };
                ports.push(EdgePorts::External { from_node, to_node, from_slot, to_slot });
            }
            e = e + 1;
        }
        Some(Topology { ports, external_counts, self_counts, external_edges, self_edges })
    }
}

/// The shown labels of the nodes and of the edges.
pub struct Labels {
    pub nodes: Vec<String>,
    pub edges: Vec<String>,
}

impl Labels {
    pub fn new(model: &Flowchart) -> (r: Labels)
        ensures
            r.nodes@.len() == model.nodes@.len(),
            r.edges@.len() == model.edges@.len(),
    {
        let mut nodes: Vec<String> = Vec::new();
        let mut i: usize = 0;
        while i < model.nodes.len()
            invariant
                i <= model.nodes@.len(),
                nodes@.len() == i,
            decreases model.nodes@.len() - i,
        {
            nodes.push(node_label(&model.nodes[i].label, model.nodes[i].id.as_str()));
            i = i + 1;
        }
        let mut edges: Vec<String> = Vec::new();
        let mut j: usize = 0;
        while j < model.edges.len()
            invariant
                j <= model.edges@.len(),
                edges@.len() == j,
            decreases model.edges@.len() - j,
        {
            let label = match &model.edges[j].label {
                Some(l) => sanitize_label_text(l.as_str()),
                None => String::new(),
            };
            edges.push(label);
            j = j + 1;
        }
        Labels { nodes, edges }
    }
}

/// A node's box.
#[derive(Clone, Copy)]
pub struct NodeRect {
    pub x: usize,
    pub y: usize,
    pub width: usize,
    pub height: usize,
}

impl NodeRect {
    fn right(self) -> (r: usize)
    {
        self.x.saturating_add(self.width).saturating_sub(1)
    }

    fn bottom(self) -> (r: usize)
    {
        self.y.saturating_add(self.height).saturating_sub(1)
    }
}

/// A marker character at a cell.
#[derive(Clone, Copy)]
struct MarkerPlacement {
    x: usize,
    y: usize,
    value: char,
}

/// Where an edge's label goes.
#[derive(Clone, Copy)]
struct LabelPlacement {
    edge: usize,
    x: usize,
    y: usize,
}

/// The node indices in order, or in reverse.
fn ordered_indices(count: usize, reverse: bool) -> (r: Vec<usize>)
    ensures
        r@.len() == count,
        forall|i: int| 0 <= i < r@.len() ==> #[trigger] r@[i] < count,
{
    let mut out: Vec<usize> = Vec::new();
    let mut i: usize = 0;
    while i < count
        invariant
            i <= count,
            out@.len() == i,
            forall|k: int| 0 <= k < out@.len() ==> #[trigger] out@[k] < count,
        decreases count - i,
    {
        if reverse {
            out.push(count - 1 - i);
        } else {
            out.push(i);
        }
        i = i + 1;
    }
    out
}

/// A canvas of the given size, refused beyond the options' width or height.
fn bounded_canvas(width: usize, height: usize, opts: &MermansiOptions) -> (r: Result<Canvas>)
    ensures
        r matches Ok(c) ==> c.wf() && c@.width == width && c@.height == height && width <= opts.max_width
            && height <= opts.max_height,
        width > opts.max_width ==> r == Err::<Canvas, MermansiError>(MermansiError::RenderLimit {
            context: "flowchart preview columns", requested: width, limit: opts.max_width }),
        width <= opts.max_width && height > opts.max_height ==> r == Err::<Canvas, MermansiError>(MermansiError::RenderLimit {
            context: "flowchart preview rows", requested: height, limit: opts.max_height }),
{
    if width > opts.max_width {
        return Err(MermansiError::RenderLimit { context: "flowchart preview columns", requested: width, limit: opts.max_width });
    }
    if height > opts.max_height {
        return Err(MermansiError::RenderLimit { context: "flowchart preview rows", requested: height, limit: opts.max_height });
    }
    Canvas::new(width, height)
}

/// The canvas with the boxes of the first `n` rectangles drawn in turn, or the first error.
pub open spec fn boxes_drawn(v: CanvasView, rects: Seq<NodeRect>, n: int, charset: Charset) -> Result<CanvasView>
    decreases n,
{
    if n <= 0 {
        Ok(v)
    } else {
        match boxes_drawn(v, rects, n - 1, charset) {
            Ok(w) => boxed(w, rects[n - 1].x as int, rects[n - 1].y as int, rects[n - 1].width as int,
                rects[n - 1].height as int, charset),
            Err(e) => Err(e),
        }
    }
}

fn draw_nodes(canvas: &mut Canvas, rects: &Vec<NodeRect>, charset: Charset) -> (r: Result<()>)
    requires
        old(canvas).wf(),
    ensures
        final(canvas).wf(),
        final(canvas)@.width == old(canvas)@.width,
        final(canvas)@.height == old(canvas)@.height,
        match boxes_drawn(old(canvas)@, rects@, rects@.len() as int, charset) {
            Ok(v) => r is Ok && final(canvas)@ == v,
            Err(e) => r == Err::<(), MermansiError>(e),
        },
{
    let mut i: usize = 0;
    while i < rects.len()
        invariant
            canvas.wf(),
            canvas@.width == old(canvas)@.width,
            canvas@.height == old(canvas)@.height,
            i <= rects@.len(),
            boxes_drawn(old(canvas)@, rects@, i as int, charset) == Ok::<CanvasView, MermansiError>(canvas@),
        decreases rects@.len() - i,
    {
        let rect = rects[i];
        match draw_box(canvas, rect.x, rect.y, rect.width, rect.height, charset) {
            Ok(()) => {},
            Err(e) => {
                proof { lemma_boxes_drawn_err(old(canvas)@, rects@, i + 1, rects@.len() as int, charset); }
                return Err(e);
            },
        }
        i = i + 1;
    }
    Ok(())
}

proof fn lemma_boxes_drawn_err(v: CanvasView, rects: Seq<NodeRect>, k: int, n: int, charset: Charset)
    requires
        0 <= k <= n,
        boxes_drawn(v, rects, k, charset) is Err,
    ensures
        boxes_drawn(v, rects, n, charset) == boxes_drawn(v, rects, k, charset),
    decreases n - k,
{
    if k < n {
        lemma_boxes_drawn_err(v, rects, k, n - 1, charset);
    }
}

/// Whether `u` is `t` without its leading and trailing line feeds.
pub open spec fn line_feeds_trimmed(t: Seq<char>, u: Seq<char>) -> bool {
    exists|a: int, b: int| 0 <= a <= b <= t.len() && u == t.subrange(a, b)
        && (forall|i: int| 0 <= i < a ==> t[i] == '\n')
        && (forall|i: int| b <= i < t.len() ==> t[i] == '\n')
        && (a < b ==> t[a] != '\n' && t[b - 1] != '\n')
}

/// The text of a lane drawing whose canvas rendered as `t`: the rendering without its leading
/// and trailing line feeds, ended by one line feed, or nothing where that is empty.
pub open spec fn lane_output(t: Seq<char>, s: Seq<char>) -> bool {
    exists|u: Seq<char>| #[trigger] line_feeds_trimmed(t, u) && s == (if u.len() == 0 { seq![] } else { u + "\n"@ })
}

/// Whether `s` is the text of a lane drawing on a canvas within the width and height that
/// the options allow.
pub open spec fn lanes_within(s: Seq<char>, opts: MermansiOptions) -> bool {
    exists|v: CanvasView| #[trigger] view_wf(v) && v.width <= opts.max_width && v.height <= opts.max_height
        && lane_output(rendered(v), s)
}

/// `text` without leading and trailing line feeds.
fn trim_line_feeds(text: &str) -> (r: String)
    ensures
        line_feeds_trimmed(text@, r@),
{
    let t = chars_of(text);
    let mut a: usize = 0;
    while a < t.len() && t[a] == '\n'
        invariant
            a <= t@.len(),
            t@ == text@,
            forall|i: int| 0 <= i < a ==> text@[i] == '\n',
        decreases t@.len() - a,
    {
        a = a + 1;
    }
    let mut b: usize = t.len();
    while b > a && t[b - 1] == '\n'
        invariant
            a <= b <= t@.len(),
            t@ == text@,
            forall|i: int| b <= i < text@.len() ==> text@[i] == '\n',
        decreases b,
    {
        b = b - 1;
    }
    let mut out = String::new();
    let mut i: usize = a;
    while i < b
        invariant
            a <= i <= b <= t@.len(),
            t@ == text@,
            out@ == text@.subrange(a as int, i as int),
        decreases b - i,
    {
        crate::text::push_char(&mut out, t[i]);
        i = i + 1;
        assert(out@ =~= text@.subrange(a as int, i as int));
    }
    assert(a < b ==> text@[a as int] != '\n' && text@[b - 1] != '\n');
    assert(out@ == text@.subrange(a as int, b as int));
    out
}

/// Writes the markers, the edge labels and the centred node labels, then renders the canvas
/// without its leading and trailing empty lines.
fn finish_canvas(canvas: Canvas, rects: &Vec<NodeRect>, labels: &Labels, markers: &Vec<MarkerPlacement>,
    edge_labels: &Vec<LabelPlacement>) -> (r: Result<String>)
    requires
        canvas.wf(),
        rects@.len() == labels.nodes@.len(),
        forall|k: int| 0 <= k < edge_labels@.len() ==> (#[trigger] edge_labels@[k]).edge < labels.edges@.len(),
    ensures
        r matches Ok(s) ==> exists|v: CanvasView| #[trigger] view_wf(v) && v.width == canvas@.width
            && v.height == canvas@.height && lane_output(rendered(v), s@),
{
    let ghost width = canvas@.width;
    let ghost height = canvas@.height;
    let mut canvas = canvas;
    let mut m: usize = 0;
    while m < markers.len()
        invariant
            canvas.wf(),
            canvas@.width == width,
            canvas@.height == height,
            m <= markers@.len(),
        decreases markers@.len() - m,
    {
        let marker = markers[m];
        match canvas.set_char(marker.x, marker.y, marker.value) {
            Ok(()) => {},
            Err(e) => return Err(e),
        }
        m = m + 1;
    }
    let mut p: usize = 0;
    while p < edge_labels.len()
        invariant
            canvas.wf(),
            canvas@.width == width,
            canvas@.height == height,
            p <= edge_labels@.len(),
            forall|k: int| 0 <= k < edge_labels@.len() ==> (#[trigger] edge_labels@[k]).edge < labels.edges@.len(),
        decreases edge_labels@.len() - p,
    {
        let placement = edge_labels[p];
        let label = labels.edges[placement.edge].as_str();
        if label.len() > 0 {
            match canvas.set_text(placement.x, placement.y, label) {
                Ok(()) => {},
                Err(e) => return Err(e),
            }
        }
        p = p + 1;
    }
    let mut n: usize = 0;
    while n < rects.len()
        invariant
            canvas.wf(),
            canvas@.width == width,
            canvas@.height == height,
            n <= rects@.len(),
            rects@.len() == labels.nodes@.len(),
        decreases rects@.len() - n,
    {
        let rect = rects[n];
        let label = labels.nodes[n].as_str();
        let x = rect.x.saturating_add(rect.width.saturating_sub(str_display_width(label)) / 2);
        let y = rect.y.saturating_add(rect.height / 2);
        match canvas.set_text(x, y, label) {
            Ok(()) => {},
            Err(e) => return Err(e),
        }
        n = n + 1;
    }
    let text = canvas.render();
    let trimmed = trim_line_feeds(text.as_str());
    proof {
        reveal_strlit("\n");
        assert(view_wf(canvas@));
    }
    if trimmed.as_str().is_empty() {
        let empty = String::new();
        proof {
            assert(line_feeds_trimmed(text@, trimmed@));
            assert(trimmed@.len() == 0);
            assert(empty@ =~= seq![]);
            assert(lane_output(rendered(canvas@), empty@));
        }
        Ok(empty)
    } else {
        let mut out = trimmed;
        out.append("\n");
        proof {
            assert(line_feeds_trimmed(text@, trimmed@));
            assert(lane_output(rendered(canvas@), out@));
        }
        Ok(out)
    }
}

/// The marker an edge type puts at an end: none for an open end, `x` for a cross, `o` for a
/// circle, else the directional arrow.
/// The marker an edge type puts at an end.
pub open spec fn marker_of(edge_type: Seq<char>, directional: char) -> Option<char> {
    let kind = if occurs(edge_type, 0, "double_"@) { edge_type.subrange(7, edge_type.len() as int) } else { edge_type };
    if has_word(kind, "open"@) {
        None
    } else if has_word(kind, "cross"@) {
        Some('x')
    } else if has_word(kind, "circle"@) {
        Some('o')
    } else {
        Some(directional)
    }
}

fn marker_value(edge_type: &str, directional: char) -> (r: Option<char>)
    ensures
        r == marker_of(edge_type@, directional),
{
    proof { reveal_strlit("double_"); }
    let kind = match crate::adapters::flowchart::strip_prefix(edge_type, "double_") {
        Some(rest) => rest,
        None => String::from_str(edge_type),
    };
    if crate::adapters::flowchart::contains_text(kind.as_str(), "open") {
        None
    } else if crate::adapters::flowchart::contains_text(kind.as_str(), "cross") {
        Some('x')
    } else if crate::adapters::flowchart::contains_text(kind.as_str(), "circle") {
        Some('o')
    } else {
        Some(directional)
    }
}

/// Adds the markers of an edge: at its end, and at its start for a `double_` type.
/// The cells and characters of `markers`.
spec fn marker_views(markers: Seq<MarkerPlacement>) -> Seq<(usize, usize, char)> {
    markers.map_values(|m: MarkerPlacement| (m.x, m.y, m.value))
}

/// The markers an edge adds, from its type (`arrow_point` where it has none).
spec fn edge_markers(edge: FlowchartEdge, start: MarkerPlacement, end: MarkerPlacement) -> Seq<(usize, usize, char)> {
    let t = match edge.edge_type { Some(t) => t@, None => "arrow_point"@ };
    (if occurs(t, 0, "double_"@) {
        match marker_of(t, start.value) { Some(v) => seq![(start.x, start.y, v)], None => seq![] }
    } else { seq![] })
        + match marker_of(t, end.value) { Some(v) => seq![(end.x, end.y, v)], None => seq![] }
}

fn push_markers(markers: &mut Vec<MarkerPlacement>, edge: &FlowchartEdge, start: MarkerPlacement, end: MarkerPlacement)
    ensures
        marker_views(final(markers)@) == marker_views(old(markers)@) + edge_markers(*edge, start, end),
{
    let edge_type = match &edge.edge_type {
        Some(t) => t.clone(),
        None => String::from_str("arrow_point"),
    };
    if crate::adapters::flowchart::strip_prefix(edge_type.as_str(), "double_").is_some() {
        match marker_value(edge_type.as_str(), start.value) {
            Some(value) => markers.push(MarkerPlacement { x: start.x, y: start.y, value }),
            None => {},
        }
    }
    let ghost middle = marker_views(markers@);
    assert(middle =~= marker_views(old(markers)@) + (if occurs(edge_type@, 0, "double_"@) {
        match marker_of(edge_type@, start.value) { Some(v) => seq![(start.x, start.y, v)], None => seq![] }
    } else { seq![] }));
    match marker_value(edge_type.as_str(), end.value) {
        Some(value) => markers.push(MarkerPlacement { x: end.x, y: end.y, value }),
        None => {},
    }
    assert(marker_views(markers@) =~= marker_views(old(markers)@) + edge_markers(*edge, start, end));
}

fn horizontal_target_marker(charset: Charset) -> (r: char)
{
    match charset {
        Charset::Unicode => '▶',
        Charset::Ascii => '>',
    }
}

fn horizontal_source_marker(charset: Charset) -> (r: char)
{
    match charset {
        Charset::Unicode => '◀',
        Charset::Ascii => '<',
    }
}

fn vertical_target_marker(charset: Charset) -> (r: char)
{
    match charset {
        Charset::Unicode => '▼',
        Charset::Ascii => 'v',
    }
}

fn vertical_source_marker(charset: Charset) -> (r: char)
{
    match charset {
        Charset::Unicode => '▲',
        Charset::Ascii => '^',
    }
}

/// Nodes stacked top to bottom (bottom to top when `reverse`), each edge on a lane to their
/// left with its label beside it, each self-loop on the right.
fn render_vertical(model: &Flowchart, topology: &Topology, labels: &Labels, opts: &MermansiOptions, reverse: bool)
    -> (r: Result<String>)
    requires
        topology_wf(*topology, model.nodes@.len(), model.edges@.len()),
        labels.nodes@.len() == model.nodes@.len(),
        labels.edges@.len() == model.edges@.len(),
    ensures
        r matches Ok(s) ==> lanes_within(s@, *opts),
{
    let node_count = model.nodes.len();
    let edge_count = model.edges.len();
    let mut node_width: usize = NODE_MIN_WIDTH;
    let mut i: usize = 0;
    while i < labels.nodes.len()
        invariant
            i <= labels.nodes@.len(),
        decreases labels.nodes@.len() - i,
    {
        let w = str_display_width(labels.nodes[i].as_str()).saturating_add(4);
        if w > node_width {
            node_width = w;
        }
        i = i + 1;
    }
    let mut lane_x: Vec<usize> = Vec::new();
    let mut label_x: Vec<usize> = Vec::new();
    let mut z: usize = 0;
    while z < edge_count
        invariant
            z <= edge_count,
            lane_x@.len() == z,
            label_x@.len() == z,
        decreases edge_count - z,
    {
        lane_x.push(0);
        label_x.push(0);
        z = z + 1;
    }
    let mut left_cursor: usize = 1;
    let mut e: usize = 0;
    while e < edge_count
        invariant
            e <= edge_count,
            edge_count == model.edges@.len(),
            lane_x@.len() == edge_count,
            label_x@.len() == edge_count,
            topology_wf(*topology, model.nodes@.len(), model.edges@.len()),
            labels.edges@.len() == model.edges@.len(),
        decreases edge_count - e,
    {
        match topology.ports[e] {
            EdgePorts::SelfLoop { .. } => {},
            EdgePorts::External { .. } => {
                label_x.set(e, left_cursor);
                let lane = left_cursor.saturating_add(str_display_width(labels.edges[e].as_str())).saturating_add(1);
                lane_x.set(e, lane);
                left_cursor = lane.saturating_add(EDGE_LANE_GAP);
            },
        }
        e = e + 1;
    }
    let node_x = left_cursor.saturating_add(1);
    let mut rects: Vec<NodeRect> = Vec::new();
    let mut r: usize = 0;
    while r < node_count
        invariant
            r <= node_count,
            rects@.len() == r,
        decreases node_count - r,
    {
        rects.push(NodeRect { x: 0, y: 0, width: 0, height: 0 });
        r = r + 1;
    }
    let mut y: usize = 1;
    let order = ordered_indices(node_count, reverse);
    let mut o: usize = 0;
    while o < order.len()
        invariant
            o <= order@.len(),
            order@.len() == node_count,
            forall|k: int| 0 <= k < order@.len() ==> #[trigger] order@[k] < node_count,
            rects@.len() == node_count,
            node_count == model.nodes@.len(),
            topology_wf(*topology, model.nodes@.len(), model.edges@.len()),
        decreases order@.len() - o,
    {
        let node_index = order[o];
        let self_ports = crate::adapters::box_geometry::sat_mul(topology.self_counts[node_index], 2);
        let mut inner_ports = topology.external_counts[node_index];
        if self_ports > inner_ports {
            inner_ports = self_ports;
        }
        if NODE_HEIGHT - 2 > inner_ports {
            inner_ports = NODE_HEIGHT - 2;
        }
        let height = inner_ports.saturating_add(2);
        rects.set(node_index, NodeRect { x: node_x, y, width: node_width, height });
        y = y.saturating_add(height).saturating_add(NODE_GAP);
        o = o + 1;
    }
    let height = {
        let h = y.saturating_sub(NODE_GAP).saturating_add(1);
        if h > 1 { h } else { 1 }
    };
    let node_right = node_x.saturating_add(node_width).saturating_sub(1);
    let mut self_lane_x: Vec<usize> = Vec::new();
    let mut s: usize = 0;
    while s < edge_count
        invariant
            s <= edge_count,
            self_lane_x@.len() == s,
        decreases edge_count - s,
    {
        self_lane_x.push(0);
        s = s + 1;
    }
    let mut self_ordinal: usize = 0;
    let mut width = node_right.saturating_add(2);
    let mut f: usize = 0;
    while f < edge_count
        invariant
            f <= edge_count,
            edge_count == model.edges@.len(),
            self_lane_x@.len() == edge_count,
            label_x@.len() == edge_count,
            topology_wf(*topology, model.nodes@.len(), model.edges@.len()),
            labels.edges@.len() == model.edges@.len(),
        decreases edge_count - f,
    {
        match topology.ports[f] {
            EdgePorts::External { .. } => {},
            EdgePorts::SelfLoop { .. } => {
                let edge_lane = node_right.saturating_add(3).saturating_add(crate::adapters::box_geometry::sat_mul(self_ordinal, EDGE_LANE_GAP));
                self_lane_x.set(f, edge_lane);
                let lx = edge_lane.saturating_add(2);
                label_x.set(f, lx);
                let reach = lx.saturating_add(str_display_width(labels.edges[f].as_str())).saturating_add(1);
                if reach > width {
                    width = reach;
                }
                self_ordinal = self_ordinal.saturating_add(1);
            },
        }
        f = f + 1;
    }
    let mut canvas = match bounded_canvas(width, height, opts) {
        Ok(canvas) => canvas,
        Err(e) => return Err(e),
    };
    match draw_nodes(&mut canvas, &rects, opts.charset) {
        Ok(()) => {},
        Err(e) => return Err(e),
    }
    let mut markers: Vec<MarkerPlacement> = Vec::new();
    let mut edge_labels: Vec<LabelPlacement> = Vec::new();
    let mut g: usize = 0;
    while g < edge_count
        invariant
            canvas.wf(),
            canvas@.width <= opts.max_width,
            canvas@.height <= opts.max_height,
            g <= edge_count,
            edge_count == model.edges@.len(),
            rects@.len() == node_count,
            node_count == model.nodes@.len(),
            lane_x@.len() == edge_count,
            label_x@.len() == edge_count,
            self_lane_x@.len() == edge_count,
            topology_wf(*topology, model.nodes@.len(), model.edges@.len()),
            forall|k: int| 0 <= k < edge_labels@.len() ==> (#[trigger] edge_labels@[k]).edge < edge_count,
        decreases edge_count - g,
    {
        let edge = &model.edges[g];
        match topology.ports[g] {
            EdgePorts::External { from_node, to_node, from_slot, to_slot } => {
                let from = rects[from_node];
                let to = rects[to_node];
                let from_y = from.y.saturating_add(1).saturating_add(from_slot);
                let to_y = to.y.saturating_add(1).saturating_add(to_slot);
                let edge_lane = lane_x[g];
                match draw_horizontal_line(&mut canvas, from_y, edge_lane, from.x, opts.charset) {
                    Ok(()) => {},
                    Err(e) => return Err(e),
                }
                let (low, high) = if from_y < to_y { (from_y, to_y) } else { (to_y, from_y) };
                match draw_vertical_line(&mut canvas, edge_lane, low, high, opts.charset) {
                    Ok(()) => {},
                    Err(e) => return Err(e),
                }
                match draw_horizontal_line(&mut canvas, to_y, edge_lane, to.x, opts.charset) {
                    Ok(()) => {},
                    Err(e) => return Err(e),
                }
                push_markers(&mut markers, edge,
                    MarkerPlacement { x: from.x.saturating_sub(1), y: from_y, value: horizontal_target_marker(opts.charset) },
                    MarkerPlacement { x: to.x.saturating_sub(1), y: to_y, value: horizontal_target_marker(opts.charset) });
                edge_labels.push(LabelPlacement { edge: g, x: label_x[g], y: from_y / 2 + to_y / 2 + (from_y % 2 + to_y % 2) / 2 });
            },
            EdgePorts::SelfLoop { node, ordinal } => {
                let rect = rects[node];
                let from_y = rect.y.saturating_add(1).saturating_add(crate::adapters::box_geometry::sat_mul(ordinal, 2));
                let to_y = from_y.saturating_add(1);
                let edge_lane = self_lane_x[g];
                match draw_horizontal_line(&mut canvas, from_y, rect.right(), edge_lane, opts.charset) {
                    Ok(()) => {},
                    Err(e) => return Err(e),
                }
                match draw_vertical_line(&mut canvas, edge_lane, from_y, to_y, opts.charset) {
                    Ok(()) => {},
                    Err(e) => return Err(e),
                }
                match draw_horizontal_line(&mut canvas, to_y, rect.right(), edge_lane, opts.charset) {
                    Ok(()) => {},
                    Err(e) => return Err(e),
                }
                push_markers(&mut markers, edge,
                    MarkerPlacement { x: rect.right().saturating_add(1), y: from_y, value: horizontal_source_marker(opts.charset) },
                    MarkerPlacement { x: rect.right().saturating_add(1), y: to_y, value: horizontal_source_marker(opts.charset) });
                edge_labels.push(LabelPlacement { edge: g, x: label_x[g], y: from_y });
            },
        }
        g = g + 1;
    }
    finish_canvas(canvas, &rects, labels, &markers, &edge_labels)
}

/// Nodes in a row left to right (right to left when `reverse`), each edge on a lane above
/// them with its label under the lane, each self-loop below its node.
fn render_horizontal(model: &Flowchart, topology: &Topology, labels: &Labels, opts: &MermansiOptions, reverse: bool)
    -> (r: Result<String>)
    requires
        topology_wf(*topology, model.nodes@.len(), model.edges@.len()),
        labels.nodes@.len() == model.nodes@.len(),
        labels.edges@.len() == model.edges@.len(),
    ensures
        r matches Ok(s) ==> lanes_within(s@, *opts),
{
    let node_count = model.nodes.len();
    let edge_count = model.edges.len();
    let mut node_widths: Vec<usize> = Vec::new();
    let mut n: usize = 0;
    while n < node_count
        invariant
            n <= node_count,
            node_count == model.nodes@.len(),
            edge_count == model.edges@.len(),
            node_widths@.len() == n,
            topology_wf(*topology, model.nodes@.len(), model.edges@.len()),
            labels.nodes@.len() == model.nodes@.len(),
            labels.edges@.len() == model.edges@.len(),
        decreases node_count - n,
    {
        let self_ports = crate::adapters::box_geometry::sat_mul(topology.self_counts[n], 2);
        let mut self_label_width: usize = 0;
        let mut e: usize = 0;
        while e < edge_count
            invariant
                e <= edge_count,
                edge_count == model.edges@.len(),
                topology_wf(*topology, model.nodes@.len(), model.edges@.len()),
                labels.edges@.len() == model.edges@.len(),
            decreases edge_count - e,
        {
            match topology.ports[e] {
                EdgePorts::SelfLoop { node, .. } => {
                    if node == n {
                        let w = str_display_width(labels.edges[e].as_str());
                        if w > self_label_width {
                            self_label_width = w;
                        }
                    }
                },
                EdgePorts::External { .. } => {},
            }
            e = e + 1;
        }
        let mut w = str_display_width(labels.nodes[n].as_str()).saturating_add(4);
        let by_ports = topology.external_counts[n].saturating_add(2);
        if by_ports > w {
            w = by_ports;
        }
        if self_ports.saturating_add(3) > w {
            w = self_ports.saturating_add(3);
        }
        if self_label_width.saturating_add(2) > w {
            w = self_label_width.saturating_add(2);
        }
        if NODE_MIN_WIDTH > w {
            w = NODE_MIN_WIDTH;
        }
        node_widths.push(w);
        n = n + 1;
    }
    let mut max_edge_label: usize = 0;
    let mut l: usize = 0;
    while l < labels.edges.len()
        invariant
            l <= labels.edges@.len(),
        decreases labels.edges@.len() - l,
    {
        let w = str_display_width(labels.edges[l].as_str());
        if w > max_edge_label {
            max_edge_label = w;
        }
        l = l + 1;
    }
    let node_gap = if max_edge_label.saturating_add(4) > NODE_GAP { max_edge_label.saturating_add(4) } else { NODE_GAP };
    let node_y = crate::adapters::box_geometry::sat_mul(topology.external_edges, EDGE_LANE_GAP).saturating_add(2);
    let mut rects: Vec<NodeRect> = Vec::new();
    let mut r: usize = 0;
    while r < node_count
        invariant
            r <= node_count,
            rects@.len() == r,
        decreases node_count - r,
    {
        rects.push(NodeRect { x: 0, y: 0, width: 0, height: 0 });
        r = r + 1;
    }
    let mut x: usize = 1;
    let mut width: usize = 1;
    let order = ordered_indices(node_count, reverse);
    let mut o: usize = 0;
    while o < order.len()
        invariant
            o <= order@.len(),
            order@.len() == node_count,
            forall|k: int| 0 <= k < order@.len() ==> #[trigger] order@[k] < node_count,
            rects@.len() == node_count,
            node_widths@.len() == node_count,
        decreases order@.len() - o,
    {
        let node_index = order[o];
        let rect = NodeRect { x, y: node_y, width: node_widths[node_index], height: NODE_HEIGHT };
        if rect.right().saturating_add(2) > width {
            width = rect.right().saturating_add(2);
        }
        rects.set(node_index, rect);
        x = rect.right().saturating_add(1).saturating_add(node_gap);
        o = o + 1;
    }
    let height = node_y.saturating_add(NODE_HEIGHT).saturating_add(2)
        .saturating_add(crate::adapters::box_geometry::sat_mul(topology.self_edges, EDGE_LANE_GAP));
    let mut canvas = match bounded_canvas(width, height, opts) {
        Ok(canvas) => canvas,
        Err(e) => return Err(e),
    };
    match draw_nodes(&mut canvas, &rects, opts.charset) {
        Ok(()) => {},
        Err(e) => return Err(e),
    }
    let mut markers: Vec<MarkerPlacement> = Vec::new();
    let mut edge_labels: Vec<LabelPlacement> = Vec::new();
    let mut external_ordinal: usize = 0;
    let mut self_ordinal: usize = 0;
    let mut g: usize = 0;
    while g < edge_count
        invariant
            canvas.wf(),
            canvas@.width <= opts.max_width,
            canvas@.height <= opts.max_height,
            g <= edge_count,
            edge_count == model.edges@.len(),
            rects@.len() == node_count,
            node_count == model.nodes@.len(),
            topology_wf(*topology, model.nodes@.len(), model.edges@.len()),
            labels.edges@.len() == model.edges@.len(),
            forall|k: int| 0 <= k < edge_labels@.len() ==> (#[trigger] edge_labels@[k]).edge < edge_count,
        decreases edge_count - g,
    {
        let edge = &model.edges[g];
        match topology.ports[g] {
            EdgePorts::External { from_node, to_node, from_slot, to_slot } => {
                let from = rects[from_node];
                let to = rects[to_node];
                let from_x = from.x.saturating_add(1).saturating_add(from_slot);
                let to_x = to.x.saturating_add(1).saturating_add(to_slot);
                let lane_y = crate::adapters::box_geometry::sat_mul(external_ordinal, EDGE_LANE_GAP).saturating_add(1);
                match draw_vertical_line(&mut canvas, from_x, lane_y, from.y, opts.charset) {
                    Ok(()) => {},
                    Err(e) => return Err(e),
                }
                let (low, high) = if from_x < to_x { (from_x, to_x) } else { (to_x, from_x) };
                match draw_horizontal_line(&mut canvas, lane_y, low, high, opts.charset) {
                    Ok(()) => {},
                    Err(e) => return Err(e),
                }
                match draw_vertical_line(&mut canvas, to_x, lane_y, to.y, opts.charset) {
                    Ok(()) => {},
                    Err(e) => return Err(e),
                }
                push_markers(&mut markers, edge,
                    MarkerPlacement { x: from_x, y: from.y.saturating_sub(1), value: vertical_target_marker(opts.charset) },
                    MarkerPlacement { x: to_x, y: to.y.saturating_sub(1), value: vertical_target_marker(opts.charset) });
                let label_width = str_display_width(labels.edges[g].as_str());
                let route_width = high - low;
                edge_labels.push(LabelPlacement {
                    edge: g,
                    x: low.saturating_add(route_width.saturating_sub(label_width) / 2),
                    y: lane_y.saturating_add(1),
                });
                external_ordinal = external_ordinal.saturating_add(1);
            },
            EdgePorts::SelfLoop { node, ordinal } => {
                let rect = rects[node];
                let from_x = rect.x.saturating_add(1).saturating_add(ordinal);
                let to_x = rect.right().saturating_sub(1).saturating_sub(ordinal);
                let lane_y = rect.bottom().saturating_add(2).saturating_add(crate::adapters::box_geometry::sat_mul(self_ordinal, EDGE_LANE_GAP));
                match draw_vertical_line(&mut canvas, from_x, rect.bottom(), lane_y, opts.charset) {
                    Ok(()) => {},
                    Err(e) => return Err(e),
                }
                match draw_horizontal_line(&mut canvas, lane_y, from_x, to_x, opts.charset) {
                    Ok(()) => {},
                    Err(e) => return Err(e),
                }
                match draw_vertical_line(&mut canvas, to_x, rect.bottom(), lane_y, opts.charset) {
                    Ok(()) => {},
                    Err(e) => return Err(e),
                }
                push_markers(&mut markers, edge,
                    MarkerPlacement { x: from_x, y: rect.bottom().saturating_add(1), value: vertical_source_marker(opts.charset) },
                    MarkerPlacement { x: to_x, y: rect.bottom().saturating_add(1), value: vertical_source_marker(opts.charset) });
                let label_width = str_display_width(labels.edges[g].as_str());
                edge_labels.push(LabelPlacement {
                    edge: g,
                    x: rect.x.saturating_add(rect.width.saturating_sub(label_width) / 2),
                    y: lane_y.saturating_add(1),
                });
                self_ordinal = self_ordinal.saturating_add(1);
            },
        }
        g = g + 1;
    }
    finish_canvas(canvas, &rects, labels, &markers, &edge_labels)
}

/// Draws a flowchart with self-loops or parallel edges on edge lanes, along its direction
/// (top-down by default); `None` where the nodes or edges do not form a topology (an id used
/// twice, an edge to a missing node) or the direction is not one of `TB`, `TD`, `BT`, `LR`,
/// `RL`.
pub fn render_lane_geometry(model: &Flowchart, opts: &MermansiOptions) -> (r: Result<Option<String>>)
    ensures
        r matches Ok(Some(s)) ==> lanes_within(s@, *opts),
        r matches Ok(Some(_)) ==> ({
            let d = match model.direction { Some(d) => d@, None => "TB"@ };
            d == "TB"@ || d == "TD"@ || d == "BT"@ || d == "LR"@ || d == "RL"@
        }),
        r == Ok::<Option<String>, MermansiError>(None) <==> ({
            let d = match model.direction { Some(d) => d@, None => "TB"@ };
            !ids_distinct(model.nodes@) || !ends_named(*model)
                || !(d == "TB"@ || d == "TD"@ || d == "BT"@ || d == "LR"@ || d == "RL"@)
        }),
{
    let topology = match Topology::new(model) {
        Some(t) => t,
        None => return Ok(None),
    };
    let labels = Labels::new(model);
    let direction = match &model.direction {
        Some(d) => d.clone(),
        None => String::from_str("TB"),
    };
    let d = direction.as_str();
    let drawn = if str_eq(d, "TB") || str_eq(d, "TD") {
        render_vertical(model, &topology, &labels, opts, false)
    } else if str_eq(d, "BT") {
        render_vertical(model, &topology, &labels, opts, true)
    } else if str_eq(d, "LR") {
        render_horizontal(model, &topology, &labels, opts, false)
    } else if str_eq(d, "RL") {
        render_horizontal(model, &topology, &labels, opts, true)
    } else {
        return Ok(None);
    };
    match drawn {
        Ok(text) => Ok(Some(text)),
        Err(e) => Err(e),
    }
}

} // verus!
