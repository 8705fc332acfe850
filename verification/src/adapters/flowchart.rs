//! Flowchart geometry: the terminal renderer's drawing where it can route the chart, and the
//! library's own box layout (with subgraph frames and node shapes) where it cannot.

pub mod lanes;

use vstd::prelude::*;
use crate::adapters::box_geometry::{
    self, BoxDiagram, BoxDirection, BoxEdge, BoxGroup, BoxLayout, BoxNode, BoxNodeShape, EdgeLegend, EdgeMarker,
    EdgeStyle, Side, concat_parts, directed_ranks, edge_legend_text, ensure_inventory, opt_eq, str_eq, wrap_words,
};
use crate::adapters::chart_primitives::is_white_line;
use crate::adapters::json::decimal_text;
use crate::ansi::{sanitize_label_text, sanitized};
use crate::canvas::all_white;
use crate::error::{MermansiError, Result};
use crate::options::MermansiOptions;
use crate::text::{chars_of, push_char};

verus! {

#[verifier::external_type_specification]
#[verifier::external_body]
pub struct ExFlowchartModel(merman_core::diagrams::flowchart::FlowchartModel);

#[verifier::external_type_specification]
#[verifier::external_body]
pub struct ExFlowNode(merman_core::diagrams::flowchart::FlowNode);

#[verifier::external_type_specification]
#[verifier::external_body]
pub struct ExFlowEdge(merman_core::diagrams::flowchart::FlowEdge);

#[verifier::external_type_specification]
#[verifier::external_body]
pub struct ExFlowSubgraph(merman_core::diagrams::flowchart::FlowSubgraph);

/// Deepest subgraph nesting drawn.
pub const MAX_SUBGRAPH_DEPTH: usize = 64;
/// Most subgraph memberships read.
pub const MAX_SUBGRAPH_MEMBERSHIPS: usize = 100_000;

/// A flowchart node: its id, label and layout shape.
pub struct FlowchartNode {
    pub id: String,
    pub label: Option<String>,
    pub layout_shape: Option<String>,
}

/// A flowchart edge: its ends, label, Mermaid edge type (such as `arrow_point` or
/// `double_arrow_circle`) and stroke.
pub struct FlowchartEdge {
    pub from: String,
    pub to: String,
    pub label: Option<String>,
    pub edge_type: Option<String>,
    pub stroke: Option<String>,
}

/// A subgraph: its id, title and the ids of its members (nodes or subgraphs).
pub struct FlowchartSubgraph {
    pub id: String,
    pub title: String,
    pub nodes: Vec<String>,
}

/// A flowchart: its direction, nodes, edges and subgraphs.
pub struct Flowchart {
    pub direction: Option<String>,
    pub nodes: Vec<FlowchartNode>,
    pub edges: Vec<FlowchartEdge>,
    pub subgraphs: Vec<FlowchartSubgraph>,
}

/// What the terminal renderer made of a flowchart.
pub enum Delegated {
    /// A drawing.
    Drawn(String),
    /// The chart uses something it cannot draw.
    Unsupported,
    /// Another failure, reported as is.
    Failed(MermansiError),
}

/// The flowchart model of a parsed diagram, if it is one.
#[verifier::external_body]
pub(crate) fn parsed_flowchart(parsed: &merman_core::ParsedDiagramRender)
    -> (r: Option<&merman_core::diagrams::flowchart::FlowchartModel>)
{
    match parsed.model() {
        merman_core::diagram::RenderSemanticModel::Flowchart(model) => Some(model),
        _ => None,
    }
}

/// The `direction` field of a flowchart model.
#[verifier::external_body]
fn model_direction(model: &merman_core::diagrams::flowchart::FlowchartModel) -> (r: Option<String>)
{
    model.direction.clone()
}

/// The `nodes` field of a flowchart model.
#[verifier::external_body]
fn model_nodes(model: &merman_core::diagrams::flowchart::FlowchartModel) -> (r: &Vec<merman_core::diagrams::flowchart::FlowNode>)
{
    &model.nodes
}

/// The `edges` field of a flowchart model.
#[verifier::external_body]
fn model_edges(model: &merman_core::diagrams::flowchart::FlowchartModel) -> (r: &Vec<merman_core::diagrams::flowchart::FlowEdge>)
{
    &model.edges
}

/// The `subgraphs` field of a flowchart model.
#[verifier::external_body]
fn model_subgraphs(model: &merman_core::diagrams::flowchart::FlowchartModel)
    -> (r: &Vec<merman_core::diagrams::flowchart::FlowSubgraph>)
{
    &model.subgraphs
}

/// The id, label and layout shape of a parsed node.
#[verifier::external_body]
fn node_of(node: &merman_core::diagrams::flowchart::FlowNode) -> (r: FlowchartNode)
{
    FlowchartNode { id: node.id.clone(), label: node.label.clone(), layout_shape: node.layout_shape.clone() }
}

/// The ends, label, edge type and stroke of a parsed edge.
#[verifier::external_body]
fn edge_of(edge: &merman_core::diagrams::flowchart::FlowEdge) -> (r: FlowchartEdge)
{
    FlowchartEdge {
        from: edge.from.clone(),
        to: edge.to.clone(),
        label: edge.label.clone(),
        edge_type: edge.edge_type.clone(),
        stroke: edge.stroke.clone(),
    }
}

/// The id, title and members of a parsed subgraph.
#[verifier::external_body]
fn subgraph_of(subgraph: &merman_core::diagrams::flowchart::FlowSubgraph) -> (r: FlowchartSubgraph)
{
    FlowchartSubgraph { id: subgraph.id.clone(), title: subgraph.title.clone(), nodes: subgraph.nodes.clone() }
}

/// Tells `AsciiError::UnsupportedFeature` from the terminal renderer's other errors.
#[verifier::external_body]
pub(crate) fn is_unsupported_feature(error: &merman_ascii::AsciiError) -> (r: bool)
{
    match error {
        merman_ascii::AsciiError::UnsupportedFeature { .. } => true,
        _ => false,
    }
}

/// The library's copy of a parsed flowchart.
pub(crate) fn diagram_of(model: &merman_core::diagrams::flowchart::FlowchartModel) -> (r: Flowchart)
{
    let parsed_nodes = model_nodes(model);
    let mut nodes: Vec<FlowchartNode> = Vec::new();
    let mut i: usize = 0;
    while i < parsed_nodes.len()
        invariant
            i <= parsed_nodes@.len(),
        decreases parsed_nodes@.len() - i,
    {
        nodes.push(node_of(&parsed_nodes[i]));
        i = i + 1;
    }
    let parsed_edges = model_edges(model);
    let mut edges: Vec<FlowchartEdge> = Vec::new();
    let mut j: usize = 0;
    while j < parsed_edges.len()
        invariant
            j <= parsed_edges@.len(),
        decreases parsed_edges@.len() - j,
    {
        edges.push(edge_of(&parsed_edges[j]));
        j = j + 1;
    }
    let parsed_subgraphs = model_subgraphs(model);
    let mut subgraphs: Vec<FlowchartSubgraph> = Vec::new();
    let mut k: usize = 0;
    while k < parsed_subgraphs.len()
        invariant
            k <= parsed_subgraphs@.len(),
        decreases parsed_subgraphs@.len() - k,
    {
        subgraphs.push(subgraph_of(&parsed_subgraphs[k]));
        k = k + 1;
    }
    Flowchart { direction: model_direction(model), nodes, edges, subgraphs }
}

fn layout_error(message: String) -> (r: MermansiError)
    ensures
        r == (MermansiError::GeometryLayout { family: "flowchart", message }),
{
    MermansiError::GeometryLayout { family: "flowchart", message }
}

/// The concatenation of `parts`.
fn joined(parts: &[&str]) -> (r: String)
    ensures
        r@ == concat_parts(parts@, parts@.len() as int),
{
    let mut out = String::new();
    let mut i: usize = 0;
    while i < parts.len()
        invariant
            i <= parts@.len(),
            out@ == concat_parts(parts@, i as int),
        decreases parts@.len() - i,
    {
        out.append(parts[i]);
        i = i + 1;
        assert(out@ =~= concat_parts(parts@, i as int));
    }
    out
}

/// Whether `word` occurs in `text` at `i`.
pub open spec fn occurs(text: Seq<char>, i: int, word: Seq<char>) -> bool {
    0 <= i && i + word.len() <= text.len() && text.subrange(i, i + word.len()) == word
}

/// Whether `word` occurs in `text` from some position of it.
pub open spec fn has_word(text: Seq<char>, word: Seq<char>) -> bool {
    exists|i: int| 0 <= i < text.len() && #[trigger] occurs(text, i, word)
}

/// `c` in ASCII lower case.
pub open spec fn lower_ascii(c: char) -> char {
    if 'A' <= c && c <= 'Z' { ((c as u32) + 32) as char } else { c }
}

/// `s` in ASCII lower case.
pub open spec fn lowercase(s: Seq<char>) -> Seq<char> {
    Seq::new(s.len(), |i: int| lower_ascii(s[i]))
}

/// Whether `word` occurs in `text` at `i`.
fn occurs_at(text: &Vec<char>, i: usize, word: &Vec<char>) -> (r: bool)
    ensures
        r == occurs(text@, i as int, word@),
{
    if i > text.len() {
        return false;
    }
    let n = text.len();
    let room = n - i;
    if word.len() > room {
        return false;
    }
    let mut k: usize = 0;
    while k < word.len()
        invariant
            k <= word@.len(),
            room == text@.len() - i,
            word@.len() <= room,
            i <= text@.len(),
            n == i + room,
            n == text@.len(),
            forall|j: int| 0 <= j < k ==> text@[i + j] == word@[j],
        decreases word@.len() - k,
    {
        if text[i + k] != word[k] {
            assert(text@.subrange(i as int, i + word@.len())[k as int] != word@[k as int]);
            return false;
        }
        k = k + 1;
    }
    assert(text@.subrange(i as int, i + word@.len()) =~= word@);
    true
}

/// Whether `word` occurs anywhere in `text`.
pub(crate) fn contains_text(text: &str, word: &str) -> (r: bool)
    ensures
        r == has_word(text@, word@),
{
    let t = chars_of(text);
    let w = chars_of(word);
    let mut i: usize = 0;
    while i < t.len()
        invariant
            i <= t@.len(),
            t@ == text@,
            w@ == word@,
            forall|j: int| 0 <= j < i ==> !#[trigger] occurs(text@, j, word@),
        decreases t@.len() - i,
    {
        if occurs_at(&t, i, &w) {
            return true;
        }
        i = i + 1;
    }
    false
}

/// `text` in ASCII lower case.
fn ascii_lowercase(text: &str) -> (r: String)
    ensures
        r@ == lowercase(text@),
{
    let t = chars_of(text);
    let mut out = String::new();
    let mut i: usize = 0;
    while i < t.len()
        invariant
            i <= t@.len(),
            t@ == text@,
            out@ == lowercase(text@).subrange(0, i as int),
        decreases t@.len() - i,
    {
        let c = t[i];
        let lower = if 'A' <= c && c <= 'Z' { (((c as u32) + 32) as u8) as char } else { c };
        assert(lower == lower_ascii(c));
        push_char(&mut out, lower);
        assert(out@ =~= lowercase(text@).subrange(0, i + 1));
        i = i + 1;
    }
    assert(out@ =~= lowercase(text@));
    out
}

/// `text` without a leading `prefix`, where it has one.
pub(crate) fn strip_prefix(text: &str, prefix: &str) -> (r: Option<String>)
    ensures
        occurs(text@, 0, prefix@) ==> (r matches Some(s) && s@ == text@.subrange(prefix@.len() as int, text@.len() as int)),
        !occurs(text@, 0, prefix@) ==> r is None,
{
    let t = chars_of(text);
    let p = chars_of(prefix);
    if !occurs_at(&t, 0, &p) {
        return None;
    }
    let mut out = String::new();
    let mut i: usize = p.len();
    while i < t.len()
        invariant
            p@.len() <= i <= t@.len(),
            t@ == text@,
            p@ == prefix@,
            out@ == text@.subrange(prefix@.len() as int, i as int),
        decreases t@.len() - i,
    {
        push_char(&mut out, t[i]);
        assert(out@ =~= text@.subrange(prefix@.len() as int, i + 1));
        i = i + 1;
    }
    Some(out)
}

/// The kind of an edge type without its `double_` prefix (`arrow_point` where there is no type).
pub open spec fn edge_kind(edge_type: Option<String>) -> Seq<char> {
    let full = match edge_type {
        Some(t) => t@,
        None => "arrow_point"@,
    };
    if occurs(full, 0, "double_"@) { full.subrange("double_"@.len() as int, full.len() as int) } else { full }
}

/// The marker of an edge kind: none for an open end, else a circle, a cross or an arrow.
pub open spec fn kind_marker(kind: Seq<char>) -> EdgeMarker {
    if has_word(kind, "open"@) {
        EdgeMarker::Absent
    } else if has_word(kind, "circle"@) {
        EdgeMarker::Circle
    } else if has_word(kind, "cross"@) {
        EdgeMarker::Cross
    } else {
        EdgeMarker::Arrow
    }
}

/// The marker of an edge type: none for an open end, else a circle, a cross or an arrow.
pub fn edge_marker(edge_type: &Option<String>) -> (r: EdgeMarker)
    ensures
        r == kind_marker(edge_kind(*edge_type)),
{
    let full = match edge_type {
        Some(t) => t.clone(),
        None => String::from_str("arrow_point"),
    };
    let kind = match strip_prefix(full.as_str(), "double_") {
        Some(rest) => rest,
        None => full,
    };
    if contains_text(kind.as_str(), "open") {
        EdgeMarker::Absent
    } else if contains_text(kind.as_str(), "circle") {
        EdgeMarker::Circle
    } else if contains_text(kind.as_str(), "cross") {
        EdgeMarker::Cross
    } else {
        EdgeMarker::Arrow
    }
}

/// The box shape of a lower-case Mermaid layout shape name.
pub open spec fn shape_named(n: Seq<char>) -> BoxNodeShape {
    if n == "cyl"@ || n == "cylinder"@ || n == "database"@ || n == "db"@ || n == "datastore"@
        || n == "data-store"@ || n == "disk"@ || n == "lin-cyl"@ || n == "lined-cylinder"@ {
        BoxNodeShape::Cylinder
    } else if n == "diam"@ || n == "diamond"@ || n == "decision"@ || n == "question"@ || n == "choice"@ {
        BoxNodeShape::Decision
    } else if n == "roundedrect"@ || n == "rounded"@ || n == "round"@ || n == "stadium"@ || n == "pill"@
        || n == "circle"@ || n == "ellipse"@ {
        BoxNodeShape::Rounded
    } else {
        BoxNodeShape::Rectangle
    }
}

/// The box shape of a Mermaid layout shape name (in any ASCII case).
pub fn flow_node_shape(shape: &Option<String>) -> (r: BoxNodeShape)
    ensures
        r == shape_named(match *shape { Some(s) => lowercase(s@), None => seq![] }),
{
    let name = match shape {
        Some(s) => ascii_lowercase(s.as_str()),
        None => String::new(),
    };
    let n = name.as_str();
    if str_eq(n, "cyl") || str_eq(n, "cylinder") || str_eq(n, "database") || str_eq(n, "db") || str_eq(n, "datastore")
        || str_eq(n, "data-store") || str_eq(n, "disk") || str_eq(n, "lin-cyl") || str_eq(n, "lined-cylinder") {
        BoxNodeShape::Cylinder
    } else if str_eq(n, "diam") || str_eq(n, "diamond") || str_eq(n, "decision") || str_eq(n, "question")
        || str_eq(n, "choice") {
        BoxNodeShape::Decision
    } else if str_eq(n, "roundedrect") || str_eq(n, "rounded") || str_eq(n, "round") || str_eq(n, "stadium")
        || str_eq(n, "pill") || str_eq(n, "circle") || str_eq(n, "ellipse") {
        BoxNodeShape::Rounded
    } else {
        BoxNodeShape::Rectangle
    }
}

/// Whether a node asks for a shape other than a plain rectangle.
fn has_explicit_shape(node: &FlowchartNode) -> (r: bool)
    ensures
        r == shaped(*node),
{
    match &node.layout_shape {
        None => false,
        Some(s) => !(str_eq(s.as_str(), "squareRect") || str_eq(s.as_str(), "rect") || str_eq(s.as_str(), "rectangle")),
    }
}

/// Whether a label changes when it is made safe for the terminal.
/// Whether `label` is present and changes when it is made safe for the terminal.
pub open spec fn label_changes(label: Option<String>) -> bool {
    label matches Some(l) && sanitized(l@) != l@
}

fn needs_normalization(label: &Option<String>) -> (r: bool)
    ensures
        r == label_changes(*label),
{
    match label {
        Some(l) => {
            let clean = sanitize_label_text(l.as_str());
            !str_eq(clean.as_str(), l.as_str())
        },
        None => false,
    }
}

fn requires_terminal_text_normalization(model: &Flowchart) -> (r: bool)
    ensures
        r == ((exists|i: int| 0 <= i < model.nodes@.len() && label_changes((#[trigger] model.nodes@[i]).label))
            || (exists|j: int| 0 <= j < model.edges@.len() && label_changes((#[trigger] model.edges@[j]).label))),
{
    let mut i: usize = 0;
    while i < model.nodes.len()
        invariant
            i <= model.nodes@.len(),
            forall|k: int| 0 <= k < i ==> !label_changes((#[trigger] model.nodes@[k]).label),
        decreases model.nodes@.len() - i,
    {
        if needs_normalization(&model.nodes[i].label) {
            assert(label_changes(model.nodes@[i as int].label));
            return true;
        }
        i = i + 1;
    }
    let mut j: usize = 0;
    while j < model.edges.len()
        invariant
            j <= model.edges@.len(),
            forall|k: int| 0 <= k < model.nodes@.len() ==> !label_changes((#[trigger] model.nodes@[k]).label),
            forall|k: int| 0 <= k < j ==> !label_changes((#[trigger] model.edges@[k]).label),
        decreases model.edges@.len() - j,
    {
        if needs_normalization(&model.edges[j].label) {
            return true;
        }
        j = j + 1;
    }
    false
}

/// The label shown for a node: its sanitized label, or its id where the label is missing or
/// blank.
pub fn node_label(label: &Option<String>, id: &str) -> (r: String)
    ensures
        ({
            let shown = match *label {
                Some(l) => sanitized(l@),
                None => sanitized(id@),
            };
            r@ == if all_white(shown) { sanitized(id@) } else { shown }
        }),
{
    let shown = match label {
        Some(l) => sanitize_label_text(l.as_str()),
        None => sanitize_label_text(id),
    };
    let chars = chars_of(shown.as_str());
    if is_white_line(&chars) {
        sanitize_label_text(id)
    } else {
        shown
    }
}

/// Who contains whom: the first subgraph (in order) that lists each node and each other
/// subgraph.
pub struct MembershipIndex {
    node_parents: Vec<(String, String)>,
    group_parents: Vec<(String, String)>,
}

/// The value of the first of the first `n` pairs whose key is `key`.
pub open spec fn first_value(pairs: Seq<(String, String)>, key: Seq<char>, n: int) -> Option<Seq<char>>
    decreases n,
{
    if n <= 0 {
        None
    } else {
        match first_value(pairs, key, n - 1) {
            Some(v) => Some(v),
            None => if pairs[n - 1].0@ == key { Some(pairs[n - 1].1@) } else { None },
        }
    }
}

proof fn lemma_first_value_push(pairs: Seq<(String, String)>, p: (String, String), key: Seq<char>, n: int)
    requires
        0 <= n <= pairs.len(),
    ensures
        first_value(pairs.push(p), key, n) == first_value(pairs, key, n),
    decreases n,
{
    if n > 0 {
        lemma_first_value_push(pairs, p, key, n - 1);
    }
}

proof fn lemma_first_value_stays(pairs: Seq<(String, String)>, key: Seq<char>, a: int, b: int)
    requires
        0 <= a <= b,
        first_value(pairs, key, a) is Some,
    ensures
        first_value(pairs, key, b) == first_value(pairs, key, a),
    decreases b - a,
{
    if a < b {
        lemma_first_value_stays(pairs, key, a, b - 1);
    }
}

/// Whether the subgraph lists `member`.
pub open spec fn lists(group: FlowchartSubgraph, member: Seq<char>) -> bool {
    exists|m: int| 0 <= m < group.nodes@.len() && (#[trigger] group.nodes@[m])@ == member
}

/// Whether some subgraph has the id `id`.
pub open spec fn is_group_id(groups: Seq<FlowchartSubgraph>, id: Seq<char>) -> bool {
    exists|g: int| 0 <= g < groups.len() && (#[trigger] groups[g]).id@ == id
}

/// The id of the first of the first `n` subgraphs that lists `member`.
pub open spec fn first_parent(groups: Seq<FlowchartSubgraph>, member: Seq<char>, n: int) -> Option<Seq<char>>
    decreases n,
{
    if n <= 0 {
        None
    } else {
        match first_parent(groups, member, n - 1) {
            Some(p) => Some(p),
            None => if lists(groups[n - 1], member) { Some(groups[n - 1].id@) } else { None },
        }
    }
}

/// For a subgraph id: the id of the first of the first `n` other subgraphs that lists it.
pub open spec fn first_group_parent(groups: Seq<FlowchartSubgraph>, member: Seq<char>, n: int) -> Option<Seq<char>>
    decreases n,
{
    if n <= 0 {
        None
    } else {
        match first_group_parent(groups, member, n - 1) {
            Some(p) => Some(p),
            None => if lists(groups[n - 1], member) && groups[n - 1].id@ != member && is_group_id(groups, member) {
                Some(groups[n - 1].id@)
            } else {
                None
            },
        }
    }
}

impl MembershipIndex {
    /// The subgraph recorded as containing node (or subgraph) `id`.
    pub closed spec fn parent_of_node(&self, id: Seq<char>) -> Option<Seq<char>> {
        first_value(self.node_parents@, id, self.node_parents@.len() as int)
    }

    /// The subgraph recorded as containing subgraph `id`.
    pub closed spec fn parent_of_group(&self, id: Seq<char>) -> Option<Seq<char>> {
        first_value(self.group_parents@, id, self.group_parents@.len() as int)
    }
}

/// The value paired with `key`, first match.
fn lookup(pairs: &Vec<(String, String)>, key: &str) -> (r: Option<String>)
    ensures
        match first_value(pairs@, key@, pairs@.len() as int) {
            Some(v) => r matches Some(s) && s@ == v,
            None => r is None,
        },
{
    let mut i: usize = 0;
    while i < pairs.len()
        invariant
            i <= pairs@.len(),
            first_value(pairs@, key@, i as int) is None,
        decreases pairs@.len() - i,
    {
        if str_eq(pairs[i].0.as_str(), key) {
            proof {
                lemma_first_value_stays(pairs@, key@, i + 1, pairs@.len() as int);
            }
            return Some(pairs[i].1.clone());
        }
        i = i + 1;
    }
    None
}

/// The position of `key` in `items`, first match.
fn position_of(items: &Vec<String>, key: &str) -> (r: Option<usize>)
    ensures
        r matches Some(i) ==> i < items@.len(),
        r is Some <==> exists|i: int| 0 <= i < items@.len() && (#[trigger] items@[i])@ == key@,
{
    let mut i: usize = 0;
    while i < items.len()
        invariant
            i <= items@.len(),
            forall|j: int| 0 <= j < i ==> (#[trigger] items@[j])@ != key@,
        decreases items@.len() - i,
    {
        if str_eq(items[i].as_str(), key) {
            return Some(i);
        }
        i = i + 1;
    }
    None
}

/// The depth recorded for `key`.
fn depth_of(depths: &Vec<(String, usize)>, key: &str) -> (r: Option<usize>)
    ensures
        r matches Some(d) ==> d <= MAX_SUBGRAPH_DEPTH || !(forall|k: int| 0 <= k < depths@.len() ==> (#[trigger] depths@[k]).1 <= MAX_SUBGRAPH_DEPTH),
        r matches Some(d) ==> exists|i: int| 0 <= i < depths@.len() && (#[trigger] depths@[i]).0@ == key@
            && depths@[i].1 == d && forall|j: int| 0 <= j < i ==> (#[trigger] depths@[j]).0@ != key@,
        r is None ==> forall|j: int| 0 <= j < depths@.len() ==> (#[trigger] depths@[j]).0@ != key@,
{
    let mut i: usize = 0;
    while i < depths.len()
        invariant
            i <= depths@.len(),
            forall|j: int| 0 <= j < i ==> (#[trigger] depths@[j]).0@ != key@,
        decreases depths@.len() - i,
    {
        if str_eq(depths[i].0.as_str(), key) {
            return Some(depths[i].1);
        }
        i = i + 1;
    }
    None
}

/// Refuses subgraph nesting deeper than [`MAX_SUBGRAPH_DEPTH`] and nesting that loops, whatever
/// the order in which the subgraphs are listed.
fn validate_direct_group_depth(groups: &Vec<FlowchartSubgraph>, parents: &Vec<(String, String)>) -> (r: Result<()>)
{
    let mut depths: Vec<(String, usize)> = Vec::new();
    let mut g: usize = 0;
    while g < groups.len()
        invariant
            g <= groups@.len(),
            forall|k: int| 0 <= k < depths@.len() ==> (#[trigger] depths@[k]).1 <= MAX_SUBGRAPH_DEPTH,
        decreases groups@.len() - g,
    {
        if depth_of(&depths, groups[g].id.as_str()).is_some() {
            g = g + 1;
            continue;
        }
        let mut path: Vec<String> = Vec::new();
        let mut current = groups[g].id.clone();
        let mut base_depth: usize = 0;
        loop
            invariant_except_break
                base_depth == 0,
            invariant
                path@.len() <= MAX_SUBGRAPH_DEPTH,
                forall|k: int| 0 <= k < depths@.len() ==> (#[trigger] depths@[k]).1 <= MAX_SUBGRAPH_DEPTH,
            ensures
                path@.len() <= MAX_SUBGRAPH_DEPTH,
                base_depth <= MAX_SUBGRAPH_DEPTH,
                forall|k: int| 0 <= k < depths@.len() ==> (#[trigger] depths@[k]).1 <= MAX_SUBGRAPH_DEPTH,
            decreases MAX_SUBGRAPH_DEPTH - path@.len(),
        {
            match depth_of(&depths, current.as_str()) {
                Some(depth) => {
                    base_depth = depth;
                    break;
                },
                None => {},
            }
            if position_of(&path, current.as_str()).is_some() {
                return Err(layout_error(joined(&["subgraph membership cycle includes ", current.as_str()])));
            }
            path.push(current.clone());
            if path.len() > MAX_SUBGRAPH_DEPTH {
                return Err(MermansiError::RenderLimit { context: "flowchart subgraph depth", requested: path.len(), limit: MAX_SUBGRAPH_DEPTH });
            }
            match lookup(parents, current.as_str()) {
                Some(parent) => {
                    current = parent;
                },
                None => {
                    break;
                },
            }
        }
        let requested = base_depth + path.len();
        if requested > MAX_SUBGRAPH_DEPTH {
            return Err(MermansiError::RenderLimit { context: "flowchart subgraph depth", requested, limit: MAX_SUBGRAPH_DEPTH });
        }
        let mut depth = base_depth;
        let mut k = path.len();
        while k > 0
            invariant
                k <= path@.len(),
                base_depth + path@.len() <= MAX_SUBGRAPH_DEPTH,
                depth == base_depth + (path@.len() - k),
                forall|z: int| 0 <= z < depths@.len() ==> (#[trigger] depths@[z]).1 <= MAX_SUBGRAPH_DEPTH,
            decreases k,
        {
            depth = depth + 1;
            depths.push((path[k - 1].clone(), depth));
            k = k - 1;
        }
        g = g + 1;
    }
    Ok(())
}

/// Whether member `id` is among the first `m` members of the subgraph.
spec fn listed_before(group: FlowchartSubgraph, id: Seq<char>, m: int) -> bool {
    exists|k: int| 0 <= k < m && (#[trigger] group.nodes@[k])@ == id
}

/// The first listing of `id` among the subgraphs before `gi` and the first `m` members of
/// subgraph `gi`.
spec fn partial_parent(groups: Seq<FlowchartSubgraph>, id: Seq<char>, gi: int, m: int) -> Option<Seq<char>> {
    match first_parent(groups, id, gi) {
        Some(p) => Some(p),
        None => if listed_before(groups[gi], id, m) { Some(groups[gi].id@) } else { None },
    }
}

/// As [`partial_parent`], for subgraph ids listed by another subgraph.
spec fn partial_group_parent(groups: Seq<FlowchartSubgraph>, id: Seq<char>, gi: int, m: int) -> Option<Seq<char>> {
    match first_group_parent(groups, id, gi) {
        Some(p) => Some(p),
        None => if listed_before(groups[gi], id, m) && groups[gi].id@ != id && is_group_id(groups, id) {
            Some(groups[gi].id@)
        } else {
            None
        },
    }
}

/// Whether `ids` holds the subgraph ids in order.
spec fn ids_of(ids: Seq<String>, groups: Seq<FlowchartSubgraph>) -> bool {
    ids.len() == groups.len() && forall|k: int| 0 <= k < ids.len() ==> (#[trigger] ids[k])@ == groups[k].id@
}

/// Records member `m` of subgraph `gi`: its container, where none is recorded yet, and (for
/// another subgraph's id) its containing subgraph, where none is recorded yet.
fn record_member(node_parents: &mut Vec<(String, String)>, group_parents: &mut Vec<(String, String)>,
    group_ids: &Vec<String>, groups: &Vec<FlowchartSubgraph>, gi: usize, m: usize)
    requires
        gi < groups@.len(),
        m < groups@[gi as int].nodes@.len(),
        ids_of(group_ids@, groups@),
        forall|id: Seq<char>| #[trigger] first_value(old(node_parents)@, id, old(node_parents)@.len() as int)
            == partial_parent(groups@, id, gi as int, m as int),
        forall|id: Seq<char>| #[trigger] first_value(old(group_parents)@, id, old(group_parents)@.len() as int)
            == partial_group_parent(groups@, id, gi as int, m as int),
    ensures
        forall|id: Seq<char>| #[trigger] first_value(final(node_parents)@, id, final(node_parents)@.len() as int)
            == partial_parent(groups@, id, gi as int, m + 1),
        forall|id: Seq<char>| #[trigger] first_value(final(group_parents)@, id, final(group_parents)@.len() as int)
            == partial_group_parent(groups@, id, gi as int, m + 1),
{
    let group = &groups[gi];
    let member = group.nodes[m].as_str();
    let ghost mv = member@;
    let ghost np0 = node_parents@;
    let ghost gp0 = group_parents@;
    proof {
        assert forall|id: Seq<char>| id != mv implies listed_before(groups@[gi as int], id, m + 1)
            == #[trigger] listed_before(groups@[gi as int], id, m as int) by {
            if listed_before(groups@[gi as int], id, m + 1) {
                let k = choose|k: int| 0 <= k < m + 1 && (#[trigger] groups@[gi as int].nodes@[k])@ == id;
                assert(k < m);
            }
        }
        assert(listed_before(groups@[gi as int], mv, m + 1)) by {
            assert(groups@[gi as int].nodes@[m as int]@ == mv);
        }
    }
    if lookup(node_parents, member).is_none() {
        let pair = (String::from_str(member), group.id.clone());
        node_parents.push(pair);
        proof {
            assert forall|id: Seq<char>| #[trigger] first_value(node_parents@, id, node_parents@.len() as int)
                == partial_parent(groups@, id, gi as int, m + 1) by {
                lemma_first_value_push(np0, pair, id, np0.len() as int);
                assert(node_parents@ == np0.push(pair));
                assert(first_value(np0, id, np0.len() as int) == partial_parent(groups@, id, gi as int, m as int));
            }
        }
    } else {
        proof {
            assert forall|id: Seq<char>| #[trigger] first_value(node_parents@, id, node_parents@.len() as int)
                == partial_parent(groups@, id, gi as int, m + 1) by {
                assert(first_value(np0, id, np0.len() as int) == partial_parent(groups@, id, gi as int, m as int));
            }
        }
    }
    let is_group = position_of(group_ids, member).is_some();
    proof {
        assert(is_group == is_group_id(groups@, mv)) by {
            if is_group {
                let i = choose|i: int| 0 <= i < group_ids@.len() && (#[trigger] group_ids@[i])@ == mv;
                assert(groups@[i].id@ == mv);
            }
            if is_group_id(groups@, mv) {
                let g = choose|g: int| 0 <= g < groups@.len() && (#[trigger] groups@[g]).id@ == mv;
                assert(group_ids@[g]@ == mv);
            }
        }
    }
    if !str_eq(member, group.id.as_str()) && is_group && lookup(group_parents, member).is_none() {
        let pair = (String::from_str(member), group.id.clone());
        group_parents.push(pair);
        proof {
            assert forall|id: Seq<char>| #[trigger] first_value(group_parents@, id, group_parents@.len() as int)
                == partial_group_parent(groups@, id, gi as int, m + 1) by {
                lemma_first_value_push(gp0, pair, id, gp0.len() as int);
                assert(group_parents@ == gp0.push(pair));
                assert(first_value(gp0, id, gp0.len() as int) == partial_group_parent(groups@, id, gi as int, m as int));
            }
        }
    } else {
        proof {
            assert forall|id: Seq<char>| #[trigger] first_value(group_parents@, id, group_parents@.len() as int)
                == partial_group_parent(groups@, id, gi as int, m + 1) by {
                assert(first_value(gp0, id, gp0.len() as int) == partial_group_parent(groups@, id, gi as int, m as int));
            }
        }
    }
}

/// The number of members of the first `n` subgraphs.
pub open spec fn total_members(groups: Seq<FlowchartSubgraph>, n: int) -> nat
    decreases n,
{
    if n <= 0 { 0 } else { total_members(groups, n - 1) + groups[n - 1].nodes@.len() }
}

impl MembershipIndex {
    /// Indexes the subgraphs: refuses more than [`MAX_SUBGRAPH_MEMBERSHIPS`] memberships, a
    /// subgraph id used twice, an id shared by two entities, a member that is neither a node
    /// nor a subgraph, and nesting that loops or is too deep.
    pub fn new(nodes: &Vec<FlowchartNode>, groups: &Vec<FlowchartSubgraph>) -> (r: Result<MembershipIndex>)
        ensures
            ({
                let total = total_members(groups@, groups@.len() as int);
                total > MAX_SUBGRAPH_MEMBERSHIPS ==> r == Err::<MembershipIndex, MermansiError>(MermansiError::RenderLimit {
                    context: "flowchart subgraph memberships",
                    requested: if total > usize::MAX { usize::MAX } else { total as usize },
                    limit: MAX_SUBGRAPH_MEMBERSHIPS,
                })
            }),
            r matches Ok(index) ==> forall|id: Seq<char>|
                #[trigger] index.parent_of_node(id) == first_parent(groups@, id, groups@.len() as int),
            r matches Ok(index) ==> forall|id: Seq<char>|
                #[trigger] index.parent_of_group(id) == first_group_parent(groups@, id, groups@.len() as int),
    {
        let mut membership_count: usize = 0;
        let mut g: usize = 0;
        while g < groups.len()
            invariant
                g <= groups@.len(),
                membership_count == (if total_members(groups@, g as int) > usize::MAX { usize::MAX as int }
                    else { total_members(groups@, g as int) as int }),
            decreases groups@.len() - g,
        {
            membership_count = membership_count.saturating_add(groups[g].nodes.len());
            g = g + 1;
        }
        if membership_count > MAX_SUBGRAPH_MEMBERSHIPS {
            return Err(MermansiError::RenderLimit {
                context: "flowchart subgraph memberships",
                requested: membership_count,
                limit: MAX_SUBGRAPH_MEMBERSHIPS,
            });
        }
        let mut group_ids: Vec<String> = Vec::new();
        let mut i: usize = 0;
        while i < groups.len()
            invariant
                i <= groups@.len(),
                total_members(groups@, groups@.len() as int) <= MAX_SUBGRAPH_MEMBERSHIPS,
                group_ids@.len() == i,
                forall|k: int| 0 <= k < i ==> (#[trigger] group_ids@[k])@ == groups@[k].id@,
            decreases groups@.len() - i,
        {
            if position_of(&group_ids, groups[i].id.as_str()).is_some() {
                return Err(layout_error(joined(&["duplicate subgraph id: ", groups[i].id.as_str()])));
            }
            group_ids.push(groups[i].id.clone());
            i = i + 1;
        }
        let mut entity_ids: Vec<String> = group_ids.clone();
        let mut n: usize = 0;
        while n < nodes.len()
            invariant
                n <= nodes@.len(),
                total_members(groups@, groups@.len() as int) <= MAX_SUBGRAPH_MEMBERSHIPS,
            decreases nodes@.len() - n,
        {
            if position_of(&entity_ids, nodes[n].id.as_str()).is_some() {
                return Err(layout_error(joined(&["duplicate flowchart entity id: ", nodes[n].id.as_str()])));
            }
            entity_ids.push(nodes[n].id.clone());
            n = n + 1;
        }
        let mut node_parents: Vec<(String, String)> = Vec::new();
        let mut group_parents: Vec<(String, String)> = Vec::new();
        let mut gi: usize = 0;
        while gi < groups.len()
            invariant
                gi <= groups@.len(),
                total_members(groups@, groups@.len() as int) <= MAX_SUBGRAPH_MEMBERSHIPS,
                ids_of(group_ids@, groups@),
                forall|id: Seq<char>| #[trigger] first_value(node_parents@, id, node_parents@.len() as int)
                    == first_parent(groups@, id, gi as int),
                forall|id: Seq<char>| #[trigger] first_value(group_parents@, id, group_parents@.len() as int)
                    == first_group_parent(groups@, id, gi as int),
            decreases groups@.len() - gi,
        {
            let group = &groups[gi];
            let mut m: usize = 0;
            while m < group.nodes.len()
                invariant
                    gi < groups@.len(),
                    *group == groups@[gi as int],
                    m <= group.nodes@.len(),
                    total_members(groups@, groups@.len() as int) <= MAX_SUBGRAPH_MEMBERSHIPS,
                    ids_of(group_ids@, groups@),
                    forall|id: Seq<char>| #[trigger] first_value(node_parents@, id, node_parents@.len() as int)
                        == partial_parent(groups@, id, gi as int, m as int),
                    forall|id: Seq<char>| #[trigger] first_value(group_parents@, id, group_parents@.len() as int)
                        == partial_group_parent(groups@, id, gi as int, m as int),
                decreases group.nodes@.len() - m,
            {
                let member = group.nodes[m].as_str();
                if position_of(&entity_ids, member).is_none() {
                    return Err(layout_error(joined(&["subgraph ", group.id.as_str(), " references missing member ", member])));
                }
                record_member(&mut node_parents, &mut group_parents, &group_ids, groups, gi, m);
                m = m + 1;
            }
            proof {
                assert forall|id: Seq<char>| #[trigger] first_value(node_parents@, id, node_parents@.len() as int)
                    == first_parent(groups@, id, gi + 1) by {
                    assert(first_value(node_parents@, id, node_parents@.len() as int)
                        == partial_parent(groups@, id, gi as int, m as int));
                    assert(listed_before(groups@[gi as int], id, m as int) == lists(groups@[gi as int], id));
                }
                assert forall|id: Seq<char>| #[trigger] first_value(group_parents@, id, group_parents@.len() as int)
                    == first_group_parent(groups@, id, gi + 1) by {
                    assert(first_value(group_parents@, id, group_parents@.len() as int)
                        == partial_group_parent(groups@, id, gi as int, m as int));
                    assert(listed_before(groups@[gi as int], id, m as int) == lists(groups@[gi as int], id));
                }
            }
            gi = gi + 1;
        }
        match validate_direct_group_depth(groups, &group_parents) {
            Ok(()) => {},
            Err(e) => return Err(e),
        }
        let index = MembershipIndex { node_parents, group_parents };
        proof {
            assert forall|id: Seq<char>| #[trigger] index.parent_of_node(id) == first_parent(groups@, id, groups@.len() as int) by {
                assert(index.parent_of_node(id) == first_value(index.node_parents@, id, index.node_parents@.len() as int));
            }
            assert forall|id: Seq<char>| #[trigger] index.parent_of_group(id) == first_group_parent(groups@, id, groups@.len() as int) by {
                assert(index.parent_of_group(id) == first_value(index.group_parents@, id, index.group_parents@.len() as int));
            }
        }
        Ok(index)
    }

    /// The subgraph that contains a node.
    pub fn node_parent(&self, node_id: &str) -> (r: Option<String>)
        ensures
            match self.parent_of_node(node_id@) {
                Some(v) => r matches Some(s) && s@ == v,
                None => r is None,
            },
    {
        lookup(&self.node_parents, node_id)
    }

    /// The subgraph that contains a subgraph.
    pub fn group_parent(&self, group_id: &str) -> (r: Option<String>)
        ensures
            match self.parent_of_group(group_id@) {
                Some(v) => r matches Some(s) && s@ == v,
                None => r is None,
            },
    {
        lookup(&self.group_parents, group_id)
    }
}

/// The index of the first subgraph with id `id`.
fn group_index_of(groups: &Vec<FlowchartSubgraph>, id: &str) -> (r: Option<usize>)
    ensures
        r matches Some(i) ==> i < groups@.len() && groups@[i as int].id@ == id@
            && forall|j: int| 0 <= j < i ==> (#[trigger] groups@[j]).id@ != id@,
        r is None ==> forall|j: int| 0 <= j < groups@.len() ==> (#[trigger] groups@[j]).id@ != id@,
{
    let mut i: usize = 0;
    while i < groups.len()
        invariant
            i <= groups@.len(),
            forall|j: int| 0 <= j < i ==> (#[trigger] groups@[j]).id@ != id@,
        decreases groups@.len() - i,
    {
        if str_eq(groups[i].id.as_str(), id) {
            return Some(i);
        }
        i = i + 1;
    }
    None
}

/// The rank of the first entry for `key` from entry `i` on.
pub open spec fn first_rank(ranks: Seq<(String, usize)>, key: Seq<char>, i: int) -> Option<usize>
    decreases ranks.len() - i,
{
    if i < 0 || i >= ranks.len() {
        None
    } else if ranks[i].0@ == key {
        Some(ranks[i].1)
    } else {
        first_rank(ranks, key, i + 1)
    }
}

/// The rank of a subgraph member: its node rank, else its subgraph rank.
pub open spec fn member_rank(key: Seq<char>, node_ranks: Seq<(String, usize)>, group_ranks: Seq<(String, usize)>)
    -> Option<usize> {
    match first_rank(node_ranks, key, 0) {
        Some(r) => Some(r),
        None => first_rank(group_ranks, key, 0),
    }
}

/// How many of the first `n` members have rank `rank`.
pub open spec fn rank_count(members: Seq<String>, n: int, rank: usize, node_ranks: Seq<(String, usize)>,
    group_ranks: Seq<(String, usize)>) -> nat
    decreases n,
{
    if n <= 0 {
        0
    } else {
        rank_count(members, n - 1, rank, node_ranks, group_ranks)
            + if member_rank(members[n - 1]@, node_ranks, group_ranks) == Some(rank) { 1nat } else { 0nat }
    }
}

proof fn lemma_rank_count_zero(members: Seq<String>, n: int, rank: usize, node_ranks: Seq<(String, usize)>,
    group_ranks: Seq<(String, usize)>)
    requires
        forall|k: int| 0 <= k < n ==> member_rank((#[trigger] members[k])@, node_ranks, group_ranks) != Some(rank),
    ensures
        rank_count(members, n, rank, node_ranks, group_ranks) == 0,
    decreases n,
{
    if n > 0 {
        lemma_rank_count_zero(members, n - 1, rank, node_ranks, group_ranks);
    }
}

/// The rank recorded for `key`.
fn rank_lookup(ranks: &Vec<(String, usize)>, key: &str) -> (r: Option<usize>)
    ensures
        r == first_rank(ranks@, key@, 0),
        r matches Some(d) ==> exists|i: int| 0 <= i < ranks@.len() && (#[trigger] ranks@[i]).0@ == key@
            && ranks@[i].1 == d && forall|j: int| 0 <= j < i ==> (#[trigger] ranks@[j]).0@ != key@,
        r is None ==> forall|j: int| 0 <= j < ranks@.len() ==> (#[trigger] ranks@[j]).0@ != key@,
{
    let mut i: usize = 0;
    while i < ranks.len()
        invariant
            i <= ranks@.len(),
            forall|j: int| 0 <= j < i ==> (#[trigger] ranks@[j]).0@ != key@,
            first_rank(ranks@, key@, 0) == first_rank(ranks@, key@, i as int),
        decreases ranks@.len() - i,
    {
        if str_eq(ranks[i].0.as_str(), key) {
            return Some(ranks[i].1);
        }
        i = i + 1;
    }
    None
}

/// The rank of a subgraph: the least rank of its members (resolving member subgraphs first),
/// or past every node rank where it has none; a subgraph reached again while it is being
/// resolved is a cycle.
fn resolve_group_rank(group_id: &str, groups: &Vec<FlowchartSubgraph>, node_ranks: &Vec<(String, usize)>,
    fallback_rank: usize, ranks: &mut Vec<(String, usize)>, visiting: &mut Vec<String>, depth: usize) -> (r: Result<usize>)
    requires
        1 <= depth,
    decreases MAX_SUBGRAPH_DEPTH + 1 - depth,
{
    match rank_lookup(ranks, group_id) {
        Some(rank) => return Ok(rank),
        None => {},
    }
    if depth > MAX_SUBGRAPH_DEPTH {
        return Err(MermansiError::RenderLimit { context: "flowchart subgraph depth", requested: depth, limit: MAX_SUBGRAPH_DEPTH });
    }
    if position_of(visiting, group_id).is_some() {
        return Err(layout_error(joined(&["subgraph membership cycle includes ", group_id])));
    }
    visiting.push(String::from_str(group_id));
    let group_index = match group_index_of(groups, group_id) {
        Some(index) => index,
        None => return Err(layout_error(joined(&["missing subgraph: ", group_id]))),
    };
    let members = &groups[group_index].nodes;
    let mut rank: Option<usize> = None;
    let mut m: usize = 0;
    while m < members.len()
        invariant
            m <= members@.len(),
            depth <= MAX_SUBGRAPH_DEPTH,
        decreases members@.len() - m,
    {
        let member = members[m].as_str();
        let member_rank = match rank_lookup(node_ranks, member) {
            Some(node_rank) => Some(node_rank),
            None => {
                if group_index_of(groups, member).is_some() {
                    match resolve_group_rank(member, groups, node_ranks, fallback_rank, ranks, visiting, depth + 1) {
                        Ok(r) => Some(r),
                        Err(e) => return Err(e),
                    }
                } else {
                    None
                }
            },
        };
        match member_rank {
            Some(mr) => {
                rank = match rank {
                    Some(current) => Some(if mr < current { mr } else { current }),
                    None => Some(mr),
                };
            },
            None => {},
        }
        m = m + 1;
    }
    let mut v: usize = 0;
    while v < visiting.len()
        invariant
            v <= visiting@.len(),
        decreases visiting@.len() - v,
    {
        if str_eq(visiting[v].as_str(), group_id) {
            visiting.remove(v);
        } else {
            v = v + 1;
        }
    }
    let rank = match rank {
        Some(r) => r,
        None => fallback_rank.saturating_add(group_index),
    };
    ranks.push((String::from_str(group_id), rank));
    Ok(rank)
}

fn resolve_group_ranks(groups: &Vec<FlowchartSubgraph>, node_ranks: &Vec<(String, usize)>)
    -> (r: Result<Vec<(String, usize)>>)
{
    let mut fallback_rank: usize = 0;
    let mut i: usize = 0;
    while i < node_ranks.len()
        invariant
            i <= node_ranks@.len(),
        decreases node_ranks@.len() - i,
    {
        if node_ranks[i].1 > fallback_rank {
            fallback_rank = node_ranks[i].1;
        }
        i = i + 1;
    }
    let mut ranks: Vec<(String, usize)> = Vec::new();
    let mut visiting: Vec<String> = Vec::new();
    let mut g: usize = 0;
    while g < groups.len()
        invariant
            g <= groups@.len(),
        decreases groups@.len() - g,
    {
        match resolve_group_rank(groups[g].id.as_str(), groups, node_ranks, fallback_rank, &mut ranks, &mut visiting, 1) {
            Ok(_) => {},
            Err(e) => return Err(e),
        }
        g = g + 1;
    }
    Ok(ranks)
}

/// What the tally of the first `m` members' ranks keeps: per rank seen, once, its member count.
pub open spec fn tally_ok(counts: Seq<(usize, usize)>, members: Seq<String>, m: int, node_ranks: Seq<(String, usize)>,
    group_ranks: Seq<(String, usize)>) -> bool {
    &&& forall|k: int| 0 <= k < counts.len() ==> (#[trigger] counts[k]).1 <= m
    &&& forall|a: int, b: int| 0 <= a < b < counts.len() ==> (#[trigger] counts[a]).0 != (#[trigger] counts[b]).0
    &&& forall|k: int| 0 <= k < counts.len() ==> (#[trigger] counts[k]).1
        == rank_count(members, m, counts[k].0, node_ranks, group_ranks)
    &&& forall|j: int| 0 <= j < m ==> (member_rank((#[trigger] members[j])@, node_ranks, group_ranks)
        matches Some(rk) ==> exists|k: int| 0 <= k < counts.len() && (#[trigger] counts[k]).0 == rk)
    &&& forall|k: int| 0 <= k < counts.len() ==> exists|j: int| 0 <= j < m
        && member_rank((#[trigger] members[j])@, node_ranks, group_ranks) == Some((#[trigger] counts[k]).0)
}

/// Adds member `m`, of rank `rank` (if any), to the tally.
#[verifier::spinoff_prover]
#[verifier::rlimit(60)]
fn tally_rank(counts: &mut Vec<(usize, usize)>, rank: Option<usize>, Ghost(members): Ghost<Seq<String>>,
    Ghost(node_ranks): Ghost<Seq<(String, usize)>>, Ghost(group_ranks): Ghost<Seq<(String, usize)>>, Ghost(m): Ghost<int>)
    requires
        0 <= m < members.len(),
        m < usize::MAX,
        rank == member_rank(members[m]@, node_ranks, group_ranks),
        tally_ok(old(counts)@, members, m, node_ranks, group_ranks),
    ensures
        tally_ok(final(counts)@, members, m + 1, node_ranks, group_ranks),
{
    let ghost before = counts@;
        match rank {
            Some(rank) => {
                let mut c: usize = 0;
                while c < counts.len() && counts[c].0 != rank
                    invariant
                        c <= counts@.len(),
                        forall|j: int| 0 <= j < c ==> (#[trigger] counts@[j]).0 != rank,
                    decreases counts@.len() - c,
                {
                    c = c + 1;
                }
                if c < counts.len() {
                    let bumped = (rank, counts[c].1 + 1);
                    counts.set(c, bumped);
                } else {
                    proof {
                        lemma_rank_count_zero(members, m, rank, node_ranks, group_ranks);
                    }
                    counts.push((rank, 1));
                }
                proof {
                    assert(member_rank(members[m]@, node_ranks, group_ranks) == Some(rank));
                    assert forall|a: int, b: int| 0 <= a < b < counts@.len() implies (#[trigger] counts@[a]).0
                        != (#[trigger] counts@[b]).0 by {
                        if b == before.len() {
                            assert(counts@[a] == before[a]);
                        } else if a == c {
                            assert(counts@[b] == before[b]);
                        } else if b == c {
                            assert(counts@[a] == before[a]);
                        } else {
                            assert(counts@[a] == before[a] && counts@[b] == before[b]);
                        }
                    }
                    assert forall|k: int| 0 <= k < counts@.len() implies (#[trigger] counts@[k]).1
                        == rank_count(members, m + 1, counts@[k].0, node_ranks, group_ranks) by {
                        if k < before.len() && k != c {
                            assert(counts@[k] == before[k]);
                            if k < c {
                                assert(before[k].0 != rank);
                            } else {
                                assert(before[c as int].0 == rank);
                                assert(before[k].0 != before[c as int].0);
                            }
                        } else if k == c && c < before.len() {
                            assert(counts@[k] == (rank, (before[c as int].1 + 1) as usize));
                        } else {
                            assert(counts@[k] == (rank, 1usize));
                        }
                    }
                    assert forall|j: int| 0 <= j < m + 1 implies (member_rank((#[trigger] members[j])@, node_ranks,
                        group_ranks) matches Some(rk) ==> exists|k: int| 0 <= k < counts@.len() && (#[trigger] counts@[k]).0 == rk) by {
                        if j < m {
                            if let Some(rk) = member_rank(members[j]@, node_ranks, group_ranks) {
                                let k0 = choose|k: int| 0 <= k < before.len() && (#[trigger] before[k]).0 == rk;
                                assert(counts@[k0].0 == rk);
                            }
                        } else {
                            assert(counts@[c as int].0 == rank);
                        }
                    }
                    assert forall|k: int| 0 <= k < counts@.len() implies exists|j: int| 0 <= j < m + 1
                        && member_rank((#[trigger] members[j])@, node_ranks, group_ranks) == Some((#[trigger] counts@[k]).0) by {
                        if k < before.len() {
                            assert(counts@[k].0 == before[k].0);
                            let j0 = choose|j: int| 0 <= j < m
                                && member_rank((#[trigger] members[j])@, node_ranks, group_ranks) == Some(before[k].0);
                            assert(member_rank(members[j0]@, node_ranks, group_ranks) == Some(counts@[k].0));
                        } else {
                            assert(member_rank(members[m]@, node_ranks, group_ranks) == Some(counts@[k].0));
                        }
                    }
                }
            },
            None => {
                proof {
                    assert forall|k: int| 0 <= k < counts@.len() implies (#[trigger] counts@[k]).1
                        == rank_count(members, m + 1, counts@[k].0, node_ranks, group_ranks) by {}
                }
            },
        }
    assert(forall|k: int| 0 <= k < counts@.len() ==> (#[trigger] counts@[k]).1 <= m + 1) by {
        assert forall|k: int| 0 <= k < counts@.len() implies (#[trigger] counts@[k]).1 <= m + 1 by {
            if k < before.len() { assert(before[k].1 <= m); }
        }
    }
}

/// The column count of a subgraph: one in a horizontal chart, else the most members that share
/// a rank.
#[verifier::rlimit(40)]
fn group_columns(group: &FlowchartSubgraph, direction: BoxDirection, node_ranks: &Vec<(String, usize)>,
    group_ranks: &Vec<(String, usize)>) -> (r: usize)
    ensures
        r >= 1,
        direction == BoxDirection::Lr || direction == BoxDirection::Rl ==> r == 1,
        !(direction == BoxDirection::Lr || direction == BoxDirection::Rl) ==> {
            &&& forall|m: int| 0 <= m < group.nodes@.len()
                ==> (member_rank((#[trigger] group.nodes@[m])@, node_ranks@, group_ranks@) matches Some(rk)
                    ==> r >= rank_count(group.nodes@, group.nodes@.len() as int, rk, node_ranks@, group_ranks@))
            &&& (r == 1 || exists|m: int| 0 <= m < group.nodes@.len()
                && (member_rank((#[trigger] group.nodes@[m])@, node_ranks@, group_ranks@) matches Some(rk)
                    && r == rank_count(group.nodes@, group.nodes@.len() as int, rk, node_ranks@, group_ranks@)))
        },
{
    if direction == BoxDirection::Lr || direction == BoxDirection::Rl {
        return 1;
    }
    let mut counts: Vec<(usize, usize)> = Vec::new();
    let member_count = group.nodes.len();
    let mut m: usize = 0;
    while m < group.nodes.len()
        invariant
            m <= group.nodes@.len(),
            member_count == group.nodes@.len(),
            tally_ok(counts@, group.nodes@, m as int, node_ranks@, group_ranks@),
        decreases group.nodes@.len() - m,
    {
        let member = group.nodes[m].as_str();
        let rank = match rank_lookup(node_ranks, member) {
            Some(r) => Some(r),
            None => rank_lookup(group_ranks, member),
        };
        tally_rank(&mut counts, rank, Ghost(group.nodes@), Ghost(node_ranks@), Ghost(group_ranks@), Ghost(m as int));
        m = m + 1;
    }
    let mut widest: usize = 1;
    let mut k: usize = 0;
    while k < counts.len()
        invariant
            k <= counts@.len(),
            widest >= 1,
            forall|j: int| 0 <= j < k ==> widest >= (#[trigger] counts@[j]).1,
            widest == 1 || exists|j: int| 0 <= j < k && widest == (#[trigger] counts@[j]).1,
        decreases counts@.len() - k,
    {
        if counts[k].1 > widest {
            widest = counts[k].1;
        }
        k = k + 1;
    }
    widest
}

/// The packing order of an item: its rank (counted from the far end for a bottom-to-top or
/// right-to-left chart) times the stride, plus its source order.
pub fn directional_order(rank: usize, source_order: usize, max_rank: usize, stride: usize, direction: BoxDirection) -> (r: usize)
    ensures
        ({
            let from_far_end = direction == BoxDirection::Bt || direction == BoxDirection::Rl;
            let placed: int = if from_far_end { if rank > max_rank { 0 } else { max_rank - rank } } else { rank as int };
            let scaled: int = if placed * stride > usize::MAX { usize::MAX as int } else { placed * stride };
            r == if scaled + source_order > usize::MAX { usize::MAX as int } else { scaled + source_order }
        }),
{
    let rank = if direction == BoxDirection::Bt || direction == BoxDirection::Rl { max_rank.saturating_sub(rank) } else { rank };
    box_geometry::sat_mul(rank, stride).saturating_add(source_order)
}

/// The box edge of a flowchart edge: its ends and sanitized label, the marker of its type at
/// the end (and at the start for a `double_` type), dotted where its stroke is.
fn flow_edge(edge: &FlowchartEdge, from_side: Side, to_side: Side) -> (r: BoxEdge)
    ensures
        r.from == edge.from,
        r.to == edge.to,
        r.label@ == match edge.label { Some(l) => sanitized(l@), None => seq![] },
        r.marker_end == kind_marker(edge_kind(edge.edge_type)),
        r.marker_start == if edge.edge_type matches Some(t) && occurs(t@, 0, "double_"@) {
            kind_marker(edge_kind(edge.edge_type)) } else { EdgeMarker::Absent },
        r.style == if edge.stroke matches Some(s) && s@ == "dotted"@ { EdgeStyle::Dotted } else { EdgeStyle::Solid },
        r.from_side == Some(from_side),
        r.to_side == Some(to_side),
{
    let marker = edge_marker(&edge.edge_type);
    let double = match &edge.edge_type {
        Some(t) => strip_prefix(t.as_str(), "double_").is_some(),
        None => false,
    };
    let label = match &edge.label {
        Some(l) => sanitize_label_text(l.as_str()),
        None => String::new(),
    };
    BoxEdge {
        from: edge.from.clone(),
        to: edge.to.clone(),
        label,
        marker_start: if double { marker } else { EdgeMarker::Absent },
        marker_end: marker,
        style: if opt_eq(&edge.stroke, "dotted") { EdgeStyle::Dotted } else { EdgeStyle::Solid },
        from_side: Some(from_side),
        to_side: Some(to_side),
    }
}

/// Lists every relationship under the drawing, wrapped to the width, one indented line each.
fn append_relationships(output: &mut String, edges: &Vec<BoxEdge>, max_width: usize)
    ensures
        edges@.len() == 0 ==> final(output)@ == old(output)@,
        edges@.len() > 0 ==> ({
            let head = old(output)@ + (if old(output)@.len() > 0 && old(output)@.last() == '\n' { seq![] }
                else { seq!['\n'] }) + seq!['\n'];
            &&& final(output)@.len() >= head.len() + 2 * edges@.len()
            &&& final(output)@.subrange(0, head.len() as int) == head
            &&& final(output)@.last() == '\n'
        }),
{
    if edges.len() == 0 {
        return;
    }
    proof {
        reveal_strlit("\n");
        reveal_strlit(" ");
    }
    let chars = chars_of(output.as_str());
    if chars.len() == 0 || chars[chars.len() - 1] != '\n' {
        output.append("\n");
    }
    output.append("\n");
    let ghost head = output@;
    assert(head =~= old(output)@ + (if old(output)@.len() > 0 && old(output)@.last() == '\n' { seq![] }
        else { seq!['\n'] }) + seq!['\n']);
    let width = if max_width.saturating_sub(1) > 1 { max_width.saturating_sub(1) } else { 1 };
    let mut e: usize = 0;
    while e < edges.len()
        invariant
            e <= edges@.len(),
            output@.len() >= head.len() + 2 * e,
            output@.subrange(0, head.len() as int) == head,
            output@.last() == '\n',
            head.len() > 0,
        decreases edges@.len() - e,
    {
        let text = edge_legend_text(&edges[e]);
        let lines = wrap_words(text.as_str(), width);
        let mut l: usize = 0;
        let ghost start = output@.len();
        while l < lines.len()
            invariant
                l <= lines@.len(),
                output@.len() >= start + 2 * l,
                output@.subrange(0, head.len() as int) == head,
                start >= head.len(),
                output@.last() == '\n',
                head.len() > 0,
            decreases lines@.len() - l,
        {
            let ghost before = output@;
            proof {
                reveal_strlit("\n");
                reveal_strlit(" ");
            }
            output.append(" ");
            output.append(lines[l].as_str());
            output.append("\n");
            assert(output@.subrange(0, head.len() as int) =~= before.subrange(0, head.len() as int));
            l = l + 1;
        }
        e = e + 1;
    }
}

/// Draws a flowchart with the library's box layout: subgraphs as frames, nodes in their
/// shapes, layered along the chart's direction (packed for a horizontal chart), and every
/// relationship listed under the drawing.
pub fn render_fallback(model: &Flowchart, opts: &MermansiOptions) -> (r: Result<String>)
    ensures
        model.nodes@.len() == 0 && model.subgraphs@.len() == 0 ==> (r matches Ok(s) && s@ == seq!['(', 'e', 'm', 'p',
            't', 'y', ' ', 'f', 'l', 'o', 'w', 'c', 'h', 'a', 'r', 't', ')', '\n']),
{
    if model.nodes.len() == 0 && model.subgraphs.len() == 0 {
        proof {
            reveal_strlit("(empty flowchart)\n");
        }
        return Ok(String::from_str("(empty flowchart)\n"));
    }
    let memberships = match MembershipIndex::new(&model.nodes, &model.subgraphs) {
        Ok(index) => index,
        Err(e) => return Err(e),
    };
    let direction_name = match &model.direction {
        Some(d) => d.clone(),
        None => String::from_str("TB"),
    };
    let direction = BoxDirection::from_str(direction_name.as_str());
    let (from_side, to_side) = direction.edge_sides();
    let mut edges: Vec<BoxEdge> = Vec::new();
    let mut e: usize = 0;
    while e < model.edges.len()
        invariant
            e <= model.edges@.len(),
        decreases model.edges@.len() - e,
    {
        edges.push(flow_edge(&model.edges[e], from_side, to_side));
        e = e + 1;
    }
    let mut nodes: Vec<BoxNode> = Vec::new();
    let mut n: usize = 0;
    while n < model.nodes.len()
        invariant
            n <= model.nodes@.len(),
            nodes@.len() == n,
        decreases model.nodes@.len() - n,
    {
        let node = &model.nodes[n];
        nodes.push(BoxNode {
            id: node.id.clone(),
            lines: {
                let mut lines: Vec<String> = Vec::new();
                lines.push(node_label(&node.label, node.id.as_str()));
                lines
            },
            dividers: Vec::new(),
            parent: memberships.node_parent(node.id.as_str()),
            span: 1,
            order: n,
        });
        n = n + 1;
    }
    let node_ranks = directed_ranks(&nodes, &edges);
    let group_ranks = match resolve_group_ranks(&model.subgraphs, &node_ranks) {
        Ok(ranks) => ranks,
        Err(e) => return Err(e),
    };
    let mut max_rank: usize = 0;
    let mut a: usize = 0;
    while a < node_ranks.len()
        invariant
            a <= node_ranks@.len(),
        decreases node_ranks@.len() - a,
    {
        if node_ranks[a].1 > max_rank {
            max_rank = node_ranks[a].1;
        }
        a = a + 1;
    }
    let mut b: usize = 0;
    while b < group_ranks.len()
        invariant
            b <= group_ranks@.len(),
        decreases group_ranks@.len() - b,
    {
        if group_ranks[b].1 > max_rank {
            max_rank = group_ranks[b].1;
        }
        b = b + 1;
    }
    let stride = model.nodes.len().saturating_add(model.subgraphs.len()).saturating_add(1);
    let mut remaining = nodes;
    let total = remaining.len();
    let mut ordered: Vec<BoxNode> = Vec::new();
    let mut k: usize = 0;
    while k < total
        invariant
            k <= total,
            k + remaining@.len() == total,
        decreases total - k,
    {
        let mut node = remaining.remove(0);
        let rank = match rank_lookup(&node_ranks, node.id.as_str()) {
            Some(rank) => rank,
            None => max_rank,
        };
        node.order = directional_order(rank, k, max_rank, stride, direction);
        ordered.push(node);
        k = k + 1;
    }
    let nodes = ordered;
    let mut groups: Vec<BoxGroup> = Vec::new();
    let mut g: usize = 0;
    while g < model.subgraphs.len()
        invariant
            g <= model.subgraphs@.len(),
        decreases model.subgraphs@.len() - g,
    {
        let group = &model.subgraphs[g];
        let rank = match rank_lookup(&group_ranks, group.id.as_str()) {
            Some(rank) => rank,
            None => max_rank,
        };
        let title = Some(group.title.clone());
        let mut lines: Vec<String> = Vec::new();
        lines.push(node_label(&title, group.id.as_str()));
        groups.push(BoxGroup {
            id: group.id.clone(),
            lines,
            parent: memberships.group_parent(group.id.as_str()),
            columns: Some(group_columns(group, direction, &node_ranks, &group_ranks)),
            span: 1,
            order: directional_order(rank, g, max_rank, stride, direction),
        });
        g = g + 1;
    }
    let mut root_ranks: Vec<(String, usize)> = Vec::new();
    let mut r: usize = 0;
    while r < nodes.len()
        invariant
            r <= nodes@.len(),
        decreases nodes@.len() - r,
    {
        if nodes[r].parent.is_none() {
            let rank = match rank_lookup(&node_ranks, nodes[r].id.as_str()) {
                Some(rank) => rank,
                None => max_rank,
            };
            root_ranks.push((nodes[r].id.clone(), rank));
        }
        r = r + 1;
    }
    let mut q: usize = 0;
    while q < groups.len()
        invariant
            q <= groups@.len(),
        decreases groups@.len() - q,
    {
        if groups[q].parent.is_none() {
            let rank = match rank_lookup(&group_ranks, groups[q].id.as_str()) {
                Some(rank) => rank,
                None => max_rank,
            };
            root_ranks.push((groups[q].id.clone(), rank));
        }
        q = q + 1;
    }
    let mut node_shapes: Vec<(String, BoxNodeShape)> = Vec::new();
    let mut s: usize = 0;
    while s < model.nodes.len()
        invariant
            s <= model.nodes@.len(),
        decreases model.nodes@.len() - s,
    {
        node_shapes.push((model.nodes[s].id.clone(), flow_node_shape(&model.nodes[s].layout_shape)));
        s = s + 1;
    }
    let horizontal = direction == BoxDirection::Lr || direction == BoxDirection::Rl;
    let root_columns = if horizontal { Some(if root_ranks.len() > 1 { root_ranks.len() } else { 1 }) } else { None };
    let layout = if horizontal { BoxLayout::Packed } else { BoxLayout::Layered { direction, ranks: root_ranks } };
    let mut listed: Vec<BoxEdge> = Vec::new();
    let mut c: usize = 0;
    while c < model.edges.len()
        invariant
            c <= model.edges@.len(),
        decreases model.edges@.len() - c,
    {
        listed.push(flow_edge(&model.edges[c], from_side, to_side));
        c = c + 1;
    }
    let diagram = BoxDiagram {
        family: "flowchart",
        title: None,
        nodes,
        groups,
        spacers: Vec::new(),
        edges,
        columns: root_columns,
        layout,
        edge_legend: EdgeLegend::Hidden,
    };
    let mut output = match box_geometry::render_with_node_shapes(&diagram, opts, &node_shapes) {
        Ok(text) => text,
        Err(e) => return Err(e),
    };
    append_relationships(&mut output, &listed, opts.max_width);
    Ok(output)
}

/// Whether a node has an explicit shape other than a rectangle.
pub open spec fn shaped(node: FlowchartNode) -> bool {
    node.layout_shape matches Some(s) && s@ != "squareRect"@ && s@ != "rect"@ && s@ != "rectangle"@
}

/// Whether a flowchart takes the library's box layout: it has subgraphs, a node with an
/// explicit non-rectangular shape, or a label that needs making safe for the terminal.
pub open spec fn takes_box_layout(model: Flowchart) -> bool {
    ||| model.subgraphs@.len() > 0
    ||| (exists|i: int| 0 <= i < model.nodes@.len() && shaped(#[trigger] model.nodes@[i]))
    ||| (exists|i: int| 0 <= i < model.nodes@.len() && label_changes((#[trigger] model.nodes@[i]).label))
    ||| (exists|j: int| 0 <= j < model.edges@.len() && label_changes((#[trigger] model.edges@[j]).label))
}

/// Whether a flowchart is left to the delegated drawing: it takes neither the box layout nor
/// edge lanes (it has no self-loop or parallel edge, or its lanes cannot be laid out).
pub open spec fn left_to_delegate(model: Flowchart) -> bool {
    let d = match model.direction { Some(d) => d@, None => "TB"@ };
    &&& !takes_box_layout(model)
    &&& (!lanes::needs_lanes(model.edges@) || !lanes::ids_distinct(model.nodes@) || !lanes::ends_named(model)
        || !(d == "TB"@ || d == "TD"@ || d == "BT"@ || d == "LR"@ || d == "RL"@))
}

/// Whether a flowchart takes edge lanes: it takes no box layout, has a self-loop or parallel
/// edges, and its nodes and edges form a topology laid out along a known direction.
pub open spec fn takes_lanes(model: Flowchart) -> bool {
    let d = match model.direction { Some(d) => d@, None => "TB"@ };
    &&& !takes_box_layout(model)
    &&& lanes::needs_lanes(model.edges@)
    &&& lanes::ids_distinct(model.nodes@) && lanes::ends_named(model)
    &&& (d == "TB"@ || d == "TD"@ || d == "BT"@ || d == "LR"@ || d == "RL"@)
}

/// Draws a flowchart: subgraphs, shaped nodes and labels that need making safe take the
/// library's box layout; self-loops and parallel edges take edge lanes; otherwise the terminal
/// renderer's drawing is used, and the box layout where that drawing is blank or the chart
/// uses something it cannot draw.
pub fn render_flowchart<F: FnOnce() -> Delegated>(model: &Flowchart, opts: &MermansiOptions, delegate: F)
    -> (r: Result<String>)
    requires
        call_requires(delegate, ()),
    ensures
        ({
            let items = model.nodes@.len() + model.subgraphs@.len();
            let count = if items > usize::MAX { usize::MAX } else { items as usize };
            &&& count > box_geometry::MAX_BOX_ITEMS ==> r == Err::<String, MermansiError>(MermansiError::RenderLimit {
                context: "box geometry items", requested: count, limit: box_geometry::MAX_BOX_ITEMS })
            &&& count <= box_geometry::MAX_BOX_ITEMS && model.edges@.len() > box_geometry::MAX_BOX_EDGES
                ==> r == Err::<String, MermansiError>(MermansiError::RenderLimit {
                    context: "box geometry edges", requested: model.edges@.len() as usize, limit: box_geometry::MAX_BOX_EDGES })
            &&& count <= box_geometry::MAX_BOX_ITEMS && model.edges@.len() <= box_geometry::MAX_BOX_EDGES
                && left_to_delegate(*model) ==> exists|d: Delegated| #[trigger] call_ensures(delegate, (), d)
                    && (d matches Delegated::Drawn(t) ==> (!all_white(t@) ==> r == Ok::<String, MermansiError>(t)))
                    && (d matches Delegated::Failed(e) ==> r == Err::<String, MermansiError>(e))
            &&& count <= box_geometry::MAX_BOX_ITEMS && model.edges@.len() <= box_geometry::MAX_BOX_EDGES
                && takes_lanes(*model) ==> (r matches Ok(s) ==> lanes::lanes_within(s@, *opts))
        }),
{
    match ensure_inventory(model.nodes.len().saturating_add(model.subgraphs.len()), model.edges.len()) {
        Ok(()) => {},
        Err(e) => return Err(e),
    }
    let mut has_shape = false;
    let mut i: usize = 0;
    while i < model.nodes.len()
        invariant
            i <= model.nodes@.len(),
            has_shape == exists|k: int| 0 <= k < i && shaped(#[trigger] model.nodes@[k]),
        decreases model.nodes@.len() - i,
    {
        if has_explicit_shape(&model.nodes[i]) {
            has_shape = true;
        }
        i = i + 1;
    }
    if model.subgraphs.len() > 0 || has_shape || requires_terminal_text_normalization(model) {
        return render_fallback(model, opts);
    }
    if lanes::requires_lane_geometry(model) {
        match lanes::render_lane_geometry(model, opts) {
            Ok(Some(output)) => return Ok(output),
            Ok(None) => {},
            Err(e) => return Err(e),
        }
    }
    match delegate() {
        Delegated::Drawn(text) => {
            let chars = chars_of(text.as_str());
            if is_white_line(&chars) {
                render_fallback(model, opts)
            } else {
                Ok(text)
            }
        },
        Delegated::Unsupported => render_fallback(model, opts),
        Delegated::Failed(e) => Err(e),
    }
}

} // verus!
