//! Architecture diagram terminal geometry.
//!
//! Services and junctions are boxes inside their groups; edges carry their port directions.
//! Within each group, vertical port pairs order the members in rows (a node whose bottom port
//! meets another's top comes first), and horizontal port pairs order each row.

use vstd::prelude::*;
use crate::adapters::box_geometry::{
    self, BoxDiagram, BoxEdge, BoxGroup, BoxLayout, BoxNode, EdgeLegend, EdgeMarker, EdgeStyle, Side,
    collapse_words, collapsed, ensure_inventory, port_side, str_eq,
};
use crate::adapters::detail_separator;
use crate::error::Result;
use crate::options::{Charset, MermansiOptions};

verus! {

#[verifier::external_type_specification]
#[verifier::external_body]
pub struct ExArchitectureDiagramRenderModel(merman_core::diagrams::architecture::ArchitectureDiagramRenderModel);

#[verifier::external_type_specification]
#[verifier::external_body]
pub struct ExArchitectureRenderNode(merman_core::diagrams::architecture::ArchitectureRenderNode);

#[verifier::external_type_specification]
#[verifier::external_body]
pub struct ExArchitectureRenderGroup(merman_core::diagrams::architecture::ArchitectureRenderGroup);

#[verifier::external_type_specification]
#[verifier::external_body]
pub struct ExArchitectureRenderEdge(merman_core::diagrams::architecture::ArchitectureRenderEdge);

/// What an architecture node is.
#[derive(Clone, Copy, Debug, PartialEq, Eq, Structural)]
pub enum ArchitectureNodeKind {
    Service,
    Junction,
}

/// A service or junction.
pub struct ArchitectureNode {
    pub id: String,
    pub kind: ArchitectureNodeKind,
    pub icon: Option<String>,
    pub icon_text: Option<String>,
    pub title: Option<String>,
    pub in_group: Option<String>,
}

/// A group of services, possibly inside another group.
pub struct ArchitectureGroup {
    pub id: String,
    pub icon: Option<String>,
    pub title: Option<String>,
    pub in_group: Option<String>,
}

/// A connection between two ports (`L`, `R`, `T` or `B`), with an arrow into either end where
/// it says so.
pub struct ArchitectureEdge {
    pub lhs_id: String,
    pub lhs_dir: char,
    pub lhs_into: Option<bool>,
    pub rhs_id: String,
    pub rhs_dir: char,
    pub rhs_into: Option<bool>,
    pub title: Option<String>,
}

/// An architecture diagram.
pub struct ArchitectureDiagram {
    pub title: Option<String>,
    pub nodes: Vec<ArchitectureNode>,
    pub groups: Vec<ArchitectureGroup>,
    pub edges: Vec<ArchitectureEdge>,
}

/// The architecture model of a parsed diagram, if it is one.
#[verifier::external_body]
pub(crate) fn parsed_architecture(parsed: &merman_core::ParsedDiagramRender)
    -> (r: Option<&merman_core::diagrams::architecture::ArchitectureDiagramRenderModel>)
{
    match parsed.model() {
        merman_core::diagram::RenderSemanticModel::Architecture(model) => Some(model),
        _ => None,
    }
}

/// The `title` field of an architecture model.
#[verifier::external_body]
fn model_title(model: &merman_core::diagrams::architecture::ArchitectureDiagramRenderModel) -> (r: Option<String>)
{
    model.title.clone()
}

/// The `nodes` field of an architecture model.
#[verifier::external_body]
fn model_nodes(model: &merman_core::diagrams::architecture::ArchitectureDiagramRenderModel)
    -> (r: &Vec<merman_core::diagrams::architecture::ArchitectureRenderNode>)
{
    &model.nodes
}

/// The `groups` field of an architecture model.
#[verifier::external_body]
fn model_groups(model: &merman_core::diagrams::architecture::ArchitectureDiagramRenderModel)
    -> (r: &Vec<merman_core::diagrams::architecture::ArchitectureRenderGroup>)
{
    &model.groups
}

/// The `edges` field of an architecture model.
#[verifier::external_body]
fn model_edges(model: &merman_core::diagrams::architecture::ArchitectureDiagramRenderModel)
    -> (r: &Vec<merman_core::diagrams::architecture::ArchitectureRenderEdge>)
{
    &model.edges
}

/// A parsed node, field for field.
#[verifier::external_body]
fn node_of(node: &merman_core::diagrams::architecture::ArchitectureRenderNode) -> (r: ArchitectureNode)
{
    let kind = match node.node_type {
        merman_core::diagrams::architecture::ArchitectureRenderNodeType::Service => ArchitectureNodeKind::Service,
        merman_core::diagrams::architecture::ArchitectureRenderNodeType::Junction => ArchitectureNodeKind::Junction,
    };
    ArchitectureNode {
        id: node.id.clone(),
        kind,
        icon: node.icon.clone(),
        icon_text: node.icon_text.clone(),
        title: node.title.clone(),
        in_group: node.in_group.clone(),
    }
}

/// A parsed group, field for field.
#[verifier::external_body]
fn group_of(group: &merman_core::diagrams::architecture::ArchitectureRenderGroup) -> (r: ArchitectureGroup)
{
    ArchitectureGroup { id: group.id.clone(), icon: group.icon.clone(), title: group.title.clone(), in_group: group.in_group.clone() }
}

/// A parsed edge, field for field.
#[verifier::external_body]
fn edge_of(edge: &merman_core::diagrams::architecture::ArchitectureRenderEdge) -> (r: ArchitectureEdge)
{
    ArchitectureEdge {
        lhs_id: edge.lhs_id.clone(),
        lhs_dir: edge.lhs_dir,
        lhs_into: edge.lhs_into,
        rhs_id: edge.rhs_id.clone(),
        rhs_dir: edge.rhs_dir,
        rhs_into: edge.rhs_into,
        title: edge.title.clone(),
    }
}

/// The library's copy of a parsed architecture model.
pub(crate) fn diagram_of(model: &merman_core::diagrams::architecture::ArchitectureDiagramRenderModel)
    -> (r: ArchitectureDiagram)
{
    let parsed_nodes = model_nodes(model);
    let mut nodes: Vec<ArchitectureNode> = Vec::new();
    let mut i: usize = 0;
    while i < parsed_nodes.len()
        invariant
            i <= parsed_nodes@.len(),
        decreases parsed_nodes@.len() - i,
    {
        nodes.push(node_of(&parsed_nodes[i]));
        i = i + 1;
    }
    let parsed_groups = model_groups(model);
    let mut groups: Vec<ArchitectureGroup> = Vec::new();
    let mut j: usize = 0;
    while j < parsed_groups.len()
        invariant
            j <= parsed_groups@.len(),
        decreases parsed_groups@.len() - j,
    {
        groups.push(group_of(&parsed_groups[j]));
        j = j + 1;
    }
    let parsed_edges = model_edges(model);
    let mut edges: Vec<ArchitectureEdge> = Vec::new();
    let mut k: usize = 0;
    while k < parsed_edges.len()
        invariant
            k <= parsed_edges@.len(),
        decreases parsed_edges@.len() - k,
    {
        edges.push(edge_of(&parsed_edges[k]));
        k = k + 1;
    }
    ArchitectureDiagram { title: model_title(model), nodes, groups, edges }
}

/// The words of an optional value joined by single spaces; `None` where there are none.
/// The words of a present value joined by single spaces, where there are any.
pub open spec fn collapsed_option(value: Option<String>) -> Option<Seq<char>> {
    match value {
        Some(v) => if collapsed(v@).len() > 0 { Some(collapsed(v@)) } else { None },
        None => None,
    }
}

fn normalized_option(value: &Option<String>) -> (r: Option<String>)
    ensures
        match collapsed_option(*value) {
            Some(t) => r matches Some(s) && s@ == t,
            None => r is None,
        },
{
    match value {
        Some(v) => {
            let words = collapse_words(v.as_str());
            if words.as_str().is_empty() { None } else { Some(words) }
        },
        None => None,
    }
}

/// The separator between an id and its details.
pub open spec fn separator_text(charset: Charset) -> Seq<char> {
    match charset { Charset::Unicode => " · "@, Charset::Ascii => " - "@ }
}

/// The id, followed by the title where there is one that differs from it.
fn display_identity(id: &str, title: &Option<String>, charset: Charset) -> (r: String)
    ensures
        r@ == match collapsed_option(*title) {
            Some(t) => if t == id@ { id@ } else { id@ + separator_text(charset) + t },
            None => id@,
        },
{
    match normalized_option(title) {
        None => String::from_str(id),
        Some(t) => {
            if str_eq(t.as_str(), id) {
                String::from_str(id)
            } else {
                let mut out = String::from_str(id);
                out.append(detail_separator(charset));
                out.append(t.as_str());
                out
            }
        },
    }
}

/// The box of a node: its identity, then its kind and icon in brackets.
fn architecture_node(node: &ArchitectureNode, order: usize, charset: Charset) -> (r: BoxNode)
    ensures
        r.order == order,
        r.id@ == node.id@,
{
    let mut lines: Vec<String> = Vec::new();
    lines.push(display_identity(node.id.as_str(), &node.title, charset));
    let kind = match node.kind {
        ArchitectureNodeKind::Service => "service",
        ArchitectureNodeKind::Junction => "junction",
    };
    let icon = match normalized_option(&node.icon_text) {
        Some(text) => Some(text),
        None => normalized_option(&node.icon),
    };
    let mut detail = String::from_str("[");
    detail.append(kind);
    match icon {
        Some(icon) => {
            detail.append(detail_separator(charset));
            detail.append(icon.as_str());
        },
        None => {},
    }
    detail.append("]");
    lines.push(detail);
    BoxNode { id: node.id.clone(), lines, dividers: Vec::new(), parent: node.in_group.clone(), span: 1, order }
}

/// The box edge of a connection: its title and ports as the label, an arrow at each end that
/// points into its node, routed from and to the named ports.
fn architecture_edge(edge: &ArchitectureEdge, charset: Charset) -> (r: BoxEdge)
    ensures
        r.from == edge.lhs_id,
        r.to == edge.rhs_id,
        ({
            let ports = "ports "@ + seq![edge.lhs_dir] + " -> "@ + seq![edge.rhs_dir];
            r.label@ == match collapsed_option(edge.title) {
                Some(t) => t + separator_text(charset) + ports,
                None => ports,
            }
        }),
        r.marker_start == if edge.lhs_into == Some(true) { EdgeMarker::Arrow } else { EdgeMarker::Absent },
        r.marker_end == if edge.rhs_into == Some(true) { EdgeMarker::Arrow } else { EdgeMarker::Absent },
        r.style == EdgeStyle::Solid,
        r.from_side == port_side(edge.lhs_dir),
        r.to_side == port_side(edge.rhs_dir),
{
    let mut ports = String::from_str("ports ");
    let mut lhs = String::new();
    crate::text::push_char(&mut lhs, edge.lhs_dir);
    let mut rhs = String::new();
    crate::text::push_char(&mut rhs, edge.rhs_dir);
    ports.append(lhs.as_str());
    ports.append(" -> ");
    ports.append(rhs.as_str());
    assert(ports@ =~= "ports "@ + seq![edge.lhs_dir] + " -> "@ + seq![edge.rhs_dir]);
    let label = match normalized_option(&edge.title) {
        Some(title) => {
            let mut label = title;
            label.append(detail_separator(charset));
            label.append(ports.as_str());
            label
        },
        None => ports,
    };
    let into_lhs = match edge.lhs_into { Some(b) => b, None => false };
    let into_rhs = match edge.rhs_into { Some(b) => b, None => false };
    BoxEdge {
        from: edge.lhs_id.clone(),
        to: edge.rhs_id.clone(),
        label,
        marker_start: if into_lhs { EdgeMarker::Arrow } else { EdgeMarker::Absent },
        marker_end: if into_rhs { EdgeMarker::Arrow } else { EdgeMarker::Absent },
        style: EdgeStyle::Solid,
        from_side: Side::from_port(edge.lhs_dir),
        to_side: Side::from_port(edge.rhs_dir),
    }
}

/// `char::to_ascii_uppercase`.
pub open spec fn upper(c: char) -> char {
    if 'a' <= c <= 'z' { ((c as u32) - 32) as char } else { c }
}

fn to_upper(c: char) -> (r: char)
    ensures
        r == upper(c),
{
    if 'a' <= c && c <= 'z' {
        let b: u8 = ((c as u32) - 32) as u8;
        b as char
    } else {
        c
    }
}

/// Which end of an edge comes first in the vertical order of its group: `Some(true)` for the
/// left-hand end, `Some(false)` for the right-hand end, `None` for an edge that orders nothing.
pub open spec fn precedence(l: char, r: char) -> Option<bool> {
    let l = upper(l);
    let r = upper(r);
    if l == 'B' && r == 'T' {
        Some(true)
    } else if l == 'T' && r == 'B' {
        Some(false)
    } else if (l == 'B' && (r == 'L' || r == 'R')) || ((l == 'L' || l == 'R') && r == 'T') {
        Some(true)
    } else if (l == 'T' && (r == 'L' || r == 'R')) || ((l == 'L' || l == 'R') && r == 'B') {
        Some(false)
    } else {
        None
    }
}

pub fn vertical_precedence(lhs_dir: char, rhs_dir: char) -> (r: Option<bool>)
    ensures
        r == precedence(lhs_dir, rhs_dir),
{
    let l = to_upper(lhs_dir);
    let r = to_upper(rhs_dir);
    if l == 'B' && r == 'T' {
        Some(true)
    } else if l == 'T' && r == 'B' {
        Some(false)
    } else if (l == 'B' && (r == 'L' || r == 'R')) || ((l == 'L' || l == 'R') && r == 'T') {
        Some(true)
    } else if (l == 'T' && (r == 'L' || r == 'R')) || ((l == 'L' || l == 'R') && r == 'B') {
        Some(false)
    } else {
        None
    }
}

/// The horizontal pull of an edge on its ends: `-1` where the left-hand end sits left of the
/// right-hand one, `1` for the reverse, `0` where the ports say nothing of it.
pub open spec fn pull(l: char, r: char) -> i64 {
    let l = upper(l);
    let r = upper(r);
    if l == 'R' && r == 'L' {
        -1i64
    } else if l == 'L' && r == 'R' {
        1i64
    } else if l == 'R' || r == 'L' {
        -1i64
    } else if l == 'L' || r == 'R' {
        1i64
    } else {
        0i64
    }
}

pub fn horizontal_pull(lhs_dir: char, rhs_dir: char) -> (r: i64)
    ensures
        r == pull(lhs_dir, rhs_dir),
{
    let l = to_upper(lhs_dir);
    let r = to_upper(rhs_dir);
    if l == 'R' && r == 'L' {
        -1
    } else if l == 'L' && r == 'R' {
        1
    } else if l == 'R' || r == 'L' {
        -1
    } else if l == 'L' || r == 'R' {
        1
    } else {
        0
    }
}

/// The index of the first node with id `id`.
fn first_node(nodes: &Vec<ArchitectureNode>, id: &str) -> (r: Option<usize>)
    ensures
        match r {
            Some(i) => i < nodes@.len() && nodes@[i as int].id@ == id@
                && forall|j: int| 0 <= j < i ==> (#[trigger] nodes@[j]).id@ != id@,
            None => forall|j: int| 0 <= j < nodes@.len() ==> (#[trigger] nodes@[j]).id@ != id@,
        },
{
    let mut i: usize = 0;
    while i < nodes.len()
        invariant
            i <= nodes@.len(),
            forall|j: int| 0 <= j < i ==> (#[trigger] nodes@[j]).id@ != id@,
        decreases nodes@.len() - i,
    {
        if str_eq(nodes[i].id.as_str(), id) {
            return Some(i);
        }
        i = i + 1;
    }
    None
}

/// The horizontal score of each node id, kept at the first node with that id: the sum of the
/// pulls of the edges that end there (added at the left-hand end, subtracted at the
/// right-hand end).
fn horizontal_port_scores(nodes: &Vec<ArchitectureNode>, edges: &Vec<ArchitectureEdge>) -> (r: Vec<i64>)
    requires
        edges@.len() <= box_geometry::MAX_BOX_EDGES,
    ensures
        r@.len() == nodes@.len(),
{
    let mut scores: Vec<i64> = Vec::new();
    let mut i: usize = 0;
    while i < nodes.len()
        invariant
            i <= nodes@.len(),
            scores@.len() == i,
            forall|j: int| 0 <= j < i ==> scores@[j] == 0,
        decreases nodes@.len() - i,
    {
        scores.push(0);
        i = i + 1;
    }
    let mut e: usize = 0;
    while e < edges.len()
        invariant
            e <= edges@.len(),
            edges@.len() <= box_geometry::MAX_BOX_EDGES,
            scores@.len() == nodes@.len(),
            forall|j: int| 0 <= j < scores@.len() ==> -2 * (e as int) <= #[trigger] scores@[j] <= 2 * (e as int),
        decreases edges@.len() - e,
    {
        let direction = horizontal_pull(edges[e].lhs_dir, edges[e].rhs_dir);
        if direction != 0 {
            match first_node(nodes, edges[e].lhs_id.as_str()) {
                Some(k) => {
                    let v = scores[k] + direction;
                    scores.set(k, v);
                },
                None => {},
            }
            match first_node(nodes, edges[e].rhs_id.as_str()) {
                Some(k) => {
                    let v = scores[k] - direction;
                    scores.set(k, v);
                },
                None => {},
            }
        }
        e = e + 1;
    }
    scores
}

/// Whether `(layer, score, source)` orders strictly before `(layer2, score2, source2)`.
pub open spec fn key_before(a: (usize, i64, usize), b: (usize, i64, usize)) -> bool {
    a.0 < b.0 || (a.0 == b.0 && (a.1 < b.1 || (a.1 == b.1 && a.2 < b.2)))
}

fn key_less(a: (usize, i64, usize), b: (usize, i64, usize)) -> (r: bool)
    ensures
        r == key_before(a, b),
{
    a.0 < b.0 || (a.0 == b.0 && (a.1 < b.1 || (a.1 == b.1 && a.2 < b.2)))
}

/// Sorts rows by key (insertion sort by adjacent swaps).
fn sort_rows(rows: &mut Vec<(usize, i64, usize)>, bound: usize)
    requires
        forall|i: int| 0 <= i < old(rows)@.len() ==> (#[trigger] old(rows)@[i]).2 < bound,
    ensures
        final(rows)@.len() == old(rows)@.len(),
        forall|i: int| 0 <= i < final(rows)@.len() ==> (#[trigger] final(rows)@[i]).2 < bound,
        forall|i: int, j: int| 0 <= i < j < final(rows)@.len() ==> !key_before(final(rows)@[j], final(rows)@[i]),
{
    let n = rows.len();
    if n == 0 {
        return;
    }
    let mut i: usize = 1;
    while i < n
        invariant
            1 <= i <= n,
            rows@.len() == n,
            forall|k: int| 0 <= k < n ==> (#[trigger] rows@[k]).2 < bound,
            forall|a: int, b: int| 0 <= a < b < i ==> !key_before(rows@[b], rows@[a]),
        decreases n - i,
    {
        let mut j = i;
        while j > 0 && key_less(rows[j], rows[j - 1])
            invariant
                0 <= j <= i < n,
                rows@.len() == n,
                forall|k: int| 0 <= k < n ==> (#[trigger] rows@[k]).2 < bound,
                forall|a: int, b: int| 0 <= a < b <= i && a != j && b != j ==> !key_before(rows@[b], rows@[a]),
                forall|b: int| j < b <= i ==> key_before(rows@[j as int], #[trigger] rows@[b]),
            decreases j,
        {
            let x = rows[j];
            let y = rows[j - 1];
            rows.set(j, y);
            rows.set(j - 1, x);
            j = j - 1;
        }
        proof {
            assert forall|a: int, b: int| 0 <= a < b <= i implies !key_before(rows@[b], rows@[a]) by {
                if b == j as int && a < j - 1 {
                    assert(!key_before(rows@[j - 1], rows@[a]));
                    assert(!key_before(rows@[j as int], rows@[j - 1]));
                } else if b == j as int {
                    assert(!key_before(rows@[j as int], rows@[j - 1]));
                } else if a == j as int {
                    assert(key_before(rows@[j as int], rows@[b]));
                }
            }
        }
        i = i + 1;
    }
}

/// The layer of each member from a longest-path pass over the precedence links of one group
/// (members taken in order among those whose predecessors are done); all `0` where the links
/// form a cycle.
fn partition_layers(adjacency: &Vec<Vec<usize>>, indegree: Vec<usize>) -> (r: Vec<usize>)
    requires
        indegree@.len() == adjacency@.len(),
        forall|i: int, j: int| 0 <= i < adjacency@.len() && 0 <= j < adjacency@[i]@.len()
            ==> #[trigger] adjacency@[i]@[j] < adjacency@.len(),
    ensures
        r@.len() == adjacency@.len(),
{
    let n = adjacency.len();
    let mut indegree = indegree;
    let mut layer: Vec<usize> = Vec::new();
    let mut queued: Vec<bool> = Vec::new();
    let mut popped: Vec<bool> = Vec::new();
    let mut k: usize = 0;
    while k < n
        invariant
            k <= n,
            n == adjacency@.len(),
            indegree@.len() == n,
            layer@.len() == k,
            queued@.len() == k,
            popped@.len() == k,
        decreases n - k,
    {
        layer.push(0);
        queued.push(indegree[k] == 0);
        popped.push(false);
        k = k + 1;
    }
    let mut processed: usize = 0;
    while processed < n
        invariant
            processed <= n,
            n == adjacency@.len(),
            indegree@.len() == n,
            layer@.len() == n,
            queued@.len() == n,
            popped@.len() == n,
            forall|i: int, j: int| 0 <= i < adjacency@.len() && 0 <= j < adjacency@[i]@.len()
                ==> #[trigger] adjacency@[i]@[j] < adjacency@.len(),
        decreases n - processed,
    {
        let mut current = n;
        let mut c: usize = 0;
        while c < n
            invariant
                c <= n,
                current <= n,
                queued@.len() == n,
                popped@.len() == n,
            decreases n - c,
        {
            if queued[c] && !popped[c] {
                current = c;
                break;
            }
            c = c + 1;
        }
        if current == n {
            break;
        }
        popped.set(current, true);
        processed = processed + 1;
        let next = &adjacency[current];
        let mut t: usize = 0;
        while t < next.len()
            invariant
                t <= next@.len(),
                current < n,
                n == adjacency@.len(),
                next@ == adjacency@[current as int]@,
                indegree@.len() == n,
                layer@.len() == n,
                queued@.len() == n,
                popped@.len() == n,
                forall|i: int, j: int| 0 <= i < adjacency@.len() && 0 <= j < adjacency@[i]@.len()
                    ==> #[trigger] adjacency@[i]@[j] < adjacency@.len(),
            decreases next@.len() - t,
        {
            let neighbor = next[t];
            let candidate = layer[current].saturating_add(1);
            if candidate > layer[neighbor] {
                layer.set(neighbor, candidate);
            }
            if indegree[neighbor] > 0 {
                let d = indegree[neighbor] - 1;
                indegree.set(neighbor, d);
                if d == 0 {
                    queued.set(neighbor, true);
                }
            }
            t = t + 1;
        }
    }
    if processed != n {
        let mut z: usize = 0;
        while z < n
            invariant
                z <= n,
                layer@.len() == n,
            decreases n - z,
        {
            layer.set(z, 0);
            z = z + 1;
        }
    }
    layer
}

/// The value last recorded for `key`.
fn last_value(pairs: &Vec<(String, usize)>, key: &str) -> (r: Option<usize>)
    ensures
        r matches Some(v) ==> exists|i: int| 0 <= i < pairs@.len() && (#[trigger] pairs@[i]).0@ == key@
            && pairs@[i].1 == v && forall|j: int| i < j < pairs@.len() ==> (#[trigger] pairs@[j]).0@ != key@,
        r is None ==> forall|j: int| 0 <= j < pairs@.len() ==> (#[trigger] pairs@[j]).0@ != key@,
{
    let mut i = pairs.len();
    while i > 0
        invariant
            i <= pairs@.len(),
            forall|j: int| i <= j < pairs@.len() ==> (#[trigger] pairs@[j]).0@ != key@,
        decreases i,
    {
        if str_eq(pairs[i - 1].0.as_str(), key) {
            return Some(pairs[i - 1].1);
        }
        i = i - 1;
    }
    None
}

/// Whether two optional group names are the same.
fn same_parent(a: &Option<String>, b: &Option<String>) -> (r: bool)
    ensures
        r == (match (a, b) {
            (Some(x), Some(y)) => x@ == y@,
            (None, None) => true,
            _ => false,
        }),
{
    match (a, b) {
        (Some(x), Some(y)) => str_eq(x.as_str(), y.as_str()),
        (None, None) => true,
        _ => false,
    }
}

/// The placement of the nodes: each node's order (from `order_base` on, group by group in the
/// order groups first appear, row by row, each row by horizontal score then source order),
/// and the column count of each group (`""` for the top level) whose members fill more than
/// one row.
fn architecture_layout(model: &ArchitectureDiagram, order_base: usize) -> (r: (Vec<(String, usize)>, Vec<(String, usize)>))
    requires
        model.edges@.len() <= box_geometry::MAX_BOX_EDGES,
        order_base + model.nodes@.len() <= usize::MAX,
{
    let nodes = &model.nodes;
    let edges = &model.edges;
    let scores = horizontal_port_scores(nodes, edges);
    // The groups in order of first appearance, with their members' node indices.
    let mut parents: Vec<Option<String>> = Vec::new();
    let mut members: Vec<Vec<usize>> = Vec::new();
    let mut i: usize = 0;
    while i < nodes.len()
        invariant
            i <= nodes@.len(),
            parents@.len() == members@.len(),
            forall|p: int, m: int| 0 <= p < members@.len() && 0 <= m < members@[p]@.len()
                ==> #[trigger] members@[p]@[m] < nodes@.len(),
        decreases nodes@.len() - i,
    {
        let mut p: usize = 0;
        let mut found = members.len();
        while p < parents.len()
            invariant
                i < nodes@.len(),
                p <= parents@.len(),
                parents@.len() == members@.len(),
                found <= members@.len(),
            decreases parents@.len() - p,
        {
            if same_parent(&parents[p], &nodes[i].in_group) {
                found = p;
                break;
            }
            p = p + 1;
        }
        if found == members.len() {
            parents.push(nodes[i].in_group.clone());
            members.push(Vec::new());
        }
        let mut list = members.remove(found);
        list.push(i);
        members.insert(found, list);
        i = i + 1;
    }
    // Precedence links within each group, once per ordered pair.
    let mut adjacency: Vec<Vec<Vec<usize>>> = Vec::new();
    let mut indegrees: Vec<Vec<usize>> = Vec::new();
    let mut p: usize = 0;
    while p < members.len()
        invariant
            p <= members@.len(),
            adjacency@.len() == p,
            indegrees@.len() == p,
            forall|q: int| 0 <= q < p ==> (#[trigger] adjacency@[q])@.len() == members@[q]@.len()
                && indegrees@[q]@.len() == members@[q]@.len()
                && forall|a: int, b: int| 0 <= a < adjacency@[q]@.len() && 0 <= b < adjacency@[q]@[a]@.len()
                    ==> #[trigger] adjacency@[q]@[a]@[b] < members@[q]@.len(),
            forall|q: int, a: int| 0 <= q < p && 0 <= a < indegrees@[q]@.len() ==> #[trigger] indegrees@[q]@[a] == 0,
        decreases members@.len() - p,
    {
        let mut adj: Vec<Vec<usize>> = Vec::new();
        let mut deg: Vec<usize> = Vec::new();
        let mut m: usize = 0;
        while m < members[p].len()
            invariant
                p < members@.len(),
                m <= members@[p as int]@.len(),
                adj@.len() == m,
                deg@.len() == m,
                forall|a: int| 0 <= a < m ==> (#[trigger] adj@[a])@.len() == 0,
                forall|a: int| 0 <= a < m ==> #[trigger] deg@[a] == 0,
            decreases members@[p as int]@.len() - m,
        {
            adj.push(Vec::new());
            deg.push(0);
            m = m + 1;
        }
        adjacency.push(adj);
        indegrees.push(deg);
        p = p + 1;
    }
    let mut seen: Vec<(usize, usize, usize)> = Vec::new();
    let mut e: usize = 0;
    while e < edges.len()
        invariant
            e <= edges@.len(),
            edges@.len() <= box_geometry::MAX_BOX_EDGES,
            adjacency@.len() == members@.len(),
            indegrees@.len() == members@.len(),
            seen@.len() <= e,
            forall|pp: int, mm: int| 0 <= pp < members@.len() && 0 <= mm < members@[pp]@.len()
                ==> #[trigger] members@[pp]@[mm] < nodes@.len(),
            graph_shape(adjacency@, indegrees@, members@),
            forall|q: int, a: int| 0 <= q < indegrees@.len() && 0 <= a < indegrees@[q]@.len()
                ==> #[trigger] indegrees@[q]@[a] <= e,
        decreases edges@.len() - e,
    {
        let pair = match vertical_precedence(edges[e].lhs_dir, edges[e].rhs_dir) {
            Some(true) => Some((edges[e].lhs_id.as_str(), edges[e].rhs_id.as_str())),
            Some(false) => Some((edges[e].rhs_id.as_str(), edges[e].lhs_id.as_str())),
            None => None,
        };
        match pair {
            Some((before_id, after_id)) => {
                let before_at = locate(nodes, &members, before_id);
                let after_at = locate(nodes, &members, after_id);
                match (before_at, after_at) {
                    (Some((bp, before)), Some((ap, after))) => {
                        if bp == ap && before != after && !contains_triple(&seen, (bp, before, after)) {
                            seen.push((bp, before, after));
                            add_precedence(&mut adjacency, &mut indegrees, &members, bp, before, after, e);
                        }
                    },
                    _ => {},
                }
            },
            None => {},
        }
        e = e + 1;
    }
    let mut orders: Vec<(String, usize)> = Vec::new();
    let mut columns: Vec<(String, usize)> = Vec::new();
    let mut next_order: usize = order_base;
    let mut q: usize = 0;
    while q < members.len()
        invariant
            q <= members@.len(),
            adjacency@.len() == members@.len(),
            indegrees@.len() == members@.len(),
            parents@.len() == members@.len(),
            scores@.len() == nodes@.len(),
            forall|z: int| 0 <= z < members@.len() ==> (#[trigger] adjacency@[z])@.len() == members@[z]@.len()
                && indegrees@[z]@.len() == members@[z]@.len()
                && forall|a: int, b: int| 0 <= a < adjacency@[z]@.len() && 0 <= b < adjacency@[z]@[a]@.len()
                    ==> #[trigger] adjacency@[z]@[a]@[b] < members@[z]@.len(),
            forall|z: int, m: int| 0 <= z < members@.len() && 0 <= m < members@[z]@.len()
                ==> #[trigger] members@[z]@[m] < nodes@.len(),
            order_base <= next_order,
            next_order <= order_base + orders@.len(),
            orders@.len() <= nodes@.len(),
            order_base + nodes@.len() <= usize::MAX,
        decreases members@.len() - q,
    {
        let group = &members[q];
        let layers = partition_layers(&adjacency[q], indegrees[q].clone());
        let mut rows: Vec<(usize, i64, usize)> = Vec::new();
        let mut m: usize = 0;
        while m < group.len()
            invariant
                q < members@.len(),
                m <= group@.len(),
                group@ == members@[q as int]@,
                layers@.len() == group@.len(),
                rows@.len() == m,
                scores@.len() == nodes@.len(),
                forall|mm: int| 0 <= mm < group@.len() ==> #[trigger] group@[mm] < nodes@.len(),
                forall|r: int| 0 <= r < m ==> (#[trigger] rows@[r]).2 < nodes@.len(),
            decreases group@.len() - m,
        {
            let node_index = group[m];
            rows.push((layers[m], scores[node_index], node_index));
            m = m + 1;
        }
        sort_rows(&mut rows, nodes.len());
        let mut distinct_rows: usize = 0;
        let mut widest: usize = 0;
        let mut run: usize = 0;
        let mut r: usize = 0;
        while r < rows.len()
            invariant
                r <= rows@.len(),
                run <= r,
                distinct_rows <= r,
                widest <= r,
                orders@.len() <= nodes@.len(),
                forall|x: int| 0 <= x < rows@.len() ==> (#[trigger] rows@[x]).2 < nodes@.len(),
                order_base <= next_order,
                next_order <= order_base + orders@.len(),
                order_base + nodes@.len() <= usize::MAX,
            decreases rows@.len() - r,
        {
            if r == 0 || rows[r].0 != rows[r - 1].0 {
                distinct_rows = distinct_rows + 1;
                run = 1;
            } else {
                run = run + 1;
            }
            if run > widest {
                widest = run;
            }
            if orders.len() < nodes.len() {
                orders.push((nodes[rows[r].2].id.clone(), next_order));
                next_order = next_order + 1;
            }
            r = r + 1;
        }
        if distinct_rows > 1 {
            let key = match &parents[q] {
                Some(name) => name.clone(),
                None => String::new(),
            };
            let width = if widest > 1 { widest } else { 1 };
            columns.push((key, width));
        }
        q = q + 1;
    }
    (orders, columns)
}

/// The group (its index in `members`) and position within it of the first node, taken group
/// The precedence graph fits its groups: one successor list and one indegree per member, and
/// every successor a member of the same group.
spec fn graph_shape(adjacency: Seq<Vec<Vec<usize>>>, indegrees: Seq<Vec<usize>>, members: Seq<Vec<usize>>) -> bool {
    &&& adjacency.len() == members.len()
    &&& indegrees.len() == members.len()
    &&& forall|q: int| 0 <= q < members.len() ==> (#[trigger] adjacency[q])@.len() == members[q]@.len()
        && indegrees[q]@.len() == members[q]@.len()
        && forall|a: int, b: int| 0 <= a < adjacency[q]@.len() && 0 <= b < adjacency[q]@[a]@.len()
            ==> #[trigger] adjacency[q]@[a]@[b] < members[q]@.len()
}

/// Records that member `before` of group `group` comes before member `after`: `after` joins
/// the successors of `before`, and its indegree grows by one.
#[verifier::spinoff_prover]
fn add_precedence(adjacency: &mut Vec<Vec<Vec<usize>>>, indegrees: &mut Vec<Vec<usize>>, members: &Vec<Vec<usize>>,
    group: usize, before: usize, after: usize, bound: usize)
    requires
        graph_shape(old(adjacency)@, old(indegrees)@, members@),
        group < members@.len(),
        before < members@[group as int]@.len(),
        after < members@[group as int]@.len(),
        bound < usize::MAX,
        forall|q: int, a: int| 0 <= q < old(indegrees)@.len() && 0 <= a < old(indegrees)@[q]@.len()
            ==> #[trigger] old(indegrees)@[q]@[a] <= bound,
    ensures
        graph_shape(final(adjacency)@, final(indegrees)@, members@),
        forall|q: int, a: int| 0 <= q < final(indegrees)@.len() && 0 <= a < final(indegrees)@[q]@.len()
            ==> #[trigger] final(indegrees)@[q]@[a] <= bound + 1,
        final(adjacency)@.len() == old(adjacency)@.len(),
        forall|q: int| 0 <= q < old(adjacency)@.len() && q != group ==> #[trigger] final(adjacency)@[q] == old(adjacency)@[q],
        final(adjacency)@[group as int]@.len() == old(adjacency)@[group as int]@.len(),
        forall|a: int| 0 <= a < old(adjacency)@[group as int]@.len() && a != before
            ==> #[trigger] final(adjacency)@[group as int]@[a] == old(adjacency)@[group as int]@[a],
        final(adjacency)@[group as int]@[before as int]@ == old(adjacency)@[group as int]@[before as int]@.push(after),
        final(indegrees)@.len() == old(indegrees)@.len(),
        forall|q: int| 0 <= q < old(indegrees)@.len() && q != group ==> #[trigger] final(indegrees)@[q] == old(indegrees)@[q],
        final(indegrees)@[group as int]@ == old(indegrees)@[group as int]@.update(after as int,
            (old(indegrees)@[group as int]@[after as int] + 1) as usize),
{
    let ghost old_adj = adjacency@;
    let ghost old_deg = indegrees@;
    let mut adj = adjacency.remove(group);
    let mut list = adj.remove(before);
    list.push(after);
    adj.insert(before, list);
    adjacency.insert(group, adj);
    let mut deg = indegrees.remove(group);
    let d = deg[after] + 1;
    deg.set(after, d);
    indegrees.insert(group, deg);
    proof {
        assert(adjacency@ =~= old_adj.update(group as int, adjacency@[group as int]));
        assert(indegrees@ =~= old_deg.update(group as int, indegrees@[group as int]));
        let g = group as int;
        assert(adjacency@[g]@ =~= old_adj[g]@.update(before as int, adjacency@[g]@[before as int]));
        assert(adjacency@[g]@[before as int]@ =~= old_adj[g]@[before as int]@.push(after));
        assert(indegrees@[g]@ =~= old_deg[g]@.update(after as int, (old_deg[g]@[after as int] + 1) as usize));
        assert forall|q: int| 0 <= q < members@.len() implies (#[trigger] adjacency@[q])@.len() == members@[q]@.len()
            && indegrees@[q]@.len() == members@[q]@.len()
            && forall|a: int, b: int| 0 <= a < adjacency@[q]@.len() && 0 <= b < adjacency@[q]@[a]@.len()
                ==> #[trigger] adjacency@[q]@[a]@[b] < members@[q]@.len() by {
            if q == g {
                assert forall|a: int, b: int| 0 <= a < adjacency@[q]@.len() && 0 <= b < adjacency@[q]@[a]@.len()
                    implies #[trigger] adjacency@[q]@[a]@[b] < members@[q]@.len() by {
                    if a == before as int {
                        if b < old_adj[g]@[a]@.len() {
                            assert(adjacency@[q]@[a]@[b] == old_adj[g]@[a]@[b]);
                        }
                    } else {
                        assert(adjacency@[q]@[a] == old_adj[g]@[a]);
                    }
                }
            } else {
                assert(adjacency@[q] == old_adj[q]);
                assert(indegrees@[q] == old_deg[q]);
            }
        }
        assert forall|q: int, a: int| 0 <= q < indegrees@.len() && 0 <= a < indegrees@[q]@.len()
            implies #[trigger] indegrees@[q]@[a] <= bound + 1 by {
            if q == g {
                if a != after as int {
                    assert(indegrees@[q]@[a] == old_deg[g]@[a]);
                }
            } else {
                assert(indegrees@[q] == old_deg[q]);
            }
        }
    }
}

/// by group, whose id is `id`.
fn locate(nodes: &Vec<ArchitectureNode>, members: &Vec<Vec<usize>>, id: &str) -> (r: Option<(usize, usize)>)
    requires
        forall|p: int, m: int| 0 <= p < members@.len() && 0 <= m < members@[p]@.len()
            ==> #[trigger] members@[p]@[m] < nodes@.len(),
    ensures
        r matches Some((p, m)) ==> p < members@.len() && m < members@[p as int]@.len()
            && nodes@[members@[p as int]@[m as int] as int].id@ == id@
            && (forall|pp: int, mm: int| 0 <= pp < p && 0 <= mm < members@[pp]@.len()
                ==> nodes@[#[trigger] members@[pp]@[mm] as int].id@ != id@)
            && (forall|mm: int| 0 <= mm < m ==> nodes@[#[trigger] members@[p as int]@[mm] as int].id@ != id@),
        r is None ==> forall|pp: int, mm: int| 0 <= pp < members@.len() && 0 <= mm < members@[pp]@.len()
            ==> nodes@[#[trigger] members@[pp]@[mm] as int].id@ != id@,
{
    let mut p: usize = 0;
    while p < members.len()
        invariant
            p <= members@.len(),
            forall|pp: int, m: int| 0 <= pp < members@.len() && 0 <= m < members@[pp]@.len()
                ==> #[trigger] members@[pp]@[m] < nodes@.len(),
            forall|pp: int, mm: int| 0 <= pp < p && 0 <= mm < members@[pp]@.len()
                ==> nodes@[#[trigger] members@[pp]@[mm] as int].id@ != id@,
        decreases members@.len() - p,
    {
        let group = &members[p];
        let mut m: usize = 0;
        while m < group.len()
            invariant
                p < members@.len(),
                m <= group@.len(),
                group@ == members@[p as int]@,
                forall|mm: int| 0 <= mm < group@.len() ==> #[trigger] group@[mm] < nodes@.len(),
                forall|pp: int, mm: int| 0 <= pp < p && 0 <= mm < members@[pp]@.len()
                    ==> nodes@[#[trigger] members@[pp]@[mm] as int].id@ != id@,
                forall|mm: int| 0 <= mm < m ==> nodes@[#[trigger] members@[p as int]@[mm] as int].id@ != id@,
            decreases group@.len() - m,
        {
            if str_eq(nodes[group[m]].id.as_str(), id) {
                return Some((p, m));
            }
            m = m + 1;
        }
        p = p + 1;
    }
    None
}

fn contains_triple(seen: &Vec<(usize, usize, usize)>, t: (usize, usize, usize)) -> (r: bool)
    ensures
        r == seen@.contains(t),
{
    let mut i: usize = 0;
    while i < seen.len()
        invariant
            i <= seen@.len(),
            forall|j: int| 0 <= j < i ==> seen@[j] != t,
        decreases seen@.len() - i,
    {
        if seen[i].0 == t.0 && seen[i].1 == t.1 && seen[i].2 == t.2 {
            return true;
        }
        i = i + 1;
    }
    false
}

/// Draws an architecture diagram: groups as frames, services and junctions as boxes ordered by
/// their ports, every connection with its ports in the legend.
pub fn render_architecture(model: &ArchitectureDiagram, opts: &MermansiOptions) -> (r: Result<String>)
    ensures
        ({
            let items = model.groups@.len() + model.nodes@.len();
            let count = if items > usize::MAX { usize::MAX } else { items as usize };
            &&& count > box_geometry::MAX_BOX_ITEMS ==> r == Err::<String, crate::error::MermansiError>(
                crate::error::MermansiError::RenderLimit { context: "box geometry items", requested: count,
                    limit: box_geometry::MAX_BOX_ITEMS })
            &&& count <= box_geometry::MAX_BOX_ITEMS && model.edges@.len() > box_geometry::MAX_BOX_EDGES
                ==> r == Err::<String, crate::error::MermansiError>(crate::error::MermansiError::RenderLimit {
                    context: "box geometry edges", requested: model.edges@.len() as usize,
                    limit: box_geometry::MAX_BOX_EDGES })
        }),
{
    match ensure_inventory(model.groups.len().saturating_add(model.nodes.len()), model.edges.len()) {
        Ok(()) => {},
        Err(e) => return Err(e),
    }
    let node_order = model.groups.len();
    let (orders, columns) = architecture_layout(model, node_order);
    let mut groups: Vec<BoxGroup> = Vec::new();
    let mut g: usize = 0;
    while g < model.groups.len()
        invariant
            g <= model.groups@.len(),
        decreases model.groups@.len() - g,
    {
        let group = &model.groups[g];
        let mut lines: Vec<String> = Vec::new();
        lines.push(display_identity(group.id.as_str(), &group.title, opts.charset));
        match normalized_option(&group.icon) {
            Some(icon) => {
                let mut line = String::from_str("[");
                line.append(icon.as_str());
                line.append("]");
                lines.push(line);
            },
            None => {},
        }
        groups.push(BoxGroup {
            id: group.id.clone(),
            lines,
            parent: group.in_group.clone(),
            columns: last_value(&columns, group.id.as_str()),
            span: 1,
            order: g,
        });
        g = g + 1;
    }
    let mut nodes: Vec<BoxNode> = Vec::new();
    let mut n: usize = 0;
    while n < model.nodes.len()
        invariant
            n <= model.nodes@.len(),
        decreases model.nodes@.len() - n,
    {
        let node = &model.nodes[n];
        let order = match last_value(&orders, node.id.as_str()) {
            Some(order) => order,
            None => node_order,
        };
        nodes.push(architecture_node(node, order, opts.charset));
        n = n + 1;
    }
    let mut edges: Vec<BoxEdge> = Vec::new();
    let mut e: usize = 0;
    while e < model.edges.len()
        invariant
            e <= model.edges@.len(),
        decreases model.edges@.len() - e,
    {
        edges.push(architecture_edge(&model.edges[e], opts.charset));
        e = e + 1;
    }
    let title = match &model.title {
        Some(title) => title.clone(),
        None => String::from_str("Architecture"),
    };
    let diagram = BoxDiagram {
        family: "architecture",
        title: Some(title),
        nodes,
        groups,
        spacers: Vec::new(),
        edges,
        columns: last_value(&columns, ""),
        layout: BoxLayout::Packed,
        edge_legend: EdgeLegend::All,
    };
    box_geometry::render(&diagram, opts)
}

} // verus!
