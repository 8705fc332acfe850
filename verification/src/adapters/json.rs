//! Raw JSON drawn as a tree of boxes: one box per value, linked from its container.

use vstd::prelude::*;
use crate::adapters::box_geometry::{
    self, BoxDiagram, BoxDirection, BoxEdge, BoxLayout, BoxNode, EdgeLegend, EdgeMarker, EdgeStyle, directed_ranks,
};
use crate::engine::{JsonShape, json_shape, json_text, json_keys, json_field, json_element};
use crate::error::{MermansiError, Result};
use crate::options::MermansiOptions;
use crate::text::{chars_of, push_char};

verus! {

/// Deepest JSON nesting drawn.
pub const MAX_JSON_DEPTH: usize = 64;
/// Most JSON values drawn.
pub const MAX_JSON_NODES: usize = 10_000;

/// The character of the decimal digit `d` (below ten).
pub open spec fn digit_char(d: nat) -> char {
    (48 + d) as char
}

/// The decimal digits of `n`, most significant first, with no leading zeros.
pub open spec fn decimal(n: nat) -> Seq<char>
    decreases n,
{
    if n < 10 {
        seq![digit_char(n)]
    } else {
        decimal(n / 10).push(digit_char(n % 10))
    }
}

/// `n` written in decimal.
pub fn decimal_text(n: usize) -> (r: String)
    ensures
        r@ == decimal(n as nat),
    decreases n,
{
    let d: u8 = (n % 10) as u8;
    let c: char = (48u8 + d) as char;
    proof {
        assert(c == digit_char((n as nat) % 10));
    }
    if n < 10 {
        let mut s = String::new();
        push_char(&mut s, c);
        proof {
            assert(s@ =~= seq![c]);
        }
        s
    } else {
        let mut s = decimal_text(n / 10);
        push_char(&mut s, c);
        s
    }
}

/// `n` written in decimal.
pub fn decimal_text_u64(n: u64) -> (r: String)
    ensures
        r@ == decimal(n as nat),
    decreases n,
{
    let d: u8 = (n % 10) as u8;
    let c: char = (48u8 + d) as char;
    proof {
        assert(c == digit_char((n as nat) % 10));
    }
    if n < 10 {
        let mut s = String::new();
        push_char(&mut s, c);
        proof {
            assert(s@ =~= seq![c]);
        }
        s
    } else {
        let mut s = decimal_text_u64(n / 10);
        push_char(&mut s, c);
        s
    }
}

/// `n` written in decimal, with a leading `-` when it is negative.
pub fn signed_decimal_text(n: i64) -> (r: String)
    ensures
        n >= 0 ==> r@ == decimal(n as nat),
        n < 0 ==> r@ == seq!['-'] + decimal((-n) as nat),
{
    if n >= 0 {
        decimal_text_u64(n as u64)
    } else {
        let magnitude: u64 = if n == i64::MIN { 9_223_372_036_854_775_808u64 } else { (-n) as u64 };
        let mut out = String::new();
        push_char(&mut out, '-');
        let digits = decimal_text_u64(magnitude);
        out.append(digits.as_str());
        proof {
            assert(out@ =~= seq!['-'] + decimal((-n) as nat));
        }
        out
    }
}

/// Whether `a` orders before `b`, character by character (the order of `String`).
pub open spec fn text_before(a: Seq<char>, b: Seq<char>) -> bool
    decreases a.len(),
{
    if a.len() == 0 {
        b.len() > 0
    } else if b.len() == 0 {
        false
    } else if a[0] != b[0] {
        (a[0] as u32) < (b[0] as u32)
    } else {
        text_before(a.drop_first(), b.drop_first())
    }
}

fn less_text(a: &String, b: &String) -> (r: bool)
    ensures
        r == text_before(a@, b@),
{
    let x = chars_of(a.as_str());
    let y = chars_of(b.as_str());
    let mut i: usize = 0;
    proof {
        assert(x@.skip(0) =~= x@);
        assert(y@.skip(0) =~= y@);
    }
    while i < x.len() && i < y.len() && x[i] == y[i]
        invariant
            x@ == a@,
            y@ == b@,
            i <= x@.len(),
            i <= y@.len(),
            text_before(a@, b@) == text_before(x@.skip(i as int), y@.skip(i as int)),
        decreases x@.len() - i,
    {
        proof {
            assert(x@.skip(i as int).drop_first() =~= x@.skip(i + 1));
            assert(y@.skip(i as int).drop_first() =~= y@.skip(i + 1));
        }
        i = i + 1;
    }
    if i == x.len() {
        return i < y.len();
    }
    if i == y.len() {
        return false;
    }
    (x[i] as u32) < (y[i] as u32)
}

proof fn lemma_text_before_irreflexive(a: Seq<char>)
    ensures
        !text_before(a, a),
    decreases a.len(),
{
    if a.len() > 0 {
        lemma_text_before_irreflexive(a.drop_first());
    }
}

proof fn lemma_text_before_transitive(a: Seq<char>, b: Seq<char>, c: Seq<char>)
    requires
        text_before(a, b),
        text_before(b, c),
    ensures
        text_before(a, c),
    decreases a.len(),
{
    if a.len() > 0 && b.len() > 0 && c.len() > 0 && a[0] == b[0] && b[0] == c[0] {
        lemma_text_before_transitive(a.drop_first(), b.drop_first(), c.drop_first());
    }
}

proof fn lemma_text_before_asymmetric(a: Seq<char>, b: Seq<char>)
    requires
        text_before(a, b),
    ensures
        !text_before(b, a),
{
    if text_before(b, a) {
        lemma_text_before_transitive(a, b, a);
        lemma_text_before_irreflexive(a);
    }
}

/// Whether no key of `keys[lo..hi]` comes before the key just ahead of it, in `String` order.
pub open spec fn keys_sorted(keys: Seq<String>, lo: int, hi: int) -> bool {
    forall|a: int| lo <= a && a + 1 < hi ==> !text_before((#[trigger] keys[a + 1])@, keys[a]@)
}

/// Sorts keys into `String` order.
fn sort_keys(keys: &mut Vec<String>)
    ensures
        final(keys)@.len() == old(keys)@.len(),
        keys_sorted(final(keys)@, 0, final(keys)@.len() as int),
        final(keys)@.to_multiset() == old(keys)@.to_multiset(),
{
    let n = keys.len();
    if n == 0 {
        return;
    }
    let mut i: usize = 1;
    while i < n
        invariant
            keys@.len() == n,
            1 <= i <= n,
            keys_sorted(keys@, 0, i as int),
            keys@.to_multiset() == old(keys)@.to_multiset(),
        decreases n - i,
    {
        let mut j = i;
        while j > 0 && less_text(&keys[j], &keys[j - 1])
            invariant
                j <= i < n,
                keys@.len() == n,
                keys@.to_multiset() == old(keys)@.to_multiset(),
                forall|a: int| 0 <= a && a + 1 <= i && a != j - 1 && a != j
                    ==> !text_before(keys@[a + 1]@, (#[trigger] keys@[a])@),
                j < i ==> text_before(keys@[j as int]@, keys@[j + 1]@),
                0 < j < i ==> !text_before(keys@[j + 1]@, keys@[j - 1]@),
            decreases j,
        {
            let ghost before = keys@;
            if j >= 2 {
                assert(!text_before(keys@[j - 1]@, keys@[j - 2]@));
            }
            let item = keys.remove(j);
            keys.insert(j - 1, item);
            proof {
                assert(keys@ =~= before.update(j - 1, before[j as int]).update(j as int, before[j - 1]));
                let m0 = before.to_multiset();
                assert(before.contains(before[j as int]));
                assert(m0.count(before[j as int]) > 0) by {
                    broadcast use vstd::seq_lib::to_multiset_contains;
                }
                vstd::seq_lib::to_multiset_remove(before, j as int);
                vstd::seq_lib::to_multiset_insert(before.remove(j as int), j - 1, before[j as int]);
                assert(before.remove(j as int).insert(j - 1, before[j as int]).to_multiset() =~= m0) by {
                    broadcast use vstd::multiset::group_multiset_axioms;
                }
                assert forall|a: int| 0 <= a && a + 1 <= i && a != j - 2 && a != j - 1
                    implies !text_before(keys@[a + 1]@, (#[trigger] keys@[a])@) by {
                    if a == j {
                        assert(keys@[a] == before[j - 1] && keys@[a + 1] == before[a + 1]);
                    } else {
                        assert(keys@[a] == before[a] && keys@[a + 1] == before[a + 1]);
                    }
                }
                if j >= 2 {
                    assert(keys@[j as int] == before[j - 1] && keys@[j - 2] == before[j - 2]);
                    assert(!text_before(before[j - 1]@, before[j - 2]@));
                }
            }
            j = j - 1;
        }
        proof {
            assert forall|a: int| 0 <= a && a + 1 < i + 1 implies !text_before((#[trigger] keys@[a + 1])@, keys@[a]@) by {
                if a == j && j < i {
                    lemma_text_before_asymmetric(keys@[j as int]@, keys@[j + 1]@);
                }
            }
        }
        i = i + 1;
    }
}

/// A one-line summary of a JSON value: its compact text for a scalar, the entry count for an
/// object or array.
fn json_summary(value: &serde_json::Value) -> (r: String)
{
    match json_shape(value) {
        JsonShape::Object(len) => {
            if len == 0 {
                String::from_str("{}")
            } else {
                let mut s = String::from_str("{} (");
                let count = decimal_text(len);
                s.append(count.as_str());
                s.append(" fields)");
                s
            }
        },
        JsonShape::Array(len) => {
            if len == 0 {
                String::from_str("[]")
            } else {
                let mut s = String::from_str("[] (");
                let count = decimal_text(len);
                s.append(count.as_str());
                s.append(" items)");
                s
            }
        },
        JsonShape::Scalar => json_text(value),
    }
}

/// Adds a box for `value` (labelled with its key or index where it has one) and boxes for
/// its members, each linked from its container; members of an object in key order. Too deep
/// a tree or too many values are refused.
fn collect_json(value: &serde_json::Value, prefix: Option<String>, parent_id: Option<&str>, depth: usize,
    nodes: &mut Vec<BoxNode>, edges: &mut Vec<BoxEdge>) -> (r: Result<()>)
    requires
        depth <= MAX_JSON_DEPTH + 1,
    ensures
        r matches Err(e) ==> e matches MermansiError::RenderLimit { context, .. }
            && (context == "json tree depth" || context == "json tree nodes"),
    decreases MAX_JSON_DEPTH + 1 - depth,
{
    if depth > MAX_JSON_DEPTH {
        return Err(MermansiError::RenderLimit { context: "json tree depth", requested: depth, limit: MAX_JSON_DEPTH });
    }
    let requested = nodes.len().saturating_add(1);
    if requested > MAX_JSON_NODES {
        return Err(MermansiError::RenderLimit { context: "json tree nodes", requested, limit: MAX_JSON_NODES });
    }
    let mut id = String::from_str("json-");
    let index_text = decimal_text(nodes.len());
    id.append(index_text.as_str());
    let summary = json_summary(value);
    let label = match prefix {
        Some(p) => {
            let mut l = p;
            l.append(": ");
            l.append(summary.as_str());
            l
        },
        None => summary,
    };
    let order = nodes.len();
    let mut lines: Vec<String> = Vec::new();
    lines.push(label);
    nodes.push(BoxNode { id: id.clone(), lines, dividers: Vec::new(), parent: None, span: 1, order });
    match parent_id {
        Some(parent) => {
            edges.push(BoxEdge {
                from: String::from_str(parent),
                to: id.clone(),
                label: String::new(),
                marker_start: EdgeMarker::Absent,
                marker_end: EdgeMarker::Arrow,
                style: EdgeStyle::Solid,
                from_side: None,
                to_side: None,
            });
        },
        None => {},
    }
    match json_shape(value) {
        JsonShape::Object(_) => {
            let mut keys = json_keys(value);
            sort_keys(&mut keys);
            let mut k: usize = 0;
            while k < keys.len()
                invariant
                    k <= keys@.len(),
                    depth <= MAX_JSON_DEPTH,
                decreases keys@.len() - k,
            {
                match json_field(value, keys[k].as_str()) {
                    Some(child) => {
                        match collect_json(child, Some(keys[k].clone()), Some(id.as_str()), depth + 1, nodes, edges) {
                            Ok(()) => {},
                            Err(e) => return Err(e),
                        }
                    },
                    None => {},
                }
                k = k + 1;
            }
        },
        JsonShape::Array(len) => {
            let mut index: usize = 0;
            while index < len
                invariant
                    index <= len,
                    depth <= MAX_JSON_DEPTH,
                decreases len - index,
            {
                match json_element(value, index) {
                    Some(child) => {
                        let mut key = String::from_str("[");
                        let digits = decimal_text(index);
                        key.append(digits.as_str());
                        key.append("]");
                        match collect_json(child, Some(key), Some(id.as_str()), depth + 1, nodes, edges) {
                            Ok(()) => {},
                            Err(e) => return Err(e),
                        }
                    },
                    None => {},
                }
                index = index + 1;
            }
        },
        JsonShape::Scalar => {},
    }
    Ok(())
}

/// Draws a JSON value as a left-to-right tree of boxes under the title `JSON`.
pub fn render_json(value: &serde_json::Value, opts: &MermansiOptions) -> (r: Result<String>)
{
    let direction = BoxDirection::Lr;
    let (from_side, to_side) = direction.edge_sides();
    let mut nodes: Vec<BoxNode> = Vec::new();
    let mut edges: Vec<BoxEdge> = Vec::new();
    match collect_json(value, None, None, 0, &mut nodes, &mut edges) {
        Ok(()) => {},
        Err(e) => return Err(e),
    }
    let mut k: usize = 0;
    while k < edges.len()
        invariant
            k <= edges@.len(),
        decreases edges@.len() - k,
    {
        let mut edge = edges.remove(k);
        edge.from_side = Some(from_side);
        edge.to_side = Some(to_side);
        edges.insert(k, edge);
        k = k + 1;
    }
    let ranks = directed_ranks(&nodes, &edges);
    let diagram = BoxDiagram {
        family: "json",
        title: Some(String::from_str("JSON")),
        nodes,
        groups: Vec::new(),
        spacers: Vec::new(),
        edges,
        columns: None,
        layout: BoxLayout::Layered { direction, ranks },
        edge_legend: EdgeLegend::Hidden,
    };
    box_geometry::render(&diagram, opts)
}

} // verus!
