//! Treemap terminal geometry.
//!
//! A deterministic slice-and-dice layout draws every node as a closed rectangle nested inside
//! its parent: siblings split the longer side of their parent, each keeping a minimum span,
//! and the spare cells go to them by weight. Labels that do not fit receive connected,
//! deterministic callout numbers listed after the chart.

use vstd::prelude::*;
use crate::adapters::box_geometry::{sat_mul, Rect};
use crate::adapters::chart_primitives::{checked_chart_dimensions, is_white_line, render_cropped_canvas};
use crate::adapters::json::decimal_text;
use crate::adapters::ishikawa::marker_text;
use crate::ansi::sanitized;
use crate::canvas::text_placed;
use crate::text::unicode_str_width;
use crate::ansi::sanitize_label_text;
use crate::canvas::{all_white, draw_box, str_display_width, Canvas};
use crate::error::{MermansiError, Result};
use crate::options::MermansiOptions;
use crate::text::{chars_of, graphemes, str_width};

verus! {

/// Most nodes drawn.
pub const MAX_TREEMAP_NODES: usize = 4096;
/// Deepest nesting drawn (the root is at depth 0).
pub const MAX_TREEMAP_DEPTH: usize = 64;
/// Narrowest treemap canvas.
pub const MIN_CANVAS_WIDTH: usize = 28;
/// Lowest treemap canvas.
pub const MIN_CANVAS_HEIGHT: usize = 10;
const MIN_CHILD_WIDTH: usize = 4;
const MIN_CHILD_HEIGHT: usize = 3;

/// A treemap node: the key its weight is asked by, its name, the text of its value, its class,
/// its compiled styles and its children.
pub struct TreemapNode {
    pub id: usize,
    pub name: String,
    pub value: Option<String>,
    pub class_selector: Option<String>,
    pub styles: Option<Vec<String>>,
    pub children: Vec<TreemapNode>,
}

/// A treemap: its title and root node.
pub struct Treemap {
    pub title: Option<String>,
    pub root: TreemapNode,
}

/// The spans of `count` siblings sharing `total` cells: each gets `minimum`, and the spare
/// cells are dealt by `share` (asked with a sibling's key and the spare count), the last
/// sibling taking what is left. `None` where the minimums do not fit.
fn partition_spans<F: Fn(usize, usize) -> usize>(total: usize, nodes: &Vec<TreemapNode>, minimum: usize, share: &F)
    -> (r: Option<Vec<usize>>)
    requires
        forall|a: usize, b: usize| #[trigger] call_requires(*share, (a, b)),
    ensures
        r is None <==> nodes@.len() * minimum > total,
        r matches Some(spans) ==> spans@.len() == nodes@.len()
            && forall|i: int| 0 <= i < spans@.len() ==> #[trigger] spans@[i] >= minimum,
{
    let count = nodes.len();
    let reserved = match count.checked_mul(minimum) {
        Some(reserved) => reserved,
        None => return None,
    };
    if reserved > total {
        return None;
    }
    let remaining = total - reserved;
    let mut spans: Vec<usize> = Vec::new();
    let mut distributed: usize = 0;
    let mut index: usize = 0;
    while index < count
        invariant
            index <= count,
            count == nodes@.len(),
            spans@.len() == index,
            forall|i: int| 0 <= i < spans@.len() ==> #[trigger] spans@[i] >= minimum,
            forall|a: usize, b: usize| #[trigger] call_requires(*share, (a, b)),
        decreases count - index,
    {
        let extra = if index + 1 == count {
            remaining.saturating_sub(distributed)
        } else {
            share(nodes[index].id, remaining)
        };
        spans.push(minimum.saturating_add(extra));
        distributed = distributed.saturating_add(extra);
        index = index + 1;
    }
    Some(spans)
}

/// The outcome of counting the tree under `node` at `depth`, `count` nodes having been seen:
/// the deepest depth reached and the new count, or the limit that was passed first.
pub open spec fn tree_visit(node: TreemapNode, depth: int, count: int) -> Result<(int, int)>
    decreases MAX_TREEMAP_DEPTH + 2 - depth, 0int,
{
    if depth > MAX_TREEMAP_DEPTH {
        Err(MermansiError::RenderLimit { context: "treemap depth", requested: depth as usize, limit: MAX_TREEMAP_DEPTH })
    } else if count + 1 > MAX_TREEMAP_NODES {
        Err(MermansiError::RenderLimit { context: "treemap nodes", requested: (count + 1) as usize, limit: MAX_TREEMAP_NODES })
    } else {
        children_visit(node.children@, node.children@.len() as int, depth + 1, count + 1, depth)
    }
}

/// The outcome of counting the first `n` of `children` at `depth` in turn, after `count`
/// nodes, with `deepest` the deepest depth reached before them.
pub open spec fn children_visit(children: Seq<TreemapNode>, n: int, depth: int, count: int, deepest: int)
    -> Result<(int, int)>
    decreases MAX_TREEMAP_DEPTH + 2 - depth, n + 1,
{
    if n <= 0 || depth > MAX_TREEMAP_DEPTH + 1 {
        Ok((deepest, count))
    } else {
        match children_visit(children, n - 1, depth, count, deepest) {
            Err(e) => Err(e),
            Ok(p) => match tree_visit(children[n - 1], depth, p.1) {
                Err(e) => Err(e),
                Ok(q) => Ok((if q.0 > p.0 { q.0 } else { p.0 }, q.1)),
            },
        }
    }
}

proof fn lemma_children_visit_err(children: Seq<TreemapNode>, k: int, n: int, depth: int, count: int, deepest: int)
    requires
        0 <= k <= n,
        children_visit(children, k, depth, count, deepest) is Err,
    ensures
        children_visit(children, n, depth, count, deepest) == children_visit(children, k, depth, count, deepest),
    decreases n - k,
{
    if k < n {
        lemma_children_visit_err(children, k, n - 1, depth, count, deepest);
    }
}

/// Counts the nodes under `node` (into `count`) and returns the deepest depth reached;
/// refused beyond the depth and node limits.
fn visit(node: &TreemapNode, depth: usize, count: &mut usize) -> (r: Result<usize>)
    requires
        depth <= MAX_TREEMAP_DEPTH + 1,
        *old(count) <= MAX_TREEMAP_NODES,
    ensures
        r matches Ok(d) ==> depth <= d <= MAX_TREEMAP_DEPTH && *final(count) <= MAX_TREEMAP_NODES,
        r is Ok ==> *final(count) > *old(count),
        match tree_visit(*node, depth as int, *old(count) as int) {
            Ok(p) => r == Ok::<usize, MermansiError>(p.0 as usize) && *final(count) == p.1
                && depth <= p.0 <= MAX_TREEMAP_DEPTH,
            Err(e) => r == Err::<usize, MermansiError>(e),
        },
    decreases MAX_TREEMAP_DEPTH + 1 - depth,
{
    if depth > MAX_TREEMAP_DEPTH {
        return Err(MermansiError::RenderLimit { context: "treemap depth", requested: depth, limit: MAX_TREEMAP_DEPTH });
    }
    *count = *count + 1;
    if *count > MAX_TREEMAP_NODES {
        return Err(MermansiError::RenderLimit { context: "treemap nodes", requested: *count, limit: MAX_TREEMAP_NODES });
    }
    let ghost start = *count as int;
    let mut maximum = depth;
    let mut k: usize = 0;
    while k < node.children.len()
        invariant
            k <= node.children@.len(),
            depth <= maximum <= MAX_TREEMAP_DEPTH,
            *count <= MAX_TREEMAP_NODES,
            *count >= start,
            start == *old(count) + 1,
            depth <= MAX_TREEMAP_DEPTH,
            children_visit(node.children@, k as int, depth + 1, start, depth as int)
                == Ok::<(int, int), MermansiError>((maximum as int, *count as int)),
        decreases node.children@.len() - k,
    {
        let ghost before = *count as int;
        let ghost prior = maximum as int;
        let result = visit(&node.children[k], depth + 1, count);
        assert(children_visit(node.children@, k + 1, depth + 1, start, depth as int) == match tree_visit(
            node.children@[k as int], depth + 1, before) {
            Err(e) => Err(e),
            Ok(q) => Ok::<(int, int), MermansiError>((if q.0 > prior { q.0 } else { prior }, q.1)),
        });
        let deepest = match result {
            Ok(d) => d,
            Err(e) => {
                proof {
                    lemma_children_visit_err(node.children@, k + 1, node.children@.len() as int, depth + 1, start,
                        depth as int);
                }
                return Err(e);
            },
        };
        if deepest > maximum {
            maximum = deepest;
        }
        k = k + 1;
    }
    Ok(maximum)
}

/// The node count and depth of the tree, refused beyond the limits.
fn validate_tree(root: &TreemapNode) -> (r: Result<(usize, usize)>)
    ensures
        r matches Ok((count, depth)) ==> 1 <= count <= MAX_TREEMAP_NODES && depth <= MAX_TREEMAP_DEPTH,
        match tree_visit(*root, 0, 0) {
            Ok(p) => r == Ok::<(usize, usize), MermansiError>((p.1 as usize, p.0 as usize)),
            Err(e) => r == Err::<(usize, usize), MermansiError>(e),
        },
{
    let mut count: usize = 0;
    let depth = match visit(root, 0, &mut count) {
        Ok(d) => d,
        Err(e) => return Err(e),
    };
    if count == 0 {
        count = 1;
    }
    Ok((count, depth))
}

/// The first `n` styles, sanitized and joined by `, `.
pub open spec fn joined_styles(styles: Seq<String>, n: int) -> Seq<char>
    decreases n,
{
    if n <= 0 { seq![] } else {
        joined_styles(styles, n - 1) + (if n > 1 { ", "@ } else { seq![] }) + sanitized(styles[n - 1]@)
    }
}

/// The label of a node.
pub open spec fn node_label_text(node: TreemapNode) -> Seq<char> {
    let name = sanitized(node.name@);
    (if name.len() == 0 { "(unnamed)"@ } else { name })
        + (match node.value { Some(v) => " = "@ + sanitized(v@), None => seq![] })
        + (match node.class_selector {
            Some(c) => if sanitized(c@).len() > 0 { " · class "@ + sanitized(c@) } else { seq![] },
            None => seq![],
        })
        + (match node.styles {
            Some(ss) => if ss@.len() > 0 { " · "@ + joined_styles(ss@, ss@.len() as int) } else { seq![] },
            None => seq![],
        })
}

fn node_label(node: &TreemapNode) -> (r: String)
    ensures
        r@ == node_label_text(*node),
{
    let name = sanitize_label_text(node.name.as_str());
    let mut label = if name.as_str().is_empty() { String::from_str("(unnamed)") } else { name };
    match &node.value {
        Some(value) => {
            label.append(" = ");
            label.append(sanitize_label_text(value.as_str()).as_str());
        },
        None => {},
    }
    let ghost p1 = label@;
    match &node.class_selector {
        Some(class) => {
            let class = sanitize_label_text(class.as_str());
            if !class.as_str().is_empty() {
                label.append(" · class ");
                label.append(class.as_str());
            }
        },
        None => {},
    }
    let ghost p2 = label@;
    assert(p2 =~= (if sanitized(node.name@).len() == 0 { "(unnamed)"@ } else { sanitized(node.name@) })
        + (match node.value { Some(v) => " = "@ + sanitized(v@), None => seq![] })
        + (match node.class_selector {
            Some(c) => if sanitized(c@).len() > 0 { " · class "@ + sanitized(c@) } else { seq![] },
            None => seq![],
        }));
    match &node.styles {
        Some(styles) => {
            if styles.len() > 0 {
                label.append(" · ");
                let ghost p3 = label@;
                let mut k: usize = 0;
                while k < styles.len()
                    invariant
                        k <= styles@.len(),
                        label@ == p3 + joined_styles(styles@, k as int),
                    decreases styles@.len() - k,
                {
                    if k > 0 {
                        label.append(", ");
                    }
                    label.append(sanitize_label_text(styles[k].as_str()).as_str());
                    k = k + 1;
                    assert(label@ =~= p3 + joined_styles(styles@, k as int));
                }
            }
        },
        None => {},
    }
    assert(label@ =~= node_label_text(*node));
    label
}

/// The widest label of `node` and the nodes under it, down to the depth limit.
pub open spec fn widest_label(node: TreemapNode, depth: int) -> int
    decreases MAX_TREEMAP_DEPTH + 2 - depth, 0int,
{
    let own = unicode_str_width(node_label_text(node)) as int;
    if depth > MAX_TREEMAP_DEPTH {
        own
    } else {
        let below = widest_child_label(node.children@, node.children@.len() as int, depth + 1);
        if below > own { below } else { own }
    }
}

/// The widest label under the first `n` of `children` (0 for none).
pub open spec fn widest_child_label(children: Seq<TreemapNode>, n: int, depth: int) -> int
    decreases MAX_TREEMAP_DEPTH + 2 - depth, n + 1,
{
    if n <= 0 || depth > MAX_TREEMAP_DEPTH + 1 {
        0
    } else {
        let w = widest_label(children[n - 1], depth);
        let rest = widest_child_label(children, n - 1, depth);
        if w > rest { w } else { rest }
    }
}

/// The widest label of `node` and the nodes under it (down to the depth limit).
fn longest_label(node: &TreemapNode, depth: usize) -> (r: usize)
    requires
        depth <= MAX_TREEMAP_DEPTH + 1,
    ensures
        r == widest_label(*node, depth as int),
    decreases MAX_TREEMAP_DEPTH + 1 - depth,
{
    let mut widest = str_display_width(node_label(node).as_str());
    if depth > MAX_TREEMAP_DEPTH {
        return widest;
    }
    let ghost own = widest as int;
    let mut k: usize = 0;
    while k < node.children.len()
        invariant
            k <= node.children@.len(),
            depth <= MAX_TREEMAP_DEPTH,
            own == unicode_str_width(node_label_text(*node)) as int,
            widest as int == (if widest_child_label(node.children@, k as int, depth + 1) > own {
                widest_child_label(node.children@, k as int, depth + 1) } else { own }),
        decreases node.children@.len() - k,
    {
        let w = longest_label(&node.children[k], depth + 1);
        if w > widest {
            widest = w;
        }
        k = k + 1;
    }
    widest
}

/// Writes `label` inside the top border of `rect`; a label too wide is numbered as a callout
/// and its number is written instead (where the number fits).
fn write_label(canvas: &mut Canvas, rect: Rect, label: &str, callouts: &mut Vec<String>) -> (r: Result<()>)
    requires
        old(canvas).wf(),
    ensures
        final(canvas).wf(),
        final(callouts)@.len() <= old(callouts)@.len() + 1,
        ({
            let available = if rect.width >= 2 { rect.width - 2 } else { 0 };
            let x = if rect.x + 1 > usize::MAX { usize::MAX as int } else { rect.x + 1 };
            let y = if rect.y + 1 > usize::MAX { usize::MAX as int } else { rect.y + 1 };
            let fits = unicode_str_width(label@) <= available;
            let shown = if fits { label@ } else { marker_text((old(callouts)@.len() + 1) as nat) };
            if available == 0 || rect.height < 3 {
                r is Ok && final(canvas)@ == old(canvas)@ && final(callouts)@ == old(callouts)@
            } else {
                &&& fits ==> final(callouts)@ == old(callouts)@
                &&& !fits ==> final(callouts)@.len() == old(callouts)@.len() + 1
                    && final(callouts)@.subrange(0, old(callouts)@.len() as int) == old(callouts)@
                    && final(callouts)@.last()@ == label@
                &&& if unicode_str_width(shown) <= available {
                    match text_placed(old(canvas)@, x, y, shown) {
                        Ok(v) => r is Ok && final(canvas)@ == v,
                        Err(e) => r == Err::<(), MermansiError>(e) && final(canvas)@ == old(canvas)@,
                    }
                } else {
                    r is Ok && final(canvas)@ == old(canvas)@
                }
            }
        }),
{
    let available = rect.width.saturating_sub(2);
    if available == 0 || rect.height < 3 {
        return Ok(());
    }
    let x = rect.x.saturating_add(1);
    let y = rect.y.saturating_add(1);
    if str_display_width(label) <= available {
        return canvas.set_text(x, y, label);
    }
    callouts.push(String::from_str(label));
    assert(callouts@.subrange(0, old(callouts)@.len() as int) =~= old(callouts)@);
    let mut marker = String::from_str("[");
    marker.append(decimal_text(callouts.len()).as_str());
    marker.append("]");
    assert(marker@ =~= marker_text(callouts@.len() as nat));
    if str_display_width(marker.as_str()) <= available {
        return canvas.set_text(x, y, marker.as_str());
    }
    Ok(())
}

/// Lays `nodes` out side by side inside `rect`: across its width where it is at least twice
/// as wide as tall, else down its height.
fn layout_children<F: Fn(usize, usize) -> usize>(canvas: &mut Canvas, nodes: &Vec<TreemapNode>, rect: Rect,
    depth: usize, opts: &MermansiOptions, callouts: &mut Vec<String>, share: &F) -> (r: Result<()>)
    requires
        old(canvas).wf(),
        depth <= MAX_TREEMAP_DEPTH + 1,
        forall|a: usize, b: usize| #[trigger] call_requires(*share, (a, b)),
    ensures
        final(canvas).wf(),
    decreases MAX_TREEMAP_DEPTH + 1 - depth, 1usize,
{
    if nodes.len() == 0 {
        return Ok(());
    }
    let split_width = rect.width >= sat_mul(rect.height, 2);
    let available = if split_width { rect.width } else { rect.height };
    let minimum = if split_width { MIN_CHILD_WIDTH } else { MIN_CHILD_HEIGHT };
    let spans = match partition_spans(available, nodes, minimum, share) {
        Some(spans) => spans,
        None => {
            let mut message = decimal_text(nodes.len());
            message.append(" siblings do not fit in a ");
            message.append(decimal_text(rect.width).as_str());
            message.append("x");
            message.append(decimal_text(rect.height).as_str());
            message.append(" parent rectangle");
            return Err(MermansiError::GeometryLayout { family: "treemap", message });
        },
    };
    let mut cursor = if split_width { rect.x } else { rect.y };
    let mut k: usize = 0;
    while k < nodes.len()
        invariant
            canvas.wf(),
            k <= nodes@.len(),
            spans@.len() == nodes@.len(),
            depth <= MAX_TREEMAP_DEPTH + 1,
            forall|a: usize, b: usize| #[trigger] call_requires(*share, (a, b)),
        decreases nodes@.len() - k,
    {
        let span = spans[k];
        let child = if split_width {
            Rect { x: cursor, y: rect.y, width: span, height: rect.height }
        } else {
            Rect { x: rect.x, y: cursor, width: rect.width, height: span }
        };
        match draw_node(canvas, &nodes[k], child, depth, opts, callouts, share) {
            Ok(()) => {},
            Err(e) => return Err(e),
        }
        cursor = cursor.saturating_add(span);
        k = k + 1;
    }
    Ok(())
}

/// Draws `node` as a box with its label, and its children nested inside it.
fn draw_node<F: Fn(usize, usize) -> usize>(canvas: &mut Canvas, node: &TreemapNode, rect: Rect, depth: usize,
    opts: &MermansiOptions, callouts: &mut Vec<String>, share: &F) -> (r: Result<()>)
    requires
        old(canvas).wf(),
        depth <= MAX_TREEMAP_DEPTH + 1,
        forall|a: usize, b: usize| #[trigger] call_requires(*share, (a, b)),
    ensures
        final(canvas).wf(),
    decreases MAX_TREEMAP_DEPTH + 1 - depth, 0usize,
{
    match draw_box(canvas, rect.x, rect.y, rect.width, rect.height, opts.charset) {
        Ok(()) => {},
        Err(e) => return Err(e),
    }
    let label = node_label(node);
    match write_label(canvas, rect, label.as_str(), callouts) {
        Ok(()) => {},
        Err(e) => return Err(e),
    }
    if node.children.len() == 0 {
        return Ok(());
    }
    if rect.width < MIN_CHILD_WIDTH + 2 || rect.height < MIN_CHILD_HEIGHT + 3 || depth >= MAX_TREEMAP_DEPTH + 1 {
        let mut message = String::from_str("nested children of '");
        message.append(sanitize_label_text(node.name.as_str()).as_str());
        message.append("' do not fit in their parent rectangle");
        return Err(MermansiError::GeometryLayout { family: "treemap", message });
    }
    let inner = Rect {
        x: rect.x.saturating_add(1),
        y: rect.y.saturating_add(2),
        width: rect.width - 2,
        height: rect.height - 3,
    };
    layout_children(canvas, &node.children, inner, depth + 1, opts, callouts, share)
}

/// Breaks `text` into lines of at most `width` columns between graphemes (each grapheme
/// taking at least one column).
fn wrap_label(text: &str, width: usize) -> (r: Vec<String>)
    ensures
        r@.len() >= 1,
{
    let gs = graphemes(text);
    let mut lines: Vec<String> = Vec::new();
    let mut line = String::new();
    let mut used: usize = 0;
    let mut k: usize = 0;
    while k < gs.len()
        invariant
            k <= gs@.len(),
        decreases gs@.len() - k,
    {
        let g = gs[k].as_str();
        let w = str_width(g);
        let gw = if w < 1 { 1 } else { w };
        if used > 0 && used.saturating_add(gw) > width {
            lines.push(line);
            line = String::new();
            used = 0;
        }
        line.append(g);
        used = used.saturating_add(gw);
        k = k + 1;
    }
    lines.push(line);
    lines
}

/// Appends the numbered callouts, each wrapped to the output width less its indent.
fn append_callouts(out: &mut String, callouts: &Vec<String>, max_width: usize)
    ensures
        callouts@.len() == 0 ==> final(out)@ == old(out)@,
        callouts@.len() > 0 ==> ({
            let head = old(out)@ + "\nLabels:\n"@;
            &&& final(out)@.len() >= head.len() + 6 * callouts@.len()
            &&& final(out)@.subrange(0, head.len() as int) == head
            &&& final(out)@.last() == '\n'
        }),
{
    if callouts.len() == 0 {
        return;
    }
    out.append("\nLabels:\n");
    let ghost head = out@;
    proof { reveal_strlit("\nLabels:\n"); }
    let content_width = if max_width > 6 { max_width - 6 } else { 1 };
    let n = callouts.len();
    let mut index: usize = 0;
    while index < n
        invariant
            index <= n,
            n == callouts@.len(),
            head == old(out)@ + "\nLabels:\n"@,
            out@.len() >= head.len() + 6 * index,
            out@.subrange(0, head.len() as int) == head,
            out@.last() == '\n',
            head.len() > 0,
        decreases n - index,
    {
        let lines = wrap_label(callouts[index].as_str(), content_width);
        let ghost start = out@.len();
        let mut k: usize = 0;
        while k < lines.len()
            invariant
                k <= lines@.len(),
                index < n,
                out@.len() >= start + 6 * k,
                start >= head.len(),
                out@.subrange(0, head.len() as int) == head,
                out@.last() == '\n',
                head.len() > 0,
            decreases lines@.len() - k,
        {
            let ghost before = out@;
            proof {
                reveal_strlit("  [");
                reveal_strlit("] ");
                reveal_strlit("      ");
                reveal_strlit("\n");
            }
            if k == 0 {
                out.append("  [");
                out.append(decimal_text(index + 1).as_str());
                out.append("] ");
            } else {
                out.append("      ");
            }
            out.append(lines[k].as_str());
            out.append("\n");
            assert(out@.subrange(0, head.len() as int) =~= before.subrange(0, head.len() as int));
            k = k + 1;
        }
        index = index + 1;
    }
}

/// `value` held between `low` and `high`.
fn clamped(value: usize, low: usize, high: usize) -> (r: usize)
    requires
        low <= high,
    ensures
        low <= r <= high,
        low <= value <= high ==> r == value,
{
    if value < low { low } else if value > high { high } else { value }
}

/// Render a treemap: every node a rectangle nested in its parent, siblings sharing their
/// parent's longer side by weight, then the labels that did not fit.
///
/// The tree is bounded first (depth and node count). A lone root without a name gives a
/// placeholder line. `share` is asked, with a sibling's key and the spare cells of its row,
/// how many of them the sibling gets.
pub fn render_treemap<F: Fn(usize, usize) -> usize>(model: &Treemap, opts: &MermansiOptions, share: F)
    -> (r: Result<String>)
    requires
        forall|a: usize, b: usize| #[trigger] call_requires(share, (a, b)),
    ensures
        model.root.children@.len() == 0 && all_white(model.root.name@)
            ==> (r matches Ok(s) && s@ == "(empty treemap)\n"@),
        r is Ok && !(model.root.children@.len() == 0 && all_white(model.root.name@))
            ==> opts.max_width >= MIN_CANVAS_WIDTH && opts.max_height >= MIN_CANVAS_HEIGHT,
{
    let root = &model.root;
    // A root without children always passes the tree limits: it is one node at depth 0.
    if root.children.len() == 0 && is_white_line(&chars_of(root.name.as_str())) {
        return Ok(String::from_str("(empty treemap)\n"));
    }
    let (_node_count, depth) = match validate_tree(root) {
        Ok(v) => v,
        Err(e) => return Err(e),
    };
    let longest = clamped(longest_label(root, 0), 1, 24);
    let top_level_count = if root.children.len() > 1 { root.children.len() } else { 1 };
    let preferred_width = clamped(
        sat_mul(top_level_count, longest + 5).saturating_add(2),
        MIN_CANVAS_WIDTH,
        96,
    );
    let preferred_height = clamped(10usize.saturating_add(sat_mul(depth, 5)), MIN_CANVAS_HEIGHT, 32);
    let (width, height) = match checked_chart_dimensions(
        opts,
        (MIN_CANVAS_WIDTH, MIN_CANVAS_HEIGHT),
        (preferred_width, preferred_height),
    ) {
        Ok(d) => d,
        Err(e) => return Err(e),
    };
    let mut canvas = match Canvas::new(width, height) {
        Ok(c) => c,
        Err(e) => return Err(e),
    };
    let outer = Rect { x: 0, y: 0, width, height };
    match draw_box(&mut canvas, outer.x, outer.y, outer.width, outer.height, opts.charset) {
        Ok(()) => {},
        Err(e) => return Err(e),
    }
    let mut callouts: Vec<String> = Vec::new();
    let titled = match &model.title {
        Some(title) => if is_white_line(&chars_of(title.as_str())) { None } else { Some(sanitize_label_text(title.as_str())) },
        None => None,
    };
    let container_label = match titled {
        Some(title) => title,
        None => {
            let name = sanitize_label_text(root.name.as_str());
            if name.as_str().is_empty() { String::from_str("Treemap") } else { name }
        },
    };
    match write_label(&mut canvas, outer, container_label.as_str(), &mut callouts) {
        Ok(()) => {},
        Err(e) => return Err(e),
    }
    let content = Rect { x: 1, y: 2, width: width - 2, height: height - 3 };
    if root.children.len() == 0 {
        let label = node_label(root);
        match write_label(&mut canvas, outer, label.as_str(), &mut callouts) {
            Ok(()) => {},
            Err(e) => return Err(e),
        }
    } else {
        match layout_children(&mut canvas, &root.children, content, 0, opts, &mut callouts, &share) {
            Ok(()) => {},
            Err(e) => return Err(e),
        }
    }
    let mut out = render_cropped_canvas(&canvas);
    append_callouts(&mut out, &callouts, opts.max_width);
    Ok(out)
}

} // verus!
