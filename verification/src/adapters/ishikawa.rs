//! Ishikawa (fishbone) terminal geometry.
//!
//! Main causes alternate above and below a compact horizontal spine. Each cause has a near-45°
//! diagonal bone; labels sit to its left and connect through short horizontal branches. The
//! effect appears exactly once in the closed head box.

use vstd::prelude::*;
use crate::adapters::chart_primitives::{draw_line, is_white_line, line_fits, render_cropped_canvas};
use crate::adapters::json::{decimal, decimal_text};
use crate::adapters::eventmodeling::nonempty_text;
use crate::canvas::text_placed;
use crate::text::unicode_str_width;
use crate::adapters::box_geometry::sat_mul;
use crate::ansi::{sanitize_label_text, sanitized};
use crate::canvas::{Canvas, draw_box, draw_horizontal_line, str_display_width};
use crate::error::{MermansiError, Result};
use crate::options::{Charset, MermansiOptions};
use crate::text::chars_of;

verus! {

#[verifier::external_type_specification]
#[verifier::external_body]
pub struct ExIshikawaDiagramRenderModel(merman_core::diagrams::ishikawa::IshikawaDiagramRenderModel);

#[verifier::external_type_specification]
#[verifier::external_body]
pub struct ExIshikawaNodeRenderModel(merman_core::diagrams::ishikawa::IshikawaNodeRenderModel);

/// Most nodes drawn.
pub const MAX_ISHIKAWA_NODES: usize = 4_096;
/// Deepest cause nesting drawn.
pub const MAX_ISHIKAWA_DEPTH: usize = 64;
/// Narrowest slot of a main cause.
pub const MIN_SLOT_WIDTH: usize = 12;
const MAX_SLOT_WIDTH: usize = 24;
const MIN_EFFECT_WIDTH: usize = 12;
const MAX_EFFECT_WIDTH: usize = 34;
const EFFECT_GAP_WIDTH: usize = 3;

/// A cause (or the effect, at the root) with its sub-causes.
pub struct IshikawaNode {
    pub text: String,
    pub children: Vec<IshikawaNode>,
}

/// A fishbone diagram: an optional title and the effect with its causes.
pub struct IshikawaDiagram {
    pub title: Option<String>,
    pub root: Option<IshikawaNode>,
}

/// A sub-cause flattened under its main cause, with its depth below it.
struct Descendant {
    text: String,
    depth: usize,
}

/// The Ishikawa model of a parsed diagram, if it is one.
#[verifier::external_body]
pub(crate) fn parsed_ishikawa(parsed: &merman_core::ParsedDiagramRender)
    -> (r: Option<&merman_core::diagrams::ishikawa::IshikawaDiagramRenderModel>)
{
    match parsed.model() {
        merman_core::diagram::RenderSemanticModel::Ishikawa(model) => Some(model),
        _ => None,
    }
}

/// The `title` field of an Ishikawa model.
#[verifier::external_body]
fn model_title(model: &merman_core::diagrams::ishikawa::IshikawaDiagramRenderModel) -> (r: Option<String>)
{
    model.title.clone()
}

/// The `root` field of an Ishikawa model.
#[verifier::external_body]
fn model_root(model: &merman_core::diagrams::ishikawa::IshikawaDiagramRenderModel)
    -> (r: Option<&merman_core::diagrams::ishikawa::IshikawaNodeRenderModel>)
{
    model.root.as_ref()
}

/// The `text` field of an Ishikawa node.
#[verifier::external_body]
fn node_text(node: &merman_core::diagrams::ishikawa::IshikawaNodeRenderModel) -> (r: String)
{
    node.text.clone()
}

/// The `children` field of an Ishikawa node.
#[verifier::external_body]
fn node_children(node: &merman_core::diagrams::ishikawa::IshikawaNodeRenderModel)
    -> (r: &Vec<merman_core::diagrams::ishikawa::IshikawaNodeRenderModel>)
{
    &node.children
}

/// Copies a parsed node and its sub-causes, down to one level below the deepest one drawn
/// (a tree that deep is refused when it is drawn).
fn node_of(node: &merman_core::diagrams::ishikawa::IshikawaNodeRenderModel, depth: usize) -> (r: IshikawaNode)
    requires
        depth <= MAX_ISHIKAWA_DEPTH + 1,
    decreases MAX_ISHIKAWA_DEPTH + 1 - depth,
{
    let mut children: Vec<IshikawaNode> = Vec::new();
    if depth <= MAX_ISHIKAWA_DEPTH {
        let parsed_children = node_children(node);
        let mut i: usize = 0;
        while i < parsed_children.len()
            invariant
                depth <= MAX_ISHIKAWA_DEPTH,
                i <= parsed_children@.len(),
            decreases parsed_children@.len() - i,
        {
            children.push(node_of(&parsed_children[i], depth + 1));
            i = i + 1;
        }
    }
    IshikawaNode { text: node_text(node), children }
}

/// The library's copy of a parsed Ishikawa model.
pub(crate) fn diagram_of(model: &merman_core::diagrams::ishikawa::IshikawaDiagramRenderModel) -> (r: IshikawaDiagram)
{
    let root = match model_root(model) {
        Some(node) => Some(node_of(node, 0)),
        None => None,
    };
    IshikawaDiagram { title: model_title(model), root }
}

/// The outcome of counting the tree under `node` at `depth` in depth-first order, `count`
/// nodes having been seen: the new count, or the limit that was passed first.
pub open spec fn cause_visit(node: IshikawaNode, depth: int, count: int) -> Result<int>
    decreases MAX_ISHIKAWA_DEPTH + 2 - depth, 0int,
{
    if depth > MAX_ISHIKAWA_DEPTH {
        Err(MermansiError::RenderLimit { context: "ishikawa depth", requested: depth as usize, limit: MAX_ISHIKAWA_DEPTH })
    } else if count + 1 > MAX_ISHIKAWA_NODES {
        Err(MermansiError::RenderLimit { context: "ishikawa nodes", requested: (count + 1) as usize, limit: MAX_ISHIKAWA_NODES })
    } else {
        causes_visit(node.children@, node.children@.len() as int, depth + 1, count + 1)
    }
}

/// The outcome of counting the first `n` of `children` at `depth` in turn, after `count` nodes.
pub open spec fn causes_visit(children: Seq<IshikawaNode>, n: int, depth: int, count: int) -> Result<int>
    decreases MAX_ISHIKAWA_DEPTH + 2 - depth, n + 1,
{
    if n <= 0 || depth > MAX_ISHIKAWA_DEPTH + 1 {
        Ok(count)
    } else {
        match causes_visit(children, n - 1, depth, count) {
            Err(e) => Err(e),
            Ok(c) => cause_visit(children[n - 1], depth, c),
        }
    }
}

proof fn lemma_causes_visit_err(children: Seq<IshikawaNode>, k: int, n: int, depth: int, count: int)
    requires
        0 <= k <= n,
        causes_visit(children, k, depth, count) is Err,
    ensures
        causes_visit(children, n, depth, count) == causes_visit(children, k, depth, count),
    decreases n - k,
{
    if k < n {
        lemma_causes_visit_err(children, k, n - 1, depth, count);
    }
}

/// Refuses a tree deeper than [`MAX_ISHIKAWA_DEPTH`] or with more than [`MAX_ISHIKAWA_NODES`]
/// nodes, counting in depth-first order; `count` is the number of nodes seen so far.
fn visit(node: &IshikawaNode, depth: usize, count: &mut usize) -> (r: Result<()>)
    requires
        *old(count) <= MAX_ISHIKAWA_NODES,
    ensures
        r is Ok ==> *final(count) <= MAX_ISHIKAWA_NODES,
        r matches Err(e) ==> e matches MermansiError::RenderLimit { context, .. }
            && (context == "ishikawa depth" || context == "ishikawa nodes"),
        match cause_visit(*node, depth as int, *old(count) as int) {
            Ok(c) => r is Ok && *final(count) == c,
            Err(e) => r == Err::<(), MermansiError>(e),
        },
    decreases MAX_ISHIKAWA_DEPTH + 1 - depth,
{
    if depth > MAX_ISHIKAWA_DEPTH {
        return Err(MermansiError::RenderLimit { context: "ishikawa depth", requested: depth, limit: MAX_ISHIKAWA_DEPTH });
    }
    *count = *count + 1;
    if *count > MAX_ISHIKAWA_NODES {
        return Err(MermansiError::RenderLimit { context: "ishikawa nodes", requested: *count, limit: MAX_ISHIKAWA_NODES });
    }
    let ghost start = *count as int;
    let mut i: usize = 0;
    while i < node.children.len()
        invariant
            depth <= MAX_ISHIKAWA_DEPTH,
            i <= node.children@.len(),
            *count <= MAX_ISHIKAWA_NODES,
            start == *old(count) + 1,
            start <= MAX_ISHIKAWA_NODES,
            causes_visit(node.children@, i as int, depth + 1, start) == Ok::<int, MermansiError>(*count as int),
        decreases node.children@.len() - i,
    {
        let ghost before = *count as int;
        let result = visit(&node.children[i], depth + 1, count);
        assert(causes_visit(node.children@, i + 1, depth + 1, start)
            == cause_visit(node.children@[i as int], depth + 1, before));
        match result {
            Ok(()) => {},
            Err(e) => {
                proof {
                    lemma_causes_visit_err(node.children@, i + 1, node.children@.len() as int, depth + 1, start);
                }
                return Err(e);
            },
        }
        i = i + 1;
    }
    Ok(())
}

fn validate_tree(root: &IshikawaNode) -> (r: Result<()>)
    ensures
        r matches Err(e) ==> e matches MermansiError::RenderLimit { context, .. }
            && (context == "ishikawa depth" || context == "ishikawa nodes"),
        match cause_visit(*root, 0, 0) {
            Ok(_) => r is Ok,
            Err(e) => r == Err::<(), MermansiError>(e),
        },
{
    let mut count: usize = 0;
    visit(root, 0, &mut count)
}

/// The sub-causes under the first `n` of `children` at `depth`, in depth-first order, each
/// as its sanitized text and depth (none beyond the depth limit).
pub open spec fn flat_causes(children: Seq<IshikawaNode>, n: int, depth: int) -> Seq<(Seq<char>, int)>
    decreases MAX_ISHIKAWA_DEPTH + 2 - depth, n,
{
    if n <= 0 || depth > MAX_ISHIKAWA_DEPTH {
        seq![]
    } else {
        flat_causes(children, n - 1, depth) + seq![(sanitized(children[n - 1].text@), depth)]
            + flat_causes(children[n - 1].children@, children[n - 1].children@.len() as int, depth + 1)
    }
}

/// The texts and depths of `entries`.
spec fn descendant_views(entries: Seq<Descendant>) -> Seq<(Seq<char>, int)> {
    entries.map_values(|d: Descendant| (d.text@, d.depth as int))
}

/// Appends the sub-causes of `node` in depth-first order, each with its depth.
fn flatten_descendants(node: &IshikawaNode, depth: usize, out: &mut Vec<Descendant>)
    requires
        1 <= depth,
    ensures
        forall|k: int| 0 <= k < old(out)@.len() ==> final(out)@[k] == old(out)@[k],
        final(out)@.len() >= old(out)@.len(),
        forall|k: int| old(out)@.len() <= k < final(out)@.len() ==> (#[trigger] final(out)@[k]).depth >= depth,
        descendant_views(final(out)@) == descendant_views(old(out)@)
            + flat_causes(node.children@, node.children@.len() as int, depth as int),
    decreases MAX_ISHIKAWA_DEPTH + 1 - depth,
{
    if depth > MAX_ISHIKAWA_DEPTH {
        assert(descendant_views(out@) =~= descendant_views(old(out)@)
            + flat_causes(node.children@, node.children@.len() as int, depth as int));
        return;
    }
    let mut i: usize = 0;
    while i < node.children.len()
        invariant
            1 <= depth <= MAX_ISHIKAWA_DEPTH,
            i <= node.children@.len(),
            out@.len() >= old(out)@.len(),
            forall|k: int| 0 <= k < old(out)@.len() ==> out@[k] == old(out)@[k],
            forall|k: int| old(out)@.len() <= k < out@.len() ==> (#[trigger] out@[k]).depth >= depth,
            descendant_views(out@) == descendant_views(old(out)@) + flat_causes(node.children@, i as int, depth as int),
        decreases node.children@.len() - i,
    {
        let child = &node.children[i];
        let ghost before = descendant_views(out@);
        out.push(Descendant { text: sanitize_label_text(child.text.as_str()), depth });
        assert(descendant_views(out@) =~= before + seq![(sanitized(child.text@), depth as int)]);
        let ghost middle = descendant_views(out@);
        flatten_descendants(child, depth + 1, out);
        i = i + 1;
        assert(descendant_views(out@) =~= descendant_views(old(out)@) + flat_causes(node.children@, i as int, depth as int));
    }
}

/// The widest sanitized label in the subtree of `node`, down to the depth limit.
pub open spec fn widest_cause(node: IshikawaNode, depth: int) -> int
    decreases MAX_ISHIKAWA_DEPTH + 2 - depth, 0int,
{
    let own = unicode_str_width(sanitized(node.text@)) as int;
    if depth > MAX_ISHIKAWA_DEPTH {
        own
    } else {
        let below = widest_subcause(node.children@, node.children@.len() as int, depth + 1);
        if below > own { below } else { own }
    }
}

/// The widest label under the first `n` of `children` (0 for none).
pub open spec fn widest_subcause(children: Seq<IshikawaNode>, n: int, depth: int) -> int
    decreases MAX_ISHIKAWA_DEPTH + 2 - depth, n + 1,
{
    if n <= 0 || depth > MAX_ISHIKAWA_DEPTH + 1 {
        0
    } else {
        let w = widest_cause(children[n - 1], depth);
        let rest = widest_subcause(children, n - 1, depth);
        if w > rest { w } else { rest }
    }
}

/// The widest sanitized label in the subtree of `node`.
fn longest_cause_label(node: &IshikawaNode, depth: usize) -> (r: usize)
    ensures
        r == widest_cause(*node, depth as int),
    decreases MAX_ISHIKAWA_DEPTH + 1 - depth,
{
    let own = sanitize_label_text(node.text.as_str());
    let mut widest = str_display_width(own.as_str());
    if depth > MAX_ISHIKAWA_DEPTH {
        return widest;
    }
    let ghost own_width = widest as int;
    let mut i: usize = 0;
    while i < node.children.len()
        invariant
            depth <= MAX_ISHIKAWA_DEPTH,
            i <= node.children@.len(),
            own_width == unicode_str_width(sanitized(node.text@)) as int,
            widest as int == (if widest_subcause(node.children@, i as int, depth + 1) > own_width {
                widest_subcause(node.children@, i as int, depth + 1) } else { own_width }),
        decreases node.children@.len() - i,
    {
        let w = longest_cause_label(&node.children[i], depth + 1);
        if w > widest {
            widest = w;
        }
        i = i + 1;
    }
    widest
}

/// `a` clamped into `lo..=hi` (for `lo <= hi`).
fn clamp(a: usize, lo: usize, hi: usize) -> (r: usize)
    requires
        lo <= hi,
    ensures
        r == (if a < lo { lo } else if a > hi { hi } else { a }),
{
    if a < lo { lo } else if a > hi { hi } else { a }
}

/// The slot width of each main cause: the preferred width, shrunk to share what the effect
/// leaves of `max_width`, but never below the minimum.
pub fn compressed_slot_width(preferred: usize, branch_count: usize, fixed_width: usize, max_width: usize) -> (r: usize)
    ensures
        r == (if branch_count == 0 {
            if preferred < MIN_SLOT_WIDTH { preferred as int } else { MIN_SLOT_WIDTH as int }
        } else {
            let avail = (if max_width >= fixed_width { max_width - fixed_width } else { 0int }) / (branch_count as int);
            let floor = if avail < MIN_SLOT_WIDTH { MIN_SLOT_WIDTH as int } else { avail };
            if (preferred as int) < floor { preferred as int } else { floor }
        }),
{
    let rest = max_width.saturating_sub(fixed_width);
    let available_per_branch = if branch_count == 0 { 0 } else { rest / branch_count };
    let floor = if available_per_branch < MIN_SLOT_WIDTH { MIN_SLOT_WIDTH } else { available_per_branch };
    if preferred < floor { preferred } else { floor }
}

/// The column of the bone from (`start_x`, `start_y`) to (`end_x`, `end_y`) at row `y`, by
/// integer interpolation.
pub fn interpolate_x(start_x: usize, start_y: usize, end_x: usize, end_y: usize, y: usize) -> (r: usize)
    requires
        start_x <= MAX_ISHIKAWA_SPAN,
        end_x <= MAX_ISHIKAWA_SPAN,
        start_y <= MAX_ISHIKAWA_SPAN,
        end_y <= MAX_ISHIKAWA_SPAN,
        y <= MAX_ISHIKAWA_SPAN,
    ensures
        ({
            let distance = if abs_diff(end_y as int, start_y as int) < 1 { 1 } else { abs_diff(end_y as int, start_y as int) };
            let offset = if abs_diff(y as int, start_y as int) < distance { abs_diff(y as int, start_y as int) } else { distance };
            let run = if end_x >= start_x { end_x - start_x } else { 0int };
            r == start_x + (run * offset) / distance
        }),
{
    let dy = if end_y >= start_y { end_y - start_y } else { start_y - end_y };
    let distance = if dy < 1 { 1 } else { dy };
    let dyy = if y >= start_y { y - start_y } else { start_y - y };
    let offset = if dyy < distance { dyy } else { distance };
    let run = end_x.saturating_sub(start_x);
    assert(run * offset <= MAX_ISHIKAWA_SPAN * MAX_ISHIKAWA_SPAN) by (nonlinear_arith)
        requires run <= MAX_ISHIKAWA_SPAN, offset <= MAX_ISHIKAWA_SPAN;
    assert((run * offset) / (distance as int) <= run) by (nonlinear_arith)
        requires offset <= distance, distance >= 1;
    let product: u64 = (run as u64) * (offset as u64);
    let step: u64 = product / (distance as u64);
    start_x + (step as usize)
}

/// Coordinates of a drawn canvas never exceed this.
pub const MAX_ISHIKAWA_SPAN: usize = 250_000;

pub open spec fn abs_diff(a: int, b: int) -> int {
    if a >= b { a - b } else { b - a }
}

fn ensure_dimension(context: &'static str, requested: usize, limit: usize) -> (r: Result<()>)
    ensures
        requested > limit ==> r == Err::<(), MermansiError>(MermansiError::RenderLimit { context, requested, limit }),
        requested <= limit ==> r is Ok,
{
    if requested > limit {
        return Err(MermansiError::RenderLimit { context, requested, limit });
    }
    Ok(())
}

/// `[n]`, the marker that stands for the `n`th callout.
/// `[n]`.
pub open spec fn marker_text(n: nat) -> Seq<char> {
    "["@ + decimal(n) + "]"@
}

fn callout_marker(n: usize) -> (r: String)
    ensures
        r@ == marker_text(n as nat),
{
    let mut marker = String::from_str("[");
    let digits = decimal_text(n);
    marker.append(digits.as_str());
    marker.append("]");
    assert(marker@ =~= marker_text(n as nat));
    marker
}

/// `(unnamed)` for a blank label, else the label.
fn named(text: &str) -> (r: String)
    ensures
        r@ == nonempty_text(text@),
{
    let chars = chars_of(text);
    if is_white_line(&chars) {
        String::from_str("(unnamed)")
    } else {
        String::from_str(text)
    }
}

/// Writes the effect label, or a numbered callout marker where it does not fit.
fn place_label(canvas: &mut Canvas, x: usize, y: usize, width: usize, text: &str, callouts: &mut Vec<String>) -> (r: Result<()>)
    requires
        old(canvas).wf(),
    ensures
        final(canvas).wf(),
        final(callouts)@.len() <= old(callouts)@.len() + 1,
        ({
            let t = nonempty_text(text@);
            let shown = if unicode_str_width(t) <= width { t }
                else { marker_text((old(callouts)@.len() + 1) as nat) };
            &&& unicode_str_width(t) <= width ==> final(callouts)@ == old(callouts)@
            &&& unicode_str_width(t) > width ==> final(callouts)@.len() == old(callouts)@.len() + 1
                && final(callouts)@.subrange(0, old(callouts)@.len() as int) == old(callouts)@
                && final(callouts)@.last()@ == t
            &&& if unicode_str_width(shown) <= width {
                match text_placed(old(canvas)@, x as int, y as int, shown) {
                    Ok(v) => r is Ok && final(canvas)@ == v,
                    Err(e) => r == Err::<(), MermansiError>(e) && final(canvas)@ == old(canvas)@,
                }
            } else {
                r is Ok && final(canvas)@ == old(canvas)@
            }
        }),
{
    let text = named(text);
    if str_display_width(text.as_str()) <= width {
        return canvas.set_text(x, y, text.as_str());
    }
    callouts.push(text);
    assert(callouts@.subrange(0, old(callouts)@.len() as int) =~= old(callouts)@);
    let marker = callout_marker(callouts.len());
    if str_display_width(marker.as_str()) <= width {
        return canvas.set_text(x, y, marker.as_str());
    }
    Ok(())
}

/// Writes a cause label left of its bone at row `y`, joined to the bone by a horizontal
/// connector that grows with the depth, or a numbered callout marker where it does not fit.
fn place_connected_label(canvas: &mut Canvas, slot_x: usize, bone_x: usize, y: usize, depth: usize, text: &str,
    charset: Charset, callouts: &mut Vec<String>) -> (r: Result<()>)
    requires
        old(canvas).wf(),
    ensures
        final(canvas).wf(),
        final(callouts)@.len() <= old(callouts)@.len() + 1,
        ({
            let t = nonempty_text(text@);
            let connector = if 1 + (if depth >= 1 { depth - 1 } else { 0 }) * 2 > usize::MAX { usize::MAX as int }
                else { 1 + (if depth >= 1 { depth - 1 } else { 0 }) * 2 };
            let available = if bone_x - slot_x - connector > 0 { bone_x - slot_x - connector } else { 0 };
            &&& unicode_str_width(t) <= available ==> final(callouts)@ == old(callouts)@
            &&& unicode_str_width(t) > available ==> final(callouts)@.len() == old(callouts)@.len() + 1
                && final(callouts)@.subrange(0, old(callouts)@.len() as int) == old(callouts)@
                && final(callouts)@.last()@ == t
        }),
{
    let text = named(text);
    let connector = 1usize.saturating_add(sat_mul(depth.saturating_sub(1), 2));
    let available = bone_x.saturating_sub(slot_x).saturating_sub(connector);
    let label = if str_display_width(text.as_str()) <= available {
        text
    } else {
        callouts.push(text);
        assert(callouts@.subrange(0, old(callouts)@.len() as int) =~= old(callouts)@);
        callout_marker(callouts.len())
    };
    let label_width = str_display_width(label.as_str());
    if label_width > available || bone_x < connector || bone_x - connector < label_width {
        return Ok(());
    }
    let label_x = bone_x - connector - label_width;
    match canvas.set_text(label_x, y, label.as_str()) {
        Ok(()) => {},
        Err(e) => return Err(e),
    }
    let connector_start = label_x + label_width;
    let connector_end = bone_x.saturating_sub(1);
    if connector_start <= connector_end {
        return draw_horizontal_line(canvas, y, connector_start, connector_end, charset);
    }
    Ok(())
}

/// The `Labels:` block listing the callouts by number.
/// The rows listing the first `n` callouts by number.
pub open spec fn callout_rows(callouts: Seq<String>, n: int) -> Seq<char>
    decreases n,
{
    if n <= 0 { seq![] } else {
        callout_rows(callouts, n - 1) + "  "@ + marker_text(n as nat) + " "@ + callouts[n - 1]@ + "\n"@
    }
}

fn append_callouts(out: &mut String, callouts: &Vec<String>)
    ensures
        final(out)@ == old(out)@ + (if callouts@.len() == 0 { seq![] }
            else { "\nLabels:\n"@ + callout_rows(callouts@, callouts@.len() as int) }),
{
    if callouts.len() == 0 {
        assert(out@ =~= old(out)@ + seq![]);
        return;
    }
    out.append("\nLabels:\n");
    let ghost head = out@;
    let mut i: usize = 0;
    while i < callouts.len()
        invariant
            i <= callouts@.len(),
            out@ == head + callout_rows(callouts@, i as int),
        decreases callouts@.len() - i,
    {
        out.append("  ");
        let marker = callout_marker(i + 1);
        out.append(marker.as_str());
        out.append(" ");
        out.append(callouts[i].as_str());
        out.append("\n");
        i = i + 1;
        assert(out@ =~= head + callout_rows(callouts@, i as int));
    }
    assert(out@ =~= old(out)@ + "\nLabels:\n"@ + callout_rows(callouts@, callouts@.len() as int));
}

/// Draws a fishbone diagram: the effect in a box at the right end of the spine, main causes
/// on diagonal bones alternately above and below it, sub-causes stacked along their bone.
/// Labels that do not fit are replaced by numbered markers listed under the drawing.
pub fn render_ishikawa(model: &IshikawaDiagram, opts: &MermansiOptions) -> (r: Result<String>)
    ensures
        model.root is None ==> (r matches Ok(s) && s@ == seq!['(', 'e', 'm', 'p', 't', 'y', ' ', 'i', 's', 'h', 'i',
            'k', 'a', 'w', 'a', ' ', 'd', 'i', 'a', 'g', 'r', 'a', 'm', ')', '\n']),
        model.root matches Some(root) ==> (cause_visit(root, 0, 0) matches Err(e)
            ==> r == Err::<String, MermansiError>(e)),
{
    let root = match &model.root {
        Some(root) => root,
        None => {
            proof {
                reveal_strlit("(empty ishikawa diagram)\n");
            }
            return Ok(String::from_str("(empty ishikawa diagram)\n"));
        },
    };
    assert(model.root is Some);
    match validate_tree(root) {
        Ok(()) => {},
        Err(e) => return Err(e),
    }
    draw_fishbone(model, root, opts)
}

/// The drawing of a fishbone diagram whose cause tree is within the depth and node limits.
fn draw_fishbone(model: &IshikawaDiagram, root: &IshikawaNode, opts: &MermansiOptions) -> (r: Result<String>)
    requires
        model.root is Some,
{
    let main_causes = &root.children;
    let mut descendants: Vec<Vec<Descendant>> = Vec::new();
    let mut maximum_descendants: usize = 0;
    let mut longest_cause: usize = 0;
    let mut c: usize = 0;
    while c < main_causes.len()
        invariant
            c <= main_causes@.len(),
            descendants@.len() == c,
            forall|j: int| 0 <= j < c ==> (#[trigger] descendants@[j])@.len() <= maximum_descendants,
            forall|j: int, k: int| 0 <= j < c && 0 <= k < descendants@[j]@.len() ==> (#[trigger] descendants@[j]@[k]).depth >= 1,
        decreases main_causes@.len() - c,
    {
        let mut flattened: Vec<Descendant> = Vec::new();
        flatten_descendants(&main_causes[c], 1, &mut flattened);
        if flattened.len() > maximum_descendants {
            maximum_descendants = flattened.len();
        }
        descendants.push(flattened);
        let w = longest_cause_label(&main_causes[c], 1);
        if w > longest_cause {
            longest_cause = w;
        }
        c = c + 1;
    }
    let preferred_slot_width = clamp(longest_cause.saturating_add(7), MIN_SLOT_WIDTH, MAX_SLOT_WIDTH);
    let effect = sanitize_label_text(root.text.as_str());
    let preferred_effect_width = clamp(str_display_width(effect.as_str()).saturating_add(4), MIN_EFFECT_WIDTH, MAX_EFFECT_WIDTH);
    let branch_count = if main_causes.len() > 1 { main_causes.len() } else { 1 };
    let minimum_slots_width = match branch_count.checked_mul(MIN_SLOT_WIDTH) {
        Some(w) => w,
        None => {
            return Err(MermansiError::RenderLimit { context: "ishikawa columns", requested: usize::MAX, limit: opts.max_width });
        },
    };
    let effect_budget = opts.max_width.saturating_sub(minimum_slots_width).saturating_sub(EFFECT_GAP_WIDTH);
    let budget_floor = if effect_budget > MIN_EFFECT_WIDTH { effect_budget } else { MIN_EFFECT_WIDTH };
    let effect_width = if preferred_effect_width < budget_floor { preferred_effect_width } else { budget_floor };
    let fixed_width = effect_width.saturating_add(EFFECT_GAP_WIDTH);
    let slot_width = compressed_slot_width(preferred_slot_width, branch_count, fixed_width, opts.max_width);
    let width = match branch_count.checked_mul(slot_width) {
        Some(w) => match w.checked_add(fixed_width) {
            Some(w) => w,
            None => {
                return Err(MermansiError::RenderLimit { context: "ishikawa columns", requested: usize::MAX, limit: opts.max_width });
            },
        },
        None => {
            return Err(MermansiError::RenderLimit { context: "ishikawa columns", requested: usize::MAX, limit: opts.max_width });
        },
    };
    let distinct_title: Option<String> = match &model.title {
        Some(title) => {
            let t = sanitize_label_text(title.as_str());
            if t.as_str().len() == 0 || t == effect { None } else { Some(t) }
        },
        None => None,
    };
    let title_rows: usize = if distinct_title.is_some() { 2 } else { 0 };
    let branch_rows = if maximum_descendants.saturating_add(4) > 5 { maximum_descendants.saturating_add(4) } else { 5 };
    let height = match title_rows.checked_add(sat_mul(branch_rows, 2).saturating_add(1)) {
        Some(h) => h,
        None => {
            return Err(MermansiError::RenderLimit { context: "ishikawa rows", requested: usize::MAX, limit: opts.max_height });
        },
    };
    match ensure_dimension("ishikawa columns", width, opts.max_width) {
        Ok(()) => {},
        Err(e) => return Err(e),
    }
    match ensure_dimension("ishikawa rows", height, opts.max_height) {
        Ok(()) => {},
        Err(e) => return Err(e),
    }
    let mut canvas = match Canvas::new(width, height) {
        Ok(canvas) => canvas,
        Err(e) => return Err(e),
    };
    proof {
        assert(width * height <= 250_000);
        assert(width <= 250_000 && height <= 250_000) by (nonlinear_arith)
            requires width * height <= 250_000, width >= 12, height >= 11;
        assert(branch_count * slot_width <= width);
        assert(branch_rows <= 125_000);
        assert(maximum_descendants + 4 <= branch_rows);
    }
    match distinct_title {
        Some(title) => {
            let x = width.saturating_sub(str_display_width(title.as_str())) / 2;
            match canvas.set_text(x, 0, title.as_str()) {
                Ok(()) => {},
                Err(e) => return Err(e),
            }
        },
        None => {},
    }
    let spine_y = title_rows + branch_rows;
    let effect_x = width - effect_width;
    match draw_horizontal_line(&mut canvas, spine_y, 1, effect_x, opts.charset) {
        Ok(()) => {},
        Err(e) => return Err(e),
    }
    match draw_box(&mut canvas, effect_x, spine_y - 1, effect_width, 3, opts.charset) {
        Ok(()) => {},
        Err(e) => return Err(e),
    }
    let mut callouts: Vec<String> = Vec::new();
    match place_label(&mut canvas, effect_x + 1, spine_y, effect_width - 2, effect.as_str(), &mut callouts) {
        Ok(()) => {},
        Err(e) => return Err(e),
    }
    let mut index: usize = 0;
    while index < main_causes.len()
        invariant
            model.root is Some,
            canvas.wf(),
            index <= main_causes@.len(),
            descendants@.len() == main_causes@.len(),
            forall|j: int| 0 <= j < main_causes@.len() ==> (#[trigger] descendants@[j])@.len() <= maximum_descendants,
            forall|j: int, k: int| 0 <= j < main_causes@.len() && 0 <= k < descendants@[j]@.len()
                ==> (#[trigger] descendants@[j]@[k]).depth >= 1,
            main_causes@.len() <= branch_count,
            branch_count * slot_width <= width,
            slot_width >= 2,
            width <= 250_000,
            height <= 250_000,
            width == branch_count * slot_width + fixed_width,
            height == title_rows + 2 * branch_rows + 1,
            spine_y == title_rows + branch_rows,
            branch_rows >= maximum_descendants + 4,
            branch_rows <= 125_000,
            branch_rows >= 5,
            title_rows <= 2,
        decreases main_causes@.len() - index,
    {
        let above = index % 2 == 0;
        proof {
            assert(index * slot_width + slot_width <= branch_count * slot_width) by (nonlinear_arith)
                requires index < branch_count;
        }
        let slot_x = 1 + index * slot_width;
        let attach_x = slot_x + slot_width - 2;
        let endpoint_y = if above { title_rows + 1 } else { height - 2 };
        let rise = if endpoint_y >= spine_y { endpoint_y - spine_y } else { spine_y - endpoint_y };
        let diagonal_span = if rise < slot_width.saturating_sub(4) { rise } else { slot_width.saturating_sub(4) };
        let endpoint_x = attach_x.saturating_sub(diagonal_span);
        let diagonal = match (opts.charset, above) {
            (Charset::Unicode, true) => "╲",
            (Charset::Unicode, false) => "╱",
            (Charset::Ascii, true) => "\\",
            (Charset::Ascii, false) => "/",
        };
        proof {
            assert(line_fits(endpoint_x as i64, endpoint_y as i64, attach_x as i64, spine_y as i64));
        }
        match draw_line(&mut canvas, endpoint_x as i64, endpoint_y as i64, attach_x as i64, spine_y as i64, diagonal) {
            Ok(()) => {},
            Err(e) => return Err(e),
        }
        let joint = match opts.charset {
            Charset::Unicode => "◆",
            Charset::Ascii => "*",
        };
        match canvas.set_text(attach_x, spine_y, joint) {
            Ok(()) => {},
            Err(e) => return Err(e),
        }
        let cause_text = sanitize_label_text(main_causes[index].text.as_str());
        match place_connected_label(&mut canvas, slot_x, endpoint_x, endpoint_y, 1, cause_text.as_str(), opts.charset, &mut callouts) {
            Ok(()) => {},
            Err(e) => return Err(e),
        }
        let list = &descendants[index];
        let mut k: usize = 0;
        while k < list.len()
            invariant
                model.root is Some,
                canvas.wf(),
                k <= list@.len(),
                list@.len() <= maximum_descendants,
                endpoint_y < height,
                height <= 250_000,
                width <= 250_000,
                endpoint_x <= attach_x,
                attach_x < width,
                spine_y < height,
                branch_rows >= maximum_descendants + 4,
                branch_rows <= 125_000,
            decreases list@.len() - k,
        {
            let row = if above { endpoint_y + k + 1 } else { endpoint_y.saturating_sub(k + 1) };
            if row == spine_y || row >= height {
                return Err(MermansiError::GeometryLayout {
                    family: "ishikawa",
                    message: String::from_str("cause hierarchy does not fit between the branch label and spine"),
                });
            }
            let bone_x = interpolate_x(endpoint_x, endpoint_y, attach_x, spine_y, row);
            match place_connected_label(&mut canvas, slot_x, bone_x, row, list[k].depth, list[k].text.as_str(), opts.charset, &mut callouts) {
                Ok(()) => {},
                Err(e) => return Err(e),
            }
            k = k + 1;
        }
        index = index + 1;
    }
    let mut out = render_cropped_canvas(&canvas);
    append_callouts(&mut out, &callouts);
    Ok(out)
}

} // verus!
