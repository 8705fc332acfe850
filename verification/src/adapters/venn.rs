//! Venn diagram terminal geometry: closed overlapping set ellipses, with every subset and text
//! node label placed inside its region where space permits and connected to a callout where
//! it does not.
//!
//! The ellipses themselves (their placement, their outlines and which cells they hold) come
//! from a geometry the caller hands in; this module decides where every label, marker and
//! callout goes, and what the listing after the chart says.

use vstd::prelude::*;
use crate::adapters::box_geometry::str_eq;
use crate::adapters::chart_primitives::{
    checked_chart_dimensions, draw_line, ensure_entity_limit, marker_char, plot, render_cropped_canvas,
    MAX_CHART_ENTITIES,
};
use crate::adapters::{format_title, title_text};
use crate::ansi::{sanitize_label_text, sanitized};
use crate::canvas::{Canvas, CanvasView, index_of, cell_text, CellView, str_display_width};
use crate::error::{MermansiError, Result};
use crate::options::{Charset, MermansiOptions};
use crate::text::chars_of;

verus! {

/// Columns kept free on each side of a region label.
pub const LABEL_CLEARANCE_X: usize = 2;
/// Rows kept free above and below a region label.
pub const LABEL_CLEARANCE_Y: usize = 1;

/// A cell that lies on the canvas and shows nothing: neither text nor part of a wide grapheme.
pub open spec fn clear_at(v: CanvasView, x: int, y: int) -> bool {
    match index_of(v, x, y) {
        Some(k) => cell_text(v.cells[k as int]).len() == 0 && !(v.cells[k as int] is Continuation),
        None => false,
    }
}

/// Whether cell `(x, y)` is on the canvas and empty.
pub fn cell_is_clear(canvas: &Canvas, x: usize, y: usize) -> (r: bool)
    requires
        canvas.wf(),
    ensures
        r == clear_at(canvas@, x as int, y as int),
{
    let empty = match canvas.get_cell(x, y) {
        Some(s) => s.is_empty(),
        None => false,
    };
    empty && canvas.continuation_owner(x, y).is_none()
}

/// Whether the `width` cells of row `y` from column `x` are all clear.
pub fn span_is_clear(canvas: &Canvas, x: usize, y: usize, width: usize) -> (r: bool)
    requires
        canvas.wf(),
        x + width <= usize::MAX,
    ensures
        r == forall|c: int| x <= c < x + width ==> #[trigger] clear_at(canvas@, c, y as int),
{
    let end = x + width;
    let mut column = x;
    while column < end
        invariant
            canvas.wf(),
            x <= column <= end,
            end == x + width,
            forall|c: int| x <= c < column ==> #[trigger] clear_at(canvas@, c, y as int),
        decreases end - column,
    {
        if !cell_is_clear(canvas, column, y) {
            return false;
        }
        column = column + 1;
    }
    true
}

/// The rectangle a label at `(x, y)` of `width` columns needs clear: the label widened by the
/// clearances, clipped to the canvas (columns `.0..1`, rows `.2..=.3`).
pub open spec fn margin_box(v: CanvasView, x: int, y: int, width: int) -> (int, int, int, int) {
    let start_x = if x < LABEL_CLEARANCE_X { 0 } else { x - LABEL_CLEARANCE_X };
    let wide = if x + width > usize::MAX { usize::MAX as int } else { x + width };
    let wider = if wide + LABEL_CLEARANCE_X > usize::MAX { usize::MAX as int } else { wide + LABEL_CLEARANCE_X };
    let end_x = if wider < v.width { wider } else { v.width as int };
    let start_y = if y < LABEL_CLEARANCE_Y { 0 } else { y - LABEL_CLEARANCE_Y };
    let lowest = if v.height < 1 { 0 } else { v.height - 1 };
    let low = if y + LABEL_CLEARANCE_Y > usize::MAX { usize::MAX as int } else { y + LABEL_CLEARANCE_Y };
    let end_y = if low < lowest { low } else { lowest };
    (start_x, end_x, start_y, end_y)
}

/// Whether a label at `(x, y)` of `width` columns keeps its clearance from everything drawn.
pub fn span_has_clear_margin(canvas: &Canvas, x: usize, y: usize, width: usize) -> (r: bool)
    requires
        canvas.wf(),
    ensures
        ({
            let (x0, x1, y0, y1) = margin_box(canvas@, x as int, y as int, width as int);
            r == forall|c: int, row: int| x0 <= c < x1 && y0 <= row <= y1 ==> #[trigger] clear_at(canvas@, c, row)
        }),
{
    let start_x = x.saturating_sub(LABEL_CLEARANCE_X);
    let wider = x.saturating_add(width).saturating_add(LABEL_CLEARANCE_X);
    let end_x = if wider < canvas.width() { wider } else { canvas.width() };
    let start_y = y.saturating_sub(LABEL_CLEARANCE_Y);
    let lowest = canvas.height().saturating_sub(1);
    let low = y.saturating_add(LABEL_CLEARANCE_Y);
    let end_y = if low < lowest { low } else { lowest };
    let ghost bx = margin_box(canvas@, x as int, y as int, width as int);
    assert(bx == (start_x as int, end_x as int, start_y as int, end_y as int));
    if start_y > end_y {
        return true;
    }
    let mut row = start_y;
    while row <= end_y
        invariant
            canvas.wf(),
            start_y <= row <= end_y + 1,
            end_y < usize::MAX,
            bx == (start_x as int, end_x as int, start_y as int, end_y as int),
            bx == margin_box(canvas@, x as int, y as int, width as int),
            forall|c: int, rr: int| start_x <= c < end_x && start_y <= rr < row ==> #[trigger] clear_at(canvas@, c, rr),
        decreases end_y + 1 - row,
    {
        let mut column = start_x;
        while column < end_x
            invariant
                canvas.wf(),
                start_x <= column,
                start_y <= row <= end_y,
                bx == (start_x as int, end_x as int, start_y as int, end_y as int),
                bx == margin_box(canvas@, x as int, y as int, width as int),
                forall|c: int, rr: int| start_x <= c < end_x && start_y <= rr < row ==> #[trigger] clear_at(canvas@, c, rr),
                forall|c: int| start_x <= c < column ==> #[trigger] clear_at(canvas@, c, row as int),
            decreases end_x - column,
        {
            if !cell_is_clear(canvas, column, row) {
                assert(!clear_at(canvas@, column as int, row as int));
                return false;
            }
            column = column + 1;
        }
        row = row + 1;
    }
    true
}

/// The rightmost column holding anything, if any.
pub fn rightmost_occupied_column(canvas: &Canvas) -> (r: Option<usize>)
    requires
        canvas.wf(),
    ensures
        match r {
            Some(c) => c < canvas@.width
                && (exists|row: int| 0 <= row < canvas@.height && !#[trigger] clear_at(canvas@, c as int, row))
                && forall|c2: int, row: int| c < c2 < canvas@.width && 0 <= row < canvas@.height
                    ==> #[trigger] clear_at(canvas@, c2, row),
            None => forall|c2: int, row: int| 0 <= c2 < canvas@.width && 0 <= row < canvas@.height
                ==> #[trigger] clear_at(canvas@, c2, row),
        },
{
    let width = canvas.width();
    let height = canvas.height();
    let mut column = width;
    while column > 0
        invariant
            canvas.wf(),
            width == canvas@.width,
            height == canvas@.height,
            column <= width,
            forall|c2: int, row: int| column <= c2 < width && 0 <= row < height ==> #[trigger] clear_at(canvas@, c2, row),
        decreases column,
    {
        let c = column - 1;
        let mut row: usize = 0;
        while row < height
            invariant
                canvas.wf(),
                height == canvas@.height,
                c < width,
                c + 1 == column,
                width == canvas@.width,
                forall|c2: int, rr: int| column <= c2 < width && 0 <= rr < height ==> #[trigger] clear_at(canvas@, c2, rr),
                row <= height,
                forall|rr: int| 0 <= rr < row ==> #[trigger] clear_at(canvas@, c as int, rr),
            decreases height - row,
        {
            if !cell_is_clear(canvas, c, row) {
                assert(!clear_at(canvas@, c as int, row as int));
                assert(c < canvas@.width);
                assert(exists|rr: int| 0 <= rr < canvas@.height && !#[trigger] clear_at(canvas@, c as int, rr));
                assert(forall|c2: int, rr: int| c < c2 < canvas@.width && 0 <= rr < canvas@.height
                    ==> #[trigger] clear_at(canvas@, c2, rr));
                return Some(c);
            }
            row = row + 1;
        }
        column = c;
    }
    None
}

/// How far inside an ellipse a cell must lie to count as inside it: labels keep well inside
/// their sets, markers a little less, and a cell is outside a set unless it is near its
/// outline.
#[derive(Clone, Copy, Debug, PartialEq, Eq, Structural)]
pub enum Inset {
    Label,
    Marker,
    Outside,
}

/// A set ellipse in cells: its center and its horizontal and vertical radii.
#[derive(Clone, Copy, Debug, PartialEq, Eq, Structural)]
pub struct Ellipse {
    pub cx: i64,
    pub cy: i64,
    pub rx: i64,
    pub ry: i64,
}

/// Largest coordinate or radius an ellipse may have.
pub const MAX_ELLIPSE_EXTENT: i64 = 4096;

/// Whether the ellipse lies within the extent the layout works in.
pub open spec fn ellipse_in_range(e: Ellipse) -> bool {
    &&& -MAX_ELLIPSE_EXTENT <= e.cx <= MAX_ELLIPSE_EXTENT
    &&& -MAX_ELLIPSE_EXTENT <= e.cy <= MAX_ELLIPSE_EXTENT
    &&& 0 <= e.rx <= MAX_ELLIPSE_EXTENT
    &&& 0 <= e.ry <= MAX_ELLIPSE_EXTENT
}

/// A subset: the sets it lies in, its label, and the text of its size.
pub struct VennSubset {
    pub sets: Vec<String>,
    pub label: Option<String>,
    pub size_text: String,
}

/// A text node placed in the region of its sets.
pub struct VennTextNode {
    pub sets: Vec<String>,
    pub id: String,
    pub label: Option<String>,
}

/// A style entry: the sets it styles and its `key=value` pairs.
pub struct VennStyle {
    pub targets: Vec<String>,
    pub styles: Vec<(String, String)>,
}

/// A Venn diagram: title, subsets (a subset of one set is that set), text nodes and styles.
pub struct VennDiagram {
    pub title: Option<String>,
    pub subsets: Vec<VennSubset>,
    pub text_nodes: Vec<VennTextNode>,
    pub style_entries: Vec<VennStyle>,
}

/// A set drawn as an ellipse.
pub struct SetCircle {
    pub name: String,
    pub shape: Ellipse,
}

/// A label to place in the region of `sets`.
struct RegionLabel {
    sets: Vec<String>,
    text: String,
    order: usize,
}

/// A label that did not fit its region: its marker sits at `anchor`.
struct PendingCallout {
    marker: &'static str,
    text: String,
    anchor: (usize, usize),
    order: usize,
}

/// The first `n` names joined by `separator`.
pub open spec fn joined_names(names: Seq<String>, n: int, separator: Seq<char>) -> Seq<char>
    decreases n,
{
    if n <= 0 {
        seq![]
    } else if n == 1 {
        names[0]@
    } else {
        joined_names(names, n - 1, separator) + separator + names[n - 1]@
    }
}

/// The names joined by `separator`.
fn joined(names: &Vec<String>, separator: &str) -> (r: String)
    ensures
        r@ == joined_names(names@, names@.len() as int, separator@),
{
    let mut out = String::new();
    let mut k: usize = 0;
    while k < names.len()
        invariant
            k <= names@.len(),
            out@ == joined_names(names@, k as int, separator@),
        decreases names@.len() - k,
    {
        if k > 0 {
            out.append(separator);
        }
        out.append(names[k].as_str());
        k = k + 1;
    }
    out
}

/// `: label` where the sanitized label is not empty.
pub open spec fn label_suffix(label: Option<String>) -> Seq<char> {
    match label {
        Some(l) => if sanitized(l@).len() > 0 { ": "@ + sanitized(l@) } else { seq![] },
        None => seq![],
    }
}

/// The symbol joining the sets of an intersection.
pub open spec fn set_separator(charset: Charset) -> &'static str {
    match charset {
        Charset::Unicode => "∩",
        Charset::Ascii => "&",
    }
}

/// The row listing a text node: its sets, id and label.
pub open spec fn text_node_row(node: VennTextNode, separator: Seq<char>) -> Seq<char> {
    "  {"@ + joined_names(node.sets@, node.sets@.len() as int, separator) + "} "@ + sanitized(node.id@)
        + label_suffix(node.label) + "\n"@
}

/// The rows listing the first `n` text nodes.
pub open spec fn text_node_rows(nodes: Seq<VennTextNode>, n: int, separator: Seq<char>) -> Seq<char>
    decreases n,
{
    if n <= 0 { seq![] } else { text_node_rows(nodes, n - 1, separator) + text_node_row(nodes[n - 1], separator) }
}

/// A copy of the names.
fn copied(names: &Vec<String>) -> (r: Vec<String>)
    ensures
        r@ == names@,
{
    let mut out: Vec<String> = Vec::new();
    let mut k: usize = 0;
    while k < names.len()
        invariant
            k <= names@.len(),
            out@ == names@.subrange(0, k as int),
        decreases names@.len() - k,
    {
        out.push(names[k].clone());
        k = k + 1;
        assert(out@ =~= names@.subrange(0, k as int));
    }
    assert(out@ =~= names@);
    out
}

/// The sanitized label, where it is not empty.
fn shown_label(label: &Option<String>) -> (r: Option<String>)
    ensures
        match *label {
            Some(t) => if sanitized(t@).len() > 0 { r matches Some(l) && l@ == sanitized(t@) } else { r is None },
            None => r is None,
        },
{
    match label {
        Some(text) => {
            let clean = sanitize_label_text(text.as_str());
            if clean.as_str().is_empty() { None } else { Some(clean) }
        },
        None => None,
    }
}

/// Appends the row listing a text node.
fn append_text_node_row(out: &mut String, node: &VennTextNode, separator: &str)
    ensures
        final(out)@ == old(out)@ + text_node_row(*node, separator@),
{
    out.append("  {");
    out.append(joined(&node.sets, separator).as_str());
    out.append("} ");
    out.append(sanitize_label_text(node.id.as_str()).as_str());
    match shown_label(&node.label) {
        Some(label) => {
            out.append(": ");
            out.append(label.as_str());
        },
        None => {},
    }
    out.append("\n");
    assert(out@ =~= old(out)@ + text_node_row(*node, separator@));
}

/// The indices of the first subset of each single set, in subset order.
fn singleton_subsets(subsets: &Vec<VennSubset>) -> (r: Vec<usize>)
    ensures
        forall|k: int| 0 <= k < r@.len() ==> (#[trigger] r@[k]) < subsets@.len()
            && subsets@[r@[k] as int].sets@.len() == 1,
        r@.len() <= subsets@.len(),
        r@.len() == 0 ==> forall|j: int| 0 <= j < subsets@.len() ==> (#[trigger] subsets@[j]).sets@.len() != 1,
{
    let mut chosen: Vec<usize> = Vec::new();
    let mut i: usize = 0;
    while i < subsets.len()
        invariant
            i <= subsets@.len(),
            chosen@.len() <= i,
            forall|k: int| 0 <= k < chosen@.len() ==> (#[trigger] chosen@[k]) < subsets@.len()
                && subsets@[chosen@[k] as int].sets@.len() == 1,
            chosen@.len() == 0 ==> forall|j: int| 0 <= j < i ==> (#[trigger] subsets@[j]).sets@.len() != 1,
        decreases subsets@.len() - i,
    {
        if subsets[i].sets.len() == 1 {
            let name = subsets[i].sets[0].as_str();
            let mut seen = false;
            let mut k: usize = 0;
            while k < chosen.len()
                invariant
                    k <= chosen@.len(),
                    forall|j: int| 0 <= j < chosen@.len() ==> (#[trigger] chosen@[j]) < subsets@.len()
                        && subsets@[chosen@[j] as int].sets@.len() == 1,
                    seen ==> chosen@.len() > 0,
                decreases chosen@.len() - k,
            {
                if str_eq(subsets[chosen[k]].sets[0].as_str(), name) {
                    seen = true;
                }
                k = k + 1;
            }
            if !seen {
                chosen.push(i);
            }
        }
        i = i + 1;
    }
    chosen
}

/// The text placed for a subset: its label, or its sets joined.
pub open spec fn subset_label_text(subset: VennSubset, separator: Seq<char>) -> Seq<char> {
    match subset.label {
        Some(l) => sanitized(l@),
        None => sanitized(joined_names(subset.sets@, subset.sets@.len() as int, separator)),
    }
}

/// The text placed for a text node: its id, and its label where that differs.
pub open spec fn node_label_text(node: VennTextNode) -> Seq<char> {
    let id = sanitized(node.id@);
    match node.label {
        Some(t) => {
            let l = sanitized(t@);
            if l.len() == 0 { id } else if id.len() == 0 { l } else if l == id { id } else { id + ": "@ + l }
        },
        None => id,
    }
}

/// The labels to place: each subset's label (or its sets joined), then each text node's id
/// and label, in that order.
fn collect_region_labels(model: &VennDiagram, separator: &str) -> (r: Vec<RegionLabel>)
    ensures
        r@.len() == model.subsets@.len() + model.text_nodes@.len(),
        forall|i: int| 0 <= i < model.subsets@.len() ==> {
            &&& (#[trigger] r@[i]).sets@ == model.subsets@[i].sets@
            &&& r@[i].text@ == subset_label_text(model.subsets@[i], separator@)
            &&& r@[i].order == i
        },
        forall|j: int| 0 <= j < model.text_nodes@.len() ==> {
            let label = #[trigger] r@[model.subsets@.len() + j];
            &&& label.sets@ == model.text_nodes@[j].sets@
            &&& label.text@ == node_label_text(model.text_nodes@[j])
            &&& label.order == (if model.subsets@.len() + j > usize::MAX { usize::MAX as int }
                else { model.subsets@.len() + j })
        },
{
    let mut labels: Vec<RegionLabel> = Vec::new();
    let mut i: usize = 0;
    while i < model.subsets.len()
        invariant
            i <= model.subsets@.len(),
            labels@.len() == i,
            forall|k: int| 0 <= k < i ==> {
                &&& (#[trigger] labels@[k]).sets@ == model.subsets@[k].sets@
                &&& labels@[k].text@ == subset_label_text(model.subsets@[k], separator@)
                &&& labels@[k].order == k
            },
        decreases model.subsets@.len() - i,
    {
        let subset = &model.subsets[i];
        let text = match &subset.label {
            Some(label) => sanitize_label_text(label.as_str()),
            None => sanitize_label_text(joined(&subset.sets, separator).as_str()),
        };
        labels.push(RegionLabel { sets: copied(&subset.sets), text, order: i });
        i = i + 1;
    }
    let offset = labels.len();
    let mut j: usize = 0;
    while j < model.text_nodes.len()
        invariant
            j <= model.text_nodes@.len(),
            offset == model.subsets@.len(),
            labels@.len() == offset + j,
            forall|k: int| 0 <= k < offset ==> {
                &&& (#[trigger] labels@[k]).sets@ == model.subsets@[k].sets@
                &&& labels@[k].text@ == subset_label_text(model.subsets@[k], separator@)
                &&& labels@[k].order == k
            },
            forall|k: int| 0 <= k < j ==> {
                let label = #[trigger] labels@[offset + k];
                &&& label.sets@ == model.text_nodes@[k].sets@
                &&& label.text@ == node_label_text(model.text_nodes@[k])
                &&& label.order == (if offset + k > usize::MAX { usize::MAX as int } else { offset + k })
            },
        decreases model.text_nodes@.len() - j,
    {
        let node = &model.text_nodes[j];
        let id = sanitize_label_text(node.id.as_str());
        let text = match shown_label(&node.label) {
            Some(label) => {
                if id.as_str().is_empty() {
                    label
                } else if str_eq(label.as_str(), id.as_str()) {
                    id
                } else {
                    let mut text = id;
                    text.append(": ");
                    text.append(label.as_str());
                    text
                }
            },
            None => id,
        };
        assert(text@ == node_label_text(*node));
        labels.push(RegionLabel { sets: copied(&node.sets), text, order: offset.saturating_add(j) });
        assert(labels@[offset + j as int].text@ == node_label_text(model.text_nodes@[j as int]));
        j = j + 1;
    }
    labels
}

/// Whether label `a` is placed before label `b`: more sets first, then source order.
spec fn placed_before(labels: Seq<RegionLabel>, a: usize, b: usize) -> bool {
    labels[a as int].sets@.len() > labels[b as int].sets@.len()
        || (labels[a as int].sets@.len() == labels[b as int].sets@.len() && a < b)
}

/// The order labels are placed in: more sets first, then source order.
fn placement_order(labels: &Vec<RegionLabel>) -> (r: Vec<usize>)
    ensures
        r@.len() == labels@.len(),
        forall|k: int| 0 <= k < r@.len() ==> (#[trigger] r@[k]) < labels@.len(),
        forall|j: int, k: int| 0 <= j < k < r@.len() ==> placed_before(labels@, #[trigger] r@[j], #[trigger] r@[k]),
{
    let mut ranked: Vec<usize> = Vec::new();
    let mut i: usize = 0;
    while i < labels.len()
        invariant
            i <= labels@.len(),
            forall|k: int| 0 <= k < ranked@.len() ==> (#[trigger] ranked@[k]) < i,
            ranked@.len() == i,
            forall|j: int, k: int| 0 <= j < k < ranked@.len()
                ==> placed_before(labels@, #[trigger] ranked@[j], #[trigger] ranked@[k]),
        decreases labels@.len() - i,
    {
        let count = labels[i].sets.len();
        let mut pos: usize = 0;
        while pos < ranked.len() && labels[ranked[pos]].sets.len() >= count
            invariant
                pos <= ranked@.len(),
                i < labels@.len(),
                count == labels@[i as int].sets@.len(),
                forall|k: int| 0 <= k < ranked@.len() ==> (#[trigger] ranked@[k]) < i,
                forall|k: int| 0 <= k < pos ==> labels@[(#[trigger] ranked@[k]) as int].sets@.len() >= count,
            decreases ranked@.len() - pos,
        {
            pos = pos + 1;
        }
        let ghost before = ranked@;
        ranked.insert(pos, i);
        assert forall|k: int| 0 <= k < ranked@.len() implies (#[trigger] ranked@[k]) < i + 1 by {
            if k < pos { assert(ranked@[k] == before[k]); } else if k > pos { assert(ranked@[k] == before[k - 1]); }
        }
        assert forall|j: int, k: int| 0 <= j < k < ranked@.len()
            implies placed_before(labels@, #[trigger] ranked@[j], #[trigger] ranked@[k]) by {
            if k < pos {
                assert(ranked@[j] == before[j] && ranked@[k] == before[k]);
            } else if k == pos {
                assert(ranked@[j] == before[j]);
                assert(before[j] < i);
            } else if j < pos {
                assert(ranked@[j] == before[j] && ranked@[k] == before[k - 1]);
                assert(placed_before(labels@, before[j], before[k - 1]) || j == k - 1);
            } else if j == pos {
                assert(ranked@[k] == before[k - 1]);
                assert(labels@[before[pos as int] as int].sets@.len() < count);
                if k - 1 > pos {
                    assert(placed_before(labels@, before[pos as int], before[k - 1]));
                }
            } else {
                assert(ranked@[j] == before[j - 1] && ranked@[k] == before[k - 1]);
            }
        }
        i = i + 1;
    }
    ranked
}

/// Inserts `index` into the strictly increasing `v`, unless it is there already.
fn insert_sorted(v: &mut Vec<usize>, index: usize)
    requires
        forall|j: int, k: int| 0 <= j < k < old(v)@.len() ==> old(v)@[j] < old(v)@[k],
    ensures
        forall|j: int, k: int| 0 <= j < k < final(v)@.len() ==> final(v)@[j] < final(v)@[k],
        forall|x: usize| #[trigger] final(v)@.contains(x) <==> (old(v)@.contains(x) || x == index),
{
    let mut pos: usize = 0;
    let mut present = false;
    let mut searching = true;
    while searching && pos < v.len()
        invariant
            pos <= v@.len(),
            v@ == old(v)@,
            forall|j: int| 0 <= j < pos ==> v@[j] < index,
            present ==> !searching && pos < v@.len() && v@[pos as int] == index,
            !searching && !present ==> pos < v@.len() && v@[pos as int] > index,
        decreases v@.len() - pos + (if searching { 1int } else { 0int }),
    {
        if v[pos] == index {
            present = true;
            searching = false;
        } else if v[pos] > index {
            searching = false;
        } else {
            pos = pos + 1;
        }
    }
    let ghost before = v@;
    assert(before == old(v)@);
    if !present {
        v.insert(pos, index);
        assert forall|j: int, k: int| 0 <= j < k < v@.len() implies v@[j] < v@[k] by {
            if k < pos {
            } else if j < pos {
                if k > pos {
                    assert(v@[k] == before[k - 1]);
                }
            } else if j == pos {
                assert(v@[k] == before[k - 1]);
                assert(before[pos as int] > index || k - 1 == pos || before[pos as int] < before[k - 1]);
            } else {
                assert(v@[k] == before[k - 1]);
                assert(v@[j] == before[j - 1]);
            }
        }
        assert forall|x: usize| #[trigger] v@.contains(x) <==> (before.contains(x) || x == index) by {
            if v@.contains(x) {
                let k = choose|k: int| 0 <= k < v@.len() && v@[k] == x;
                if k < pos {
                    assert(before[k] == x);
                } else if k > pos {
                    assert(before[k - 1] == x);
                }
            }
            if before.contains(x) {
                let k = choose|k: int| 0 <= k < before.len() && before[k] == x;
                if k < pos {
                    assert(v@[k] == x);
                } else {
                    assert(v@[k + 1] == x);
                }
            }
            if x == index {
                assert(v@[pos as int] == x);
            }
        }
    } else {
        assert forall|x: usize| #[trigger] v@.contains(x) <==> (before.contains(x) || x == index) by {
            if x == index {
                assert(v@[pos as int] == x);
            }
        }
    }
}

/// Whether circle `c` is the first circle named `name`.
pub open spec fn first_named(circles: Seq<SetCircle>, name: Seq<char>, c: int) -> bool {
    &&& 0 <= c < circles.len()
    &&& circles[c].name@ == name
    &&& forall|d: int| 0 <= d < c ==> (#[trigger] circles[d]).name@ != name
}

/// Whether some circle is named `name`.
pub open spec fn has_circle(circles: Seq<SetCircle>, name: Seq<char>) -> bool {
    exists|c: int| 0 <= c < circles.len() && (#[trigger] circles[c]).name@ == name
}

/// The indices of the circles of `sets` (sorted, without repeats); `None` where a set has
/// no circle.
fn required_circle_indices(sets: &Vec<String>, circles: &Vec<SetCircle>) -> (r: Option<Vec<usize>>)
    ensures
        r is None <==> exists|s: int| 0 <= s < sets@.len() && !has_circle(circles@, (#[trigger] sets@[s])@),
        r matches Some(v) ==> forall|k: int| 0 <= k < v@.len() ==> (#[trigger] v@[k]) < circles@.len(),
        r matches Some(v) ==> forall|j: int, k: int| 0 <= j < k < v@.len() ==> v@[j] < v@[k],
        r matches Some(v) ==> forall|x: usize| #[trigger] v@.contains(x)
            ==> exists|s: int| 0 <= s < sets@.len() && first_named(circles@, (#[trigger] sets@[s])@, x as int),
        r matches Some(v) ==> forall|s: int, c: int| 0 <= s < sets@.len()
            && #[trigger] first_named(circles@, sets@[s]@, c) ==> v@.contains(c as usize),
{
    let mut required: Vec<usize> = Vec::new();
    let mut s: usize = 0;
    while s < sets.len()
        invariant
            s <= sets@.len(),
            forall|k: int| 0 <= k < required@.len() ==> (#[trigger] required@[k]) < circles@.len(),
            forall|j: int, k: int| 0 <= j < k < required@.len() ==> required@[j] < required@[k],
            forall|x: usize| #[trigger] required@.contains(x)
                ==> exists|t: int| 0 <= t < s && first_named(circles@, (#[trigger] sets@[t])@, x as int),
            forall|t: int, c: int| 0 <= t < s && #[trigger] first_named(circles@, sets@[t]@, c)
                ==> required@.contains(c as usize),
            forall|t: int| 0 <= t < s ==> has_circle(circles@, (#[trigger] sets@[t])@),
        decreases sets@.len() - s,
    {
        let mut found: Option<usize> = None;
        let mut c: usize = 0;
        while c < circles.len()
            invariant
                c <= circles@.len(),
                s < sets@.len(),
                found matches Some(f) ==> f < c && first_named(circles@, sets@[s as int]@, f as int),
                found is None ==> forall|d: int| 0 <= d < c ==> (#[trigger] circles@[d]).name@ != sets@[s as int]@,
            decreases circles@.len() - c,
        {
            if found.is_none() && str_eq(circles[c].name.as_str(), sets[s].as_str()) {
                found = Some(c);
            }
            c = c + 1;
        }
        let index = match found {
            Some(index) => index,
            None => {
                assert(!has_circle(circles@, sets@[s as int]@));
                return None;
            },
        };
        let ghost before = required@;
        insert_sorted(&mut required, index);
        assert forall|k: int| 0 <= k < required@.len() implies (#[trigger] required@[k]) < circles@.len() by {
            assert(required@.contains(required@[k]));
            if before.contains(required@[k]) {
                let j = choose|j: int| 0 <= j < before.len() && before[j] == required@[k];
                assert(before[j] < circles@.len());
            }
        }
        assert forall|x: usize| #[trigger] required@.contains(x)
            implies exists|t: int| 0 <= t < s + 1 && first_named(circles@, (#[trigger] sets@[t])@, x as int) by {
            if x == index {
                assert(first_named(circles@, sets@[s as int]@, x as int));
            }
        }
        assert forall|t: int, c: int| 0 <= t < s + 1 && #[trigger] first_named(circles@, sets@[t]@, c)
            implies required@.contains(c as usize) by {
            if t == s {
                if c < index {
                    assert(circles@[c].name@ != sets@[s as int]@);
                } else if c > index {
                    assert(circles@[index as int].name@ != sets@[t]@);
                }
            }
        }
        assert(has_circle(circles@, sets@[s as int]@));
        s = s + 1;
    }
    Some(required)
}

/// `a / b` rounded toward zero, for a positive `b`.
pub open spec fn truncated_quotient(a: int, b: int) -> int {
    if a >= 0 { a / b } else { -((-a) / b) }
}

/// The truncating quotient `sum / count`, for a positive count.
fn truncated_mean(sum: i64, count: i64) -> (r: i64)
    requires
        0 < count <= 4096,
        -4096 * count <= sum <= 4096 * count,
    ensures
        r == truncated_quotient(sum as int, count as int),
        -MAX_ELLIPSE_EXTENT <= r <= MAX_ELLIPSE_EXTENT,
{
    if sum >= 0 {
        let q = sum / count;
        assert(q <= 4096) by (nonlinear_arith)
            requires 0 < count, 0 <= sum <= 4096 * count, q == sum / count;
        q
    } else {
        let m = -sum;
        let q = m / count;
        assert(q <= 4096) by (nonlinear_arith)
            requires 0 < count, 0 <= m <= 4096 * count, q == m / count;
        -q
    }
}

/// The sums of the center columns and rows of the first `n` circles of `required`.
pub open spec fn center_sums(circles: Seq<SetCircle>, required: Seq<usize>, n: int) -> (int, int)
    decreases n,
{
    if n <= 0 {
        (0, 0)
    } else {
        let p = center_sums(circles, required, n - 1);
        (p.0 + circles[required[n - 1] as int].shape.cx, p.1 + circles[required[n - 1] as int].shape.cy)
    }
}

/// Where the label of a region aims: the mean center of its circles, or the middle of the
/// canvas for no circle.
fn region_center(circles: &Vec<SetCircle>, required: &Vec<usize>, width: usize, height: usize) -> (r: (i64, i64))
    requires
        forall|k: int| 0 <= k < required@.len() ==> (#[trigger] required@[k]) < circles@.len(),
        forall|k: int| 0 <= k < circles@.len() ==> ellipse_in_range((#[trigger] circles@[k]).shape),
        required@.len() <= MAX_CHART_ENTITIES,
        width <= 4096,
        height <= 4096,
    ensures
        required@.len() == 0 ==> r == ((width / 2) as i64, (height / 2) as i64),
        required@.len() > 0 ==> r == (
            truncated_quotient(center_sums(circles@, required@, required@.len() as int).0, required@.len() as int) as i64,
            truncated_quotient(center_sums(circles@, required@, required@.len() as int).1, required@.len() as int) as i64),
        -MAX_ELLIPSE_EXTENT <= r.0 <= 4096,
        -MAX_ELLIPSE_EXTENT <= r.1 <= 4096,
{
    if required.len() == 0 {
        return ((width / 2) as i64, (height / 2) as i64);
    }
    let n = required.len();
    let mut sx: i64 = 0;
    let mut sy: i64 = 0;
    let mut k: usize = 0;
    while k < n
        invariant
            k <= n,
            n == required@.len(),
            n <= MAX_CHART_ENTITIES,
            forall|j: int| 0 <= j < required@.len() ==> (#[trigger] required@[j]) < circles@.len(),
            forall|j: int| 0 <= j < circles@.len() ==> ellipse_in_range((#[trigger] circles@[j]).shape),
            -4096 * k <= sx <= 4096 * k,
            -4096 * k <= sy <= 4096 * k,
            (sx as int, sy as int) == center_sums(circles@, required@, k as int),
        decreases n - k,
    {
        let shape = circles[required[k]].shape;
        sx = sx + shape.cx;
        sy = sy + shape.cy;
        k = k + 1;
    }
    let x = truncated_mean(sx, n as i64);
    let y = truncated_mean(sy, n as i64);
    (x, y)
}

/// Whether `contains` answered, for cell `(x, y)`, that circle `c` agrees with the region of
/// `required`: inside it (with `inset`) where `c` is required, and (for an exact match) not
/// inside it otherwise.
pub open spec fn circle_agrees<F: Fn(Ellipse, usize, usize, Inset) -> bool>(circles: Seq<SetCircle>,
    required: Seq<usize>, c: int, x: usize, y: usize, exact: bool, inset: Inset, contains: F) -> bool {
    &&& required.contains(c as usize) ==> call_ensures(contains, (circles[c].shape, x, y, inset), true)
    &&& (exact && !required.contains(c as usize)) ==> call_ensures(contains, (circles[c].shape, x, y, Inset::Outside), false)
}

/// Whether `contains` answered, for cell `(x, y)`, that circle `c` disagrees with the region of
/// `required`.
pub open spec fn circle_disagrees<F: Fn(Ellipse, usize, usize, Inset) -> bool>(circles: Seq<SetCircle>,
    required: Seq<usize>, c: int, x: usize, y: usize, exact: bool, inset: Inset, contains: F) -> bool {
    ||| required.contains(c as usize) && call_ensures(contains, (circles[c].shape, x, y, inset), false)
    ||| exact && !required.contains(c as usize) && call_ensures(contains, (circles[c].shape, x, y, Inset::Outside), true)
}

/// Whether cell `(x, y)` lies in the region of `required`: inside each of its circles, and
/// (for an exact match) outside every other circle. Every circle is asked in turn, until one
/// disagrees.
pub fn point_matches_region<F: Fn(Ellipse, usize, usize, Inset) -> bool>(circles: &Vec<SetCircle>,
    required: &Vec<usize>, x: usize, y: usize, exact: bool, inset: Inset, contains: &F) -> (r: bool)
    requires
        forall|e: Ellipse, a: usize, b: usize, i: Inset| #[trigger] call_requires(*contains, (e, a, b, i)),
    ensures
        r ==> forall|c: int| 0 <= c < circles@.len()
            ==> #[trigger] circle_agrees(circles@, required@, c, x, y, exact, inset, *contains),
        !r ==> exists|c: int| 0 <= c < circles@.len()
            && #[trigger] circle_disagrees(circles@, required@, c, x, y, exact, inset, *contains),
{
    let mut c: usize = 0;
    while c < circles.len()
        invariant
            c <= circles@.len(),
            forall|e: Ellipse, a: usize, b: usize, i: Inset| #[trigger] call_requires(*contains, (e, a, b, i)),
            forall|d: int| 0 <= d < c
                ==> #[trigger] circle_agrees(circles@, required@, d, x, y, exact, inset, *contains),
        decreases circles@.len() - c,
    {
        let mut is_required = false;
        let mut k: usize = 0;
        while k < required.len()
            invariant
                k <= required@.len(),
                is_required <==> exists|j: int| 0 <= j < k && required@[j] == c,
            decreases required@.len() - k,
        {
            if required[k] == c {
                is_required = true;
            }
            k = k + 1;
        }
        assert(is_required <==> required@.contains(c));
        let shape = circles[c].shape;
        if is_required {
            if !contains(shape, x, y, inset) {
                assert(circle_disagrees(circles@, required@, c as int, x, y, exact, inset, *contains));
                return false;
            }
        } else if exact {
            if contains(shape, x, y, Inset::Outside) {
                assert(circle_disagrees(circles@, required@, c as int, x, y, exact, inset, *contains));
                return false;
            }
        }
        assert(circle_agrees(circles@, required@, c as int, x, y, exact, inset, *contains));
        c = c + 1;
    }
    true
}

/// Whether every cell of a span lies in the region.
fn span_matches_region<F: Fn(Ellipse, usize, usize, Inset) -> bool>(circles: &Vec<SetCircle>,
    required: &Vec<usize>, x: usize, y: usize, width: usize, exact: bool, contains: &F) -> (r: bool)
    requires
        x + width <= usize::MAX,
        forall|e: Ellipse, a: usize, b: usize, i: Inset| #[trigger] call_requires(*contains, (e, a, b, i)),
    ensures
        r ==> forall|col: usize, c: int| x <= col < x + width && 0 <= c < circles@.len()
            ==> #[trigger] circle_agrees(circles@, required@, c, col, y, exact, Inset::Label, *contains),
        !r ==> exists|col: usize, c: int| x <= col < x + width && 0 <= c < circles@.len()
            && #[trigger] circle_disagrees(circles@, required@, c, col, y, exact, Inset::Label, *contains),
{
    let end = x + width;
    let mut column = x;
    while column < end
        invariant
            x <= column <= end,
            end == x + width,
            forall|e: Ellipse, a: usize, b: usize, i: Inset| #[trigger] call_requires(*contains, (e, a, b, i)),
            forall|col: usize, c: int| x <= col < column && 0 <= c < circles@.len()
                ==> #[trigger] circle_agrees(circles@, required@, c, col, y, exact, Inset::Label, *contains),
        decreases end - column,
    {
        if !point_matches_region(circles, required, column, y, exact, Inset::Label, contains) {
            return false;
        }
        column = column + 1;
    }
    true
}

/// `|a - b|` for coordinates in range.
fn distance(a: i64, b: i64) -> (r: i64)
    requires
        -1_000_000 <= a <= 1_000_000,
        -1_000_000 <= b <= 1_000_000,
    ensures
        0 <= r <= 2_000_000,
{
    if a > b { a - b } else { b - a }
}

/// Whether candidate `a` comes before `b`: nearer first, then higher, then further left.
fn earlier(a: (i64, usize, usize), b: (i64, usize, usize)) -> (r: bool)
    ensures
        r == (a.0 < b.0 || (a.0 == b.0 && (a.1 < b.1 || (a.1 == b.1 && a.2 < b.2)))),
{
    a.0 < b.0 || (a.0 == b.0 && (a.1 < b.1 || (a.1 == b.1 && a.2 < b.2)))
}

/// The start of the clear span of `text` in the region of `sets` nearest its center (an
/// exact match first, then for an intersection any match), if any.
fn find_region_span<F: Fn(Ellipse, usize, usize, Inset) -> bool>(canvas: &Canvas, circles: &Vec<SetCircle>,
    sets: &Vec<String>, text: &str, contains: &F) -> (r: Option<(usize, usize)>)
    requires
        canvas.wf(),
        canvas@.width <= 4096,
        canvas@.height <= 4096,
        forall|k: int| 0 <= k < circles@.len() ==> ellipse_in_range((#[trigger] circles@[k]).shape),
        circles@.len() <= MAX_CHART_ENTITIES,
        forall|e: Ellipse, a: usize, b: usize, i: Inset| #[trigger] call_requires(*contains, (e, a, b, i)),
    ensures
        r matches Some(p) ==> p.0 < canvas@.width && p.1 < canvas@.height,
{
    let width = str_display_width(text);
    let canvas_width = canvas.width();
    let canvas_height = canvas.height();
    if width == 0 || width > canvas_width {
        return None;
    }
    let required = match required_circle_indices(sets, circles) {
        Some(required) => required,
        None => return None,
    };
    if required.len() > MAX_CHART_ENTITIES {
        return None;
    }
    let (target_x, target_y) = region_center(circles, &required, canvas_width, canvas_height);
    let mut pass: usize = 0;
    while pass < 2
        invariant
            pass <= 2,
            canvas.wf(),
            canvas_width == canvas@.width,
            canvas_height == canvas@.height,
            canvas_width <= 4096,
            canvas_height <= 4096,
            1 <= width <= canvas_width,
            -MAX_ELLIPSE_EXTENT <= target_x <= 4096,
            -MAX_ELLIPSE_EXTENT <= target_y <= 4096,
            forall|e: Ellipse, a: usize, b: usize, i: Inset| #[trigger] call_requires(*contains, (e, a, b, i)),
        decreases 2 - pass,
    {
        let exact = pass == 0;
        if exact || required.len() > 1 {
            let mut best: Option<(i64, usize, usize)> = None;
            let mut y: usize = 0;
            while y < canvas_height
                invariant
                    y <= canvas_height,
                    canvas.wf(),
                    canvas_width == canvas@.width,
                    canvas_height == canvas@.height,
                    canvas_width <= 4096,
                    canvas_height <= 4096,
                    1 <= width <= canvas_width,
                    -MAX_ELLIPSE_EXTENT <= target_x <= 4096,
                    -MAX_ELLIPSE_EXTENT <= target_y <= 4096,
                    best matches Some(b) ==> b.2 < canvas_width && b.1 < canvas_height,
                    forall|e: Ellipse, a: usize, b: usize, i: Inset| #[trigger] call_requires(*contains, (e, a, b, i)),
                decreases canvas_height - y,
            {
                let mut x: usize = 0;
                while x <= canvas_width - width
                    invariant
                        x <= canvas_width - width + 1,
                        y < canvas_height,
                        canvas.wf(),
                        canvas_width == canvas@.width,
                        canvas_height == canvas@.height,
                        canvas_width <= 4096,
                        canvas_height <= 4096,
                        1 <= width <= canvas_width,
                        -MAX_ELLIPSE_EXTENT <= target_x <= 4096,
                        -MAX_ELLIPSE_EXTENT <= target_y <= 4096,
                        best matches Some(b) ==> b.2 < canvas_width && b.1 < canvas_height,
                        forall|e: Ellipse, a: usize, b: usize, i: Inset| #[trigger] call_requires(*contains, (e, a, b, i)),
                    decreases canvas_width - width + 1 - x,
                {
                    if span_has_clear_margin(canvas, x, y, width)
                        && span_matches_region(circles, &required, x, y, width, exact, contains) {
                        let center_x = (x + width / 2) as i64;
                        let d = distance(center_x, target_x) + distance(y as i64, target_y);
                        let candidate = (d, y, x);
                        let better = match best {
                            Some(b) => earlier(candidate, b),
                            None => true,
                        };
                        if better {
                            best = Some(candidate);
                        }
                    }
                    x = x + 1;
                }
                y = y + 1;
            }
            match best {
                Some(b) => return Some((b.2, b.1)),
                None => {},
            }
        }
        pass = pass + 1;
    }
    None
}

/// The clear cell of the region of `sets` nearest its center (an exact match first, then for
/// an intersection any match), if any.
fn find_region_point<F: Fn(Ellipse, usize, usize, Inset) -> bool>(canvas: &Canvas, circles: &Vec<SetCircle>,
    sets: &Vec<String>, contains: &F) -> (r: Option<(usize, usize)>)
    requires
        canvas.wf(),
        canvas@.width <= 4096,
        canvas@.height <= 4096,
        forall|k: int| 0 <= k < circles@.len() ==> ellipse_in_range((#[trigger] circles@[k]).shape),
        circles@.len() <= MAX_CHART_ENTITIES,
        forall|e: Ellipse, a: usize, b: usize, i: Inset| #[trigger] call_requires(*contains, (e, a, b, i)),
    ensures
        r matches Some(p) ==> p.0 < canvas@.width && p.1 < canvas@.height,
{
    let canvas_width = canvas.width();
    let canvas_height = canvas.height();
    let required = match required_circle_indices(sets, circles) {
        Some(required) => required,
        None => return None,
    };
    if required.len() > MAX_CHART_ENTITIES {
        return None;
    }
    let (target_x, target_y) = region_center(circles, &required, canvas_width, canvas_height);
    let mut pass: usize = 0;
    while pass < 2
        invariant
            pass <= 2,
            canvas.wf(),
            canvas_width == canvas@.width,
            canvas_height == canvas@.height,
            canvas_width <= 4096,
            canvas_height <= 4096,
            -MAX_ELLIPSE_EXTENT <= target_x <= 4096,
            -MAX_ELLIPSE_EXTENT <= target_y <= 4096,
            forall|e: Ellipse, a: usize, b: usize, i: Inset| #[trigger] call_requires(*contains, (e, a, b, i)),
        decreases 2 - pass,
    {
        let exact = pass == 0;
        if exact || required.len() > 1 {
            let mut best: Option<(i64, usize, usize)> = None;
            let mut y: usize = 0;
            while y < canvas_height
                invariant
                    y <= canvas_height,
                    canvas.wf(),
                    canvas_width == canvas@.width,
                    canvas_height == canvas@.height,
                    canvas_width <= 4096,
                    canvas_height <= 4096,
                    -MAX_ELLIPSE_EXTENT <= target_x <= 4096,
                    -MAX_ELLIPSE_EXTENT <= target_y <= 4096,
                    best matches Some(b) ==> b.2 < canvas_width && b.1 < canvas_height,
                    forall|e: Ellipse, a: usize, b: usize, i: Inset| #[trigger] call_requires(*contains, (e, a, b, i)),
                decreases canvas_height - y,
            {
                let mut x: usize = 0;
                while x < canvas_width
                    invariant
                        x <= canvas_width,
                        y < canvas_height,
                        canvas.wf(),
                        canvas_width == canvas@.width,
                        canvas_height == canvas@.height,
                        canvas_width <= 4096,
                        canvas_height <= 4096,
                        -MAX_ELLIPSE_EXTENT <= target_x <= 4096,
                        -MAX_ELLIPSE_EXTENT <= target_y <= 4096,
                        best matches Some(b) ==> b.2 < canvas_width && b.1 < canvas_height,
                        forall|e: Ellipse, a: usize, b: usize, i: Inset| #[trigger] call_requires(*contains, (e, a, b, i)),
                    decreases canvas_width - x,
                {
                    if cell_is_clear(canvas, x, y) && point_matches_region(circles, &required, x, y, exact, Inset::Marker, contains) {
                        let d = distance(x as i64, target_x) + distance(y as i64, target_y);
                        let candidate = (d, y, x);
                        let better = match best {
                            Some(b) => earlier(candidate, b),
                            None => true,
                        };
                        if better {
                            best = Some(candidate);
                        }
                    }
                    x = x + 1;
                }
                y = y + 1;
            }
            match best {
                Some(b) => return Some((b.2, b.1)),
                None => {},
            }
        }
        pass = pass + 1;
    }
    None
}

/// `marker`, a separator and `text`, as a callout line shows them.
fn callout_text(marker: &str, separator: &str, text: &str) -> (r: String)
    ensures
        r@ == marker@ + separator@ + seq![' '] + text@,
{
    let mut out = String::from_str(marker);
    out.append(separator);
    out.append(" ");
    out.append(text);
    proof { reveal_strlit(" "); }
    assert(out@ =~= marker@ + separator@ + seq![' '] + text@);
    out
}

/// Lists the callouts in a lane right of the drawing, each on its own row as near its marker's
/// row as the order allows, joined to its marker by a short leader. Where the lane does not
/// fit the canvas, nothing is drawn and every callout is returned for listing below the chart.
fn place_connected_callouts(canvas: &mut Canvas, callouts: Vec<PendingCallout>, charset: Charset)
    -> (r: Result<Vec<(&'static str, String)>>)
    requires
        old(canvas).wf(),
        old(canvas)@.width <= 4096,
        old(canvas)@.height <= 4096,
        forall|k: int| 0 <= k < callouts@.len() ==> (#[trigger] callouts@[k]).anchor.0 < old(canvas)@.width
            && callouts@[k].anchor.1 < old(canvas)@.height,
    ensures
        final(canvas).wf(),
{
    if callouts.len() == 0 {
        return Ok(Vec::new());
    }
    // Sorted by marker row, then column, then source order.
    let n = callouts.len();
    let mut sorted: Vec<usize> = Vec::new();
    let mut i: usize = 0;
    while i < n
        invariant
            i <= n,
            n == callouts@.len(),
            sorted@.len() == i,
            forall|k: int| 0 <= k < sorted@.len() ==> (#[trigger] sorted@[k]) < i,
        decreases n - i,
    {
        let key = (callouts[i].anchor.1, callouts[i].anchor.0, callouts[i].order);
        let mut pos: usize = 0;
        while pos < sorted.len()
            invariant
                pos <= sorted@.len(),
                i < n,
                n == callouts@.len(),
                forall|k: int| 0 <= k < sorted@.len() ==> (#[trigger] sorted@[k]) < i,
            decreases sorted@.len() - pos,
        {
            let other = &callouts[sorted[pos]];
            let okey = (other.anchor.1, other.anchor.0, other.order);
            if key.0 < okey.0 || (key.0 == okey.0 && (key.1 < okey.1 || (key.1 == okey.1 && key.2 < okey.2))) {
                break;
            }
            pos = pos + 1;
        }
        sorted.insert(pos, i);
        i = i + 1;
    }

    let mut maximum_width: usize = 0;
    let mut k: usize = 0;
    while k < n
        invariant
            k <= n,
            n == callouts@.len(),
            sorted@.len() == n,
        decreases n - k,
    {
        let w = str_display_width(callout_text(callouts[k].marker, "-", callouts[k].text.as_str()).as_str());
        if w > maximum_width {
            maximum_width = w;
        }
        k = k + 1;
    }
    let canvas_width = canvas.width();
    let canvas_height = canvas.height();
    let geometry_right = match rightmost_occupied_column(canvas) {
        Some(c) => c,
        None => 0,
    };
    let callout_x = geometry_right + 3;
    let fits = n <= canvas_height && callout_x.saturating_add(maximum_width) <= canvas_width;
    let mut rows: Vec<usize> = Vec::new();
    let mut all_fit = fits;
    if fits {
        let mut k: usize = 0;
        while k < n
            invariant
                k <= n,
                n == callouts@.len(),
                n <= canvas_height,
                sorted@.len() == n,
                forall|j: int| 0 <= j < sorted@.len() ==> (#[trigger] sorted@[j]) < n,
                rows@.len() == k,
                canvas.wf(),
                canvas_width == canvas@.width,
                canvas_height == canvas@.height,
                canvas_width <= 4096,
                callout_x <= canvas_width,
                forall|j: int| 0 <= j < rows@.len() ==> (#[trigger] rows@[j]) <= canvas_height - (n - j),
                k > 0 ==> rows@[k - 1] <= canvas_height - (n - (k - 1)),
            decreases n - k,
        {
            let callout = &callouts[sorted[k]];
            let minimum_row = if k == 0 { 0 } else { rows[k - 1] + 1 };
            let maximum_row = canvas_height - (n - k);
            let row = if callout.anchor.1 < minimum_row {
                minimum_row
            } else if callout.anchor.1 > maximum_row {
                maximum_row
            } else {
                callout.anchor.1
            };
            rows.push(row);
            if all_fit {
                let text = callout_text(callout.marker, "-", callout.text.as_str());
                let w = str_display_width(text.as_str());
                if callout_x > usize::MAX - w || !span_is_clear(canvas, callout_x, row, w) {
                    all_fit = false;
                }
            }
            k = k + 1;
        }
    }
    if !all_fit {
        let mut fallback: Vec<(&'static str, String)> = Vec::new();
        let mut k: usize = 0;
        while k < n
            invariant
                k <= n,
                n == callouts@.len(),
                sorted@.len() == n,
                forall|j: int| 0 <= j < sorted@.len() ==> (#[trigger] sorted@[j]) < n,
            decreases n - k,
        {
            let callout = &callouts[sorted[k]];
            fallback.push((callout.marker, callout.text.clone()));
            k = k + 1;
        }
        return Ok(fallback);
    }

    let connector = match charset {
        Charset::Unicode => "·",
        Charset::Ascii => ".",
    };
    let separator = match charset {
        Charset::Unicode => "─",
        Charset::Ascii => "-",
    };
    let mut k: usize = 0;
    while k < n
        invariant
            k <= n,
            n == callouts@.len(),
            sorted@.len() == n,
            forall|j: int| 0 <= j < sorted@.len() ==> (#[trigger] sorted@[j]) < n,
            canvas.wf(),
            callout_x <= 4096,
            forall|j: int| 0 <= j < callouts@.len() ==> (#[trigger] callouts@[j]).anchor.0 < 4096
                && callouts@[j].anchor.1 < 4096,
        decreases n - k,
    {
        let callout = &callouts[sorted[k]];
        let reach = callout.anchor.0 + 3;
        let lane = if callout_x > 0 { callout_x - 1 } else { 0 };
        let leader_end = if reach < lane { reach } else { lane };
        match draw_line(canvas, callout.anchor.0 as i64, callout.anchor.1 as i64, leader_end as i64,
            callout.anchor.1 as i64, connector) {
            Ok(()) => {},
            Err(e) => return Err(e),
        }
        k = k + 1;
    }
    let mut k: usize = 0;
    while k < n
        invariant
            k <= n,
            n == callouts@.len(),
            sorted@.len() == n,
            rows@.len() == n,
            forall|j: int| 0 <= j < sorted@.len() ==> (#[trigger] sorted@[j]) < n,
            canvas.wf(),
        decreases n - k,
    {
        let callout = &callouts[sorted[k]];
        let text = callout_text(callout.marker, separator, callout.text.as_str());
        match canvas.set_text(callout_x, rows[k], text.as_str()) {
            Ok(()) => {},
            Err(e) => return Err(e),
        }
        k = k + 1;
    }
    Ok(Vec::new())
}

/// Plots the outline of a set ellipse: for each row its two edge cells, and for each column
/// its top and bottom cells. `offset` gives the half-width of an ellipse with radii `major`
/// (across) and `minor` at distance `d` from its center along the minor axis.
fn draw_ellipse_outline<G: Fn(i64, i64, i64) -> i64>(canvas: &mut Canvas, shape: Ellipse, glyph: &str, offset: &G)
    -> (r: Result<()>)
    requires
        old(canvas).wf(),
        ellipse_in_range(shape),
        forall|a: i64, b: i64, c: i64| #[trigger] call_requires(*offset, (a, b, c)),
    ensures
        final(canvas).wf(),
        final(canvas)@.width == old(canvas)@.width,
        final(canvas)@.height == old(canvas)@.height,
{
    let mut dy: i64 = -shape.ry;
    while dy <= shape.ry
        invariant
            canvas.wf(),
            canvas@.width == old(canvas)@.width,
            canvas@.height == old(canvas)@.height,
            ellipse_in_range(shape),
            -shape.ry <= dy <= shape.ry + 1,
            forall|a: i64, b: i64, c: i64| #[trigger] call_requires(*offset, (a, b, c)),
        decreases shape.ry + 1 - dy,
    {
        let raw = offset(shape.rx, shape.ry, dy);
        let dx = if raw < 0 { 0 } else if raw > shape.rx { shape.rx } else { raw };
        match plot(canvas, shape.cx - dx, shape.cy + dy, glyph) {
            Ok(()) => {},
            Err(e) => return Err(e),
        }
        match plot(canvas, shape.cx + dx, shape.cy + dy, glyph) {
            Ok(()) => {},
            Err(e) => return Err(e),
        }
        dy = dy + 1;
    }
    let mut dx: i64 = -shape.rx;
    while dx <= shape.rx
        invariant
            canvas.wf(),
            canvas@.width == old(canvas)@.width,
            canvas@.height == old(canvas)@.height,
            ellipse_in_range(shape),
            -shape.rx <= dx <= shape.rx + 1,
            forall|a: i64, b: i64, c: i64| #[trigger] call_requires(*offset, (a, b, c)),
        decreases shape.rx + 1 - dx,
    {
        let raw = offset(shape.ry, shape.rx, dx);
        let dy = if raw < 0 { 0 } else if raw > shape.ry { shape.ry } else { raw };
        match plot(canvas, shape.cx + dx, shape.cy - dy, glyph) {
            Ok(()) => {},
            Err(e) => return Err(e),
        }
        match plot(canvas, shape.cx + dx, shape.cy + dy, glyph) {
            Ok(()) => {},
            Err(e) => return Err(e),
        }
        dx = dx + 1;
    }
    Ok(())
}

/// The first `n` styles as `key=value, ...`.
pub open spec fn style_pairs(styles: Seq<(String, String)>, n: int) -> Seq<char>
    decreases n,
{
    if n <= 0 {
        seq![]
    } else {
        style_pairs(styles, n - 1) + (if n > 1 { ", "@ } else { seq![] }) + styles[n - 1].0@ + "="@
            + styles[n - 1].1@
    }
}

/// The line listing a style entry.
pub open spec fn style_line_text(entry: VennStyle) -> Seq<char> {
    "  "@ + joined_names(entry.targets@, entry.targets@.len() as int, ","@) + ": "@
        + style_pairs(entry.styles@, entry.styles@.len() as int) + "\n"@
}

/// The sets of `entry` as `a,b`, and its styles as `key=value, ...`.
fn style_line(entry: &VennStyle) -> (r: String)
    ensures
        r@ == style_line_text(*entry),
{
    let mut out = String::from_str("  ");
    out.append(joined(&entry.targets, ",").as_str());
    out.append(": ");
    let ghost head = out@;
    let mut k: usize = 0;
    while k < entry.styles.len()
        invariant
            k <= entry.styles@.len(),
            head == "  "@ + joined_names(entry.targets@, entry.targets@.len() as int, ","@) + ": "@,
            out@ == head + style_pairs(entry.styles@, k as int),
        decreases entry.styles@.len() - k,
    {
        let ghost before = out@;
        if k > 0 {
            out.append(", ");
        }
        out.append(entry.styles[k].0.as_str());
        out.append("=");
        out.append(entry.styles[k].1.as_str());
        k = k + 1;
        assert(out@ =~= head + style_pairs(entry.styles@, k as int));
    }
    out.append("\n");
    assert(out@ =~= style_line_text(*entry));
    out
}

/// Whether the text ends with a line break.
fn ends_with_newline(s: &str) -> (r: bool)
    ensures
        r == (s@.len() > 0 && s@.last() == '\n'),
{
    let chars = chars_of(s);
    chars.len() > 0 && chars[chars.len() - 1] == '\n'
}

/// Render a Venn diagram: one closed ellipse per set, every subset and text-node label in its
/// region where it fits (else a marker there, with the label in a callout lane joined to it,
/// or listed below the chart), then the styles, the intersections and the text nodes.
///
/// The subset and text-node counts are bounded first; a diagram without a single-set subset
/// gives a placeholder line. `layout` is asked for the ellipses of the sets (given the
/// indices of their subsets and the canvas width and height), `offset` for the half-widths
/// of an outline, and `contains` whether a cell lies inside an ellipse.
pub fn render_venn<L, G, F>(model: &VennDiagram, opts: &MermansiOptions, layout: L, offset: G, contains: F)
    -> (r: Result<String>)
    where
        L: FnOnce(Vec<usize>, usize, usize) -> Vec<Ellipse>,
        G: Fn(i64, i64, i64) -> i64,
        F: Fn(Ellipse, usize, usize, Inset) -> bool,
    requires
        forall|v: Vec<usize>, a: usize, b: usize| #[trigger] call_requires(layout, (v, a, b)),
        forall|a: i64, b: i64, c: i64| #[trigger] call_requires(offset, (a, b, c)),
        forall|e: Ellipse, a: usize, b: usize, i: Inset| #[trigger] call_requires(contains, (e, a, b, i)),
    ensures
        model.subsets@.len() > MAX_CHART_ENTITIES ==> r == Err::<String, MermansiError>(MermansiError::RenderLimit {
            context: "venn subsets", requested: model.subsets@.len() as usize, limit: MAX_CHART_ENTITIES }),
        model.subsets@.len() <= MAX_CHART_ENTITIES && model.text_nodes@.len() > MAX_CHART_ENTITIES
            ==> r == Err::<String, MermansiError>(MermansiError::RenderLimit {
            context: "venn text nodes", requested: model.text_nodes@.len() as usize, limit: MAX_CHART_ENTITIES }),
        model.subsets@.len() <= MAX_CHART_ENTITIES && model.text_nodes@.len() <= MAX_CHART_ENTITIES
            && (forall|i: int| 0 <= i < model.subsets@.len() ==> (#[trigger] model.subsets@[i]).sets@.len() != 1)
            ==> (r matches Ok(s) && s@ == title_text(model.title) + "(empty venn diagram)\n"@),
        r matches Ok(s) ==> (model.text_nodes@.len() > 0
            && (exists|i: int| 0 <= i < model.subsets@.len() && (#[trigger] model.subsets@[i]).sets@.len() == 1) ==> ({
            let tail = "\nText Nodes:\n"@ + text_node_rows(model.text_nodes@, model.text_nodes@.len() as int,
                set_separator(opts.charset)@);
            s@.len() >= tail.len() && s@.subrange(s@.len() - tail.len(), s@.len() as int) == tail
        })),
{
    let mut out = format_title(&model.title);
    match ensure_entity_limit("venn subsets", model.subsets.len()) {
        Ok(()) => {},
        Err(e) => return Err(e),
    }
    match ensure_entity_limit("venn text nodes", model.text_nodes.len()) {
        Ok(()) => {},
        Err(e) => return Err(e),
    }
    let singletons = singleton_subsets(&model.subsets);
    if singletons.len() == 0 {
        out.append("(empty venn diagram)\n");
        return Ok(out);
    }
    assert(model.subsets@[singletons@[0] as int].sets@.len() == 1);
    draw_venn(model, opts, singletons, out, layout, offset, contains)
}

/// Draws the sets of `singletons` and places the labels, then lists the callouts, styles,
/// intersections and text nodes after `out`.
fn draw_venn<L, G, F>(model: &VennDiagram, opts: &MermansiOptions, singletons: Vec<usize>, out: String, layout: L,
    offset: G, contains: F) -> (r: Result<String>)
    where
        L: FnOnce(Vec<usize>, usize, usize) -> Vec<Ellipse>,
        G: Fn(i64, i64, i64) -> i64,
        F: Fn(Ellipse, usize, usize, Inset) -> bool,
    requires
        1 <= singletons@.len(),
        forall|k: int| 0 <= k < singletons@.len() ==> (#[trigger] singletons@[k]) < model.subsets@.len()
            && model.subsets@[singletons@[k] as int].sets@.len() == 1,
        singletons@.len() <= MAX_CHART_ENTITIES,
        forall|v: Vec<usize>, a: usize, b: usize| #[trigger] call_requires(layout, (v, a, b)),
        forall|a: i64, b: i64, c: i64| #[trigger] call_requires(offset, (a, b, c)),
        forall|e: Ellipse, a: usize, b: usize, i: Inset| #[trigger] call_requires(contains, (e, a, b, i)),
    ensures
        r matches Ok(s) ==> (model.text_nodes@.len() > 0 ==> ({
            let tail = "\nText Nodes:\n"@ + text_node_rows(model.text_nodes@, model.text_nodes@.len() as int,
                set_separator(opts.charset)@);
            s@.len() >= tail.len() && s@.subrange(s@.len() - tail.len(), s@.len() as int) == tail
        })),
{
    let mut out = out;
    let preferred_height: usize = if singletons.len() == 1 { 18 } else if singletons.len() == 2 { 24 }
        else if singletons.len() == 3 { 30 } else { 32 };
    let preferred_width: usize = if preferred_height * 2 < 64 { preferred_height * 2 } else { 64 };
    let (chart_width, chart_height) = match checked_chart_dimensions(opts, (20, 10), (preferred_width, preferred_height)) {
        Ok(d) => d,
        Err(e) => return Err(e),
    };
    let mut canvas = match Canvas::new(chart_width, chart_height) {
        Ok(c) => c,
        Err(e) => return Err(e),
    };
    let mut names: Vec<String> = Vec::new();
    let mut k: usize = 0;
    while k < singletons.len()
        invariant
            k <= singletons@.len(),
            names@.len() == k,
            forall|j: int| 0 <= j < singletons@.len() ==> (#[trigger] singletons@[j]) < model.subsets@.len()
                && model.subsets@[singletons@[j] as int].sets@.len() == 1,
        decreases singletons@.len() - k,
    {
        names.push(model.subsets[singletons[k]].sets[0].clone());
        k = k + 1;
    }
    let shapes = layout(singletons, chart_width, chart_height);
    if shapes.len() != names.len() {
        return Err(MermansiError::GeometryLayout {
            family: "venn",
            message: String::from_str("set layout does not give one ellipse per set"),
        });
    }
    let mut circles: Vec<SetCircle> = Vec::new();
    let mut k: usize = 0;
    while k < shapes.len()
        invariant
            k <= shapes@.len(),
            shapes@.len() == names@.len(),
            circles@.len() == k,
            forall|j: int| 0 <= j < circles@.len() ==> ellipse_in_range((#[trigger] circles@[j]).shape),
        decreases shapes@.len() - k,
    {
        let shape = shapes[k];
        if !(-MAX_ELLIPSE_EXTENT <= shape.cx && shape.cx <= MAX_ELLIPSE_EXTENT && -MAX_ELLIPSE_EXTENT <= shape.cy
            && shape.cy <= MAX_ELLIPSE_EXTENT && 0 <= shape.rx && shape.rx <= MAX_ELLIPSE_EXTENT && 0 <= shape.ry
            && shape.ry <= MAX_ELLIPSE_EXTENT) {
            return Err(MermansiError::GeometryLayout {
                family: "venn",
                message: String::from_str("set ellipse lies outside the drawable range"),
            });
        }
        circles.push(SetCircle { name: names[k].clone(), shape });
        k = k + 1;
    }
    assert(circles@.len() <= MAX_CHART_ENTITIES);

    let outline = match opts.charset {
        Charset::Unicode => "○",
        Charset::Ascii => "o",
    };
    let mut k: usize = 0;
    while k < circles.len()
        invariant
            k <= circles@.len(),
            canvas.wf(),
            canvas@.width == chart_width,
            canvas@.height == chart_height,
            chart_width <= 64,
            chart_height <= 32,
            forall|j: int| 0 <= j < circles@.len() ==> ellipse_in_range((#[trigger] circles@[j]).shape),
            forall|a: i64, b: i64, c: i64| #[trigger] call_requires(offset, (a, b, c)),
        decreases circles@.len() - k,
    {
        match draw_ellipse_outline(&mut canvas, circles[k].shape, outline, &offset) {
            Ok(()) => {},
            Err(e) => return Err(e),
        }
        k = k + 1;
    }

    let intersection_separator = match opts.charset {
        Charset::Unicode => "∩",
        Charset::Ascii => "&",
    };
    assert(intersection_separator == set_separator(opts.charset));
    let labels = collect_region_labels(model, intersection_separator);
    let ranked = placement_order(&labels);
    let mut pending: Vec<PendingCallout> = Vec::new();
    let mut fallback: Vec<(&'static str, String)> = Vec::new();
    let mut callout_index: usize = 0;
    let mut k: usize = 0;
    while k < ranked.len()
        invariant
            k <= ranked@.len(),
            callout_index <= k,
            forall|j: int| 0 <= j < ranked@.len() ==> (#[trigger] ranked@[j]) < labels@.len(),
            canvas.wf(),
            canvas@.width == chart_width,
            canvas@.height == chart_height,
            chart_width <= 64,
            chart_height <= 32,
            circles@.len() <= MAX_CHART_ENTITIES,
            forall|j: int| 0 <= j < circles@.len() ==> ellipse_in_range((#[trigger] circles@[j]).shape),
            forall|j: int| 0 <= j < pending@.len() ==> (#[trigger] pending@[j]).anchor.0 < chart_width
                && pending@[j].anchor.1 < chart_height,
            forall|e: Ellipse, a: usize, b: usize, i: Inset| #[trigger] call_requires(contains, (e, a, b, i)),
        decreases ranked@.len() - k,
    {
        let label = &labels[ranked[k]];
        if !label.text.as_str().is_empty() {
            let placed = match find_region_span(&canvas, &circles, &label.sets, label.text.as_str(), &contains) {
                Some((x, y)) => {
                    match canvas.set_text(x, y, label.text.as_str()) {
                        Ok(()) => {},
                        Err(e) => return Err(e),
                    }
                    true
                },
                None => false,
            };
            if !placed {
                let marker = marker_char(callout_index, opts.charset);
                match find_region_point(&canvas, &circles, &label.sets, &contains) {
                    Some(anchor) => {
                        match canvas.set_text(anchor.0, anchor.1, marker) {
                            Ok(()) => {},
                            Err(e) => return Err(e),
                        }
                        pending.push(PendingCallout { marker, text: label.text.clone(), anchor, order: label.order });
                    },
                    None => {
                        fallback.push((marker, label.text.clone()));
                    },
                }
                callout_index = callout_index + 1;
            }
        }
        k = k + 1;
    }
    let unlinked = match place_connected_callouts(&mut canvas, pending, opts.charset) {
        Ok(list) => list,
        Err(e) => return Err(e),
    };
    let mut k: usize = 0;
    while k < unlinked.len()
        invariant
            k <= unlinked@.len(),
        decreases unlinked@.len() - k,
    {
        fallback.push((unlinked[k].0, unlinked[k].1.clone()));
        k = k + 1;
    }

    out.append(render_cropped_canvas(&canvas).as_str());
    if !ends_with_newline(out.as_str()) {
        out.append("\n");
    }
    if fallback.len() > 0 {
        out.append("\nCallouts:\n");
        let mut k: usize = 0;
        while k < fallback.len()
            invariant
                k <= fallback@.len(),
            decreases fallback@.len() - k,
        {
            out.append("  ");
            out.append(fallback[k].0);
            out.append(" ");
            out.append(fallback[k].1.as_str());
            out.append("\n");
            k = k + 1;
        }
    }
    if model.style_entries.len() > 0 {
        out.append("\nStyles:\n");
        let mut k: usize = 0;
        while k < model.style_entries.len()
            invariant
                k <= model.style_entries@.len(),
            decreases model.style_entries@.len() - k,
        {
            out.append(style_line(&model.style_entries[k]).as_str());
            k = k + 1;
        }
    }
    let mut heading = false;
    let mut k: usize = 0;
    while k < model.subsets.len()
        invariant
            k <= model.subsets@.len(),
        decreases model.subsets@.len() - k,
    {
        let subset = &model.subsets[k];
        if subset.sets.len() >= 2 {
            if !heading {
                out.append("\nIntersections:\n");
                heading = true;
            }
            out.append("  {");
            out.append(joined(&subset.sets, intersection_separator).as_str());
            out.append("} size=");
            out.append(subset.size_text.as_str());
            match shown_label(&subset.label) {
                Some(label) => {
                    out.append(": ");
                    out.append(label.as_str());
                },
                None => {},
            }
            out.append("\n");
        }
        k = k + 1;
    }
    if model.text_nodes.len() > 0 {
        out.append("\nText Nodes:\n");
        let ghost head = out@.subrange(0, out@.len() - "\nText Nodes:\n"@.len());
        let mut k: usize = 0;
        while k < model.text_nodes.len()
            invariant
                k <= model.text_nodes@.len(),
                intersection_separator == set_separator(opts.charset),
                out@ == head + "\nText Nodes:\n"@ + text_node_rows(model.text_nodes@, k as int, intersection_separator@),
            decreases model.text_nodes@.len() - k,
        {
            append_text_node_row(&mut out, &model.text_nodes[k], intersection_separator);
            k = k + 1;
        }
        proof {
            let tail = "\nText Nodes:\n"@ + text_node_rows(model.text_nodes@, model.text_nodes@.len() as int, intersection_separator@);
            assert(out@.subrange(out@.len() - tail.len(), out@.len() as int) =~= tail);
        }
    }
    Ok(out)
}

} // verus!
