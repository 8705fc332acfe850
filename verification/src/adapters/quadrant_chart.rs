//! Quadrant chart terminal geometry: a closed box crossed at its midpoints.
//!
//! Located points are plotted inside the box; points with invalid coordinates, points that
//! collide, labels that do not fit, and all point and class styles are listed in deterministic
//! callouts after the chart rather than truncated or dropped. Where a point falls in the plot
//! is asked of a locator, which maps its normalized coordinates onto the inner plot cells.

use vstd::prelude::*;
use crate::adapters::chart_primitives::{
    checked_chart_dimensions, chart_dimensions, ensure_entity_limit, marker_char, marker_glyph, render_cropped_canvas,
    MAX_CHART_ENTITIES,
};
use crate::adapters::box_geometry::{sat_mul, str_eq};
use crate::adapters::flowchart::{has_word, occurs};
use crate::adapters::format_title;
use crate::adapters::json::{decimal, decimal_text, signed_decimal_text};
use crate::adapters::venn::{clear_at, span_is_clear};
use crate::ansi::{sanitize_label_text, sanitized};
use crate::canvas::{Canvas, CanvasView, cell_text, draw_box, draw_horizontal_line, draw_vertical_line, index_of,
    str_display_width, text_placed};
use crate::text::unicode_str_width;
use crate::error::{MermansiError, Result};
use crate::options::{Charset, MermansiOptions};
use crate::text::chars_of;

verus! {

/// Where a point's coordinates put it.
#[derive(Clone, Copy, Debug, PartialEq, Eq, Structural)]
pub enum PointCell {
    /// A coordinate is not a finite number.
    NonFinite,
    /// A coordinate lies outside `0..=1`.
    OutOfRange,
    /// The plot cell (column, row) of the point.
    At(usize, usize),
}

/// The styles of a point or a class.
pub struct QuadrantStyles {
    pub radius: Option<i64>,
    pub color: Option<String>,
    pub stroke_color: Option<String>,
    pub stroke_width: Option<String>,
}

/// A point: its label, the text of its two coordinates, its class and its styles.
pub struct QuadrantPoint {
    pub text: String,
    pub x_text: String,
    pub y_text: String,
    pub class_name: Option<String>,
    pub styles: QuadrantStyles,
}

/// A quadrant chart: title, the four quadrant labels, the four axis labels, the points and
/// the named style classes (in name order).
pub struct QuadrantChart {
    pub title: Option<String>,
    pub quadrant1_text: String,
    pub quadrant2_text: String,
    pub quadrant3_text: String,
    pub quadrant4_text: String,
    pub x_axis_left_text: String,
    pub x_axis_right_text: String,
    pub y_axis_bottom_text: String,
    pub y_axis_top_text: String,
    pub points: Vec<QuadrantPoint>,
    pub classes: Vec<(String, QuadrantStyles)>,
}

/// The box the plot is drawn in.
#[derive(Clone, Copy)]
struct PlotArea {
    x: usize,
    y: usize,
    width: usize,
    height: usize,
}

/// The text of a signed number.
pub open spec fn signed_decimal(n: i64) -> Seq<char> {
    if n >= 0 { decimal(n as nat) } else { seq!['-'] + decimal((-n) as nat) }
}

/// `acc` with one more style part: opening the braces for the first part, else after a comma.
pub open spec fn with_part(acc: Seq<char>, part: Seq<char>) -> Seq<char> {
    if acc.len() == 0 { " {"@ + part } else { acc + ", "@ + part }
}

/// The style parts, in the order radius, color, stroke color, stroke width, before the
/// closing brace.
pub open spec fn style_parts(s: QuadrantStyles) -> Seq<char> {
    let a = match s.radius { Some(r) => with_part(seq![], "radius="@ + signed_decimal(r)), None => seq![] };
    let b = match s.color { Some(c) => with_part(a, "color="@ + sanitized(c@)), None => a };
    let c = match s.stroke_color { Some(c) => with_part(b, "stroke-color="@ + sanitized(c@)), None => b };
    match s.stroke_width { Some(w) => with_part(c, "stroke-width="@ + sanitized(w@)), None => c }
}

/// The styles as ` {name=value, ...}`, or nothing where no style is set.
pub open spec fn styles_text(s: QuadrantStyles) -> Seq<char> {
    let parts = style_parts(s);
    if parts.len() == 0 { parts } else { parts + "}"@ }
}

/// Appends one style part to `out`, as [`with_part`] says.
fn push_part(out: &mut String, name: &str, value: &str)
    ensures
        final(out)@ == with_part(old(out)@, name@ + value@),
{
    if out.as_str().is_empty() {
        out.append(" {");
    } else {
        out.append(", ");
    }
    out.append(name);
    out.append(value);
}

/// The styles of a point or class as ` {name=value, ...}`; empty where none is set.
pub fn format_styles(styles: &QuadrantStyles) -> (r: String)
    ensures
        r@ == styles_text(*styles),
{
    proof { reveal_strlit(" {"); }
    let mut out = String::new();
    match styles.radius {
        Some(radius) => {
            let text = signed_decimal_text(radius);
            push_part(&mut out, "radius=", text.as_str());
        },
        None => {},
    }
    match &styles.color {
        Some(color) => {
            let text = sanitize_label_text(color.as_str());
            push_part(&mut out, "color=", text.as_str());
        },
        None => {},
    }
    match &styles.stroke_color {
        Some(color) => {
            let text = sanitize_label_text(color.as_str());
            push_part(&mut out, "stroke-color=", text.as_str());
        },
        None => {},
    }
    match &styles.stroke_width {
        Some(width) => {
            let text = sanitize_label_text(width.as_str());
            push_part(&mut out, "stroke-width=", text.as_str());
        },
        None => {},
    }
    if !out.as_str().is_empty() {
        out.append("}");
    }
    out
}

/// Whether the plot cell may take a marker: it shows nothing or a stroke of the frame or the
/// cross, and is no part of a wide grapheme.
/// Whether cell `(x, y)` is on the canvas, shows nothing or a frame or cross stroke, and is no
/// part of a wide grapheme.
pub open spec fn background_at(v: CanvasView, x: int, y: int) -> bool {
    match index_of(v, x, y) {
        Some(k) => {
            let t = cell_text(v.cells[k as int]);
            (t == ""@ || t == "─"@ || t == "│"@ || t == "+"@ || t == "-"@ || t == "|"@)
                && !(v.cells[k as int] is Continuation)
        },
        None => false,
    }
}

fn plot_background_cell(canvas: &Canvas, position: (usize, usize)) -> (r: bool)
    requires
        canvas.wf(),
    ensures
        r == background_at(canvas@, position.0 as int, position.1 as int),
{
    let background = match canvas.get_cell(position.0, position.1) {
        Some(cell) => str_eq(cell, "") || str_eq(cell, "─") || str_eq(cell, "│") || str_eq(cell, "+")
            || str_eq(cell, "-") || str_eq(cell, "|"),
        None => false,
    };
    background && canvas.continuation_owner(position.0, position.1).is_none()
}

/// Whether `position` is among `used`.
fn is_used(used: &Vec<(usize, usize)>, position: (usize, usize)) -> (r: bool)
    ensures
        r == used@.contains(position),
{
    let mut i: usize = 0;
    while i < used.len()
        invariant
            i <= used@.len(),
            forall|a: int| 0 <= a < i ==> used@[a] != position,
        decreases used@.len() - i,
    {
        if used[i].0 == position.0 && used[i].1 == position.1 {
            return true;
        }
        i = i + 1;
    }
    false
}

/// The nearest free plot cell around `target`, ring by ring (at most eight rings out), each
/// ring row by row and column by column; the cell must lie strictly inside the box.
fn find_nearby_position(canvas: &Canvas, area: PlotArea, target: (usize, usize), used: &Vec<(usize, usize)>)
    -> (r: Option<(usize, usize)>)
    requires
        canvas.wf(),
        area.x + area.width <= 4096,
        area.y + area.height <= 4096,
        area.width >= 1,
        area.height >= 1,
        target.0 <= 4096,
        target.1 <= 4096,
    ensures
        r matches Some(p) ==> area.x < p.0 < area.x + area.width - 1 && area.y < p.1 < area.y + area.height - 1
            && !used@.contains(p),
{
    let widest = if area.width > area.height { area.width } else { area.height };
    let maximum_radius: i64 = if widest > 8 { 8 } else { widest as i64 };
    let left = area.x as i64;
    let right = (area.x + area.width - 1) as i64;
    let top = area.y as i64;
    let bottom = (area.y + area.height - 1) as i64;
    let mut radius: i64 = 1;
    while radius <= maximum_radius
        invariant
            1 <= radius <= maximum_radius + 1,
            maximum_radius <= 8,
            canvas.wf(),
            left == area.x, right == area.x + area.width - 1, top == area.y, bottom == area.y + area.height - 1,
            target.0 <= 4096, target.1 <= 4096,
        decreases maximum_radius + 1 - radius,
    {
        let mut delta_y: i64 = -radius;
        while delta_y <= radius
            invariant
                1 <= radius <= 8,
                -radius <= delta_y <= radius + 1,
                canvas.wf(),
                left == area.x, right == area.x + area.width - 1, top == area.y, bottom == area.y + area.height - 1,
                target.0 <= 4096, target.1 <= 4096,
            decreases radius + 1 - delta_y,
        {
            let mut delta_x: i64 = -radius;
            while delta_x <= radius
                invariant
                    1 <= radius <= 8,
                    -radius <= delta_y <= radius,
                    -radius <= delta_x <= radius + 1,
                    canvas.wf(),
                    left == area.x, right == area.x + area.width - 1, top == area.y,
                    bottom == area.y + area.height - 1,
                    target.0 <= 4096, target.1 <= 4096,
                decreases radius + 1 - delta_x,
            {
                let ax = if delta_x < 0 { -delta_x } else { delta_x };
                let ay = if delta_y < 0 { -delta_y } else { delta_y };
                let ring = if ax > ay { ax } else { ay };
                if ring == radius {
                    let x = target.0 as i64 + delta_x;
                    let y = target.1 as i64 + delta_y;
                    if x > left && x < right && y > top && y < bottom {
                        let position = (x as usize, y as usize);
                        if !is_used(used, position) && plot_background_cell(canvas, position) {
                            return Some(position);
                        }
                    }
                }
                delta_x = delta_x + 1;
            }
            delta_y = delta_y + 1;
        }
        radius = radius + 1;
    }
    None
}

/// Whether `note` is the status that a point gets when `locate` put it at `cell`, with the
/// inner plot cells bounded by `b` (first and last column, first and last row): a non-finite
/// or out-of-range point, or one outside the plot, is reported as such; a plotted point has
/// no status, or says that it was shifted or could not be placed.
pub open spec fn note_for(cell: PointCell, b: (usize, usize, usize, usize), note: Option<&'static str>) -> bool {
    match cell {
        PointCell::NonFinite => note == Some("invalid: non-finite coordinate"),
        PointCell::OutOfRange => note == Some("outside normalized range 0..1"),
        PointCell::At(column, row) => if column < b.0 || column > b.1 || row < b.2 || row > b.3 {
            note == Some("outside normalized range 0..1")
        } else {
            note is None || note == Some("shifted from overlapping coordinate")
                || note == Some("not placed: no free plot cell")
        },
    }
}

/// Whether `note` is the status of point `k` for a cell that `locate` can return for it
/// within the plot bounds `b`.
pub open spec fn status_fits<F: Fn(usize, usize, usize, usize, usize) -> PointCell>(locate: F, k: int,
    note: Option<&'static str>, b: (usize, usize, usize, usize)) -> bool {
    exists|c: PointCell| #[trigger] call_ensures(locate, (k as usize, b.0, b.1, b.2, b.3), c) && note_for(c, b, note)
}

/// Whether the first `n` notes are the statuses of points `0..n`.
pub open spec fn statuses_fit<F: Fn(usize, usize, usize, usize, usize) -> PointCell>(locate: F,
    notes: Seq<Option<&'static str>>, b: (usize, usize, usize, usize), n: int) -> bool {
    &&& n <= notes.len()
    &&& forall|k: int| 0 <= k < n ==> status_fits(locate, k, #[trigger] notes[k], b)
}

/// Plots the markers of the located points: a point whose cell is taken moves to the nearest
/// free cell around it. Returns each point's status note and each point's ideal cell (for
/// the points located inside the plot).
fn place_points<F: Fn(usize, usize, usize, usize, usize) -> PointCell>(canvas: &mut Canvas, area: PlotArea,
    points: &Vec<QuadrantPoint>, opts: &MermansiOptions, locate: F)
    -> (r: Result<(Vec<Option<&'static str>>, Vec<((usize, usize), usize)>)>)
    requires
        old(canvas).wf(),
        area.x + area.width <= 4096,
        area.y + area.height <= 4096,
        area.width >= 3,
        area.height >= 3,
        forall|i: usize, a: usize, b: usize, c: usize, d: usize| #[trigger] call_requires(locate, (i, a, b, c, d)),
    ensures
        final(canvas).wf(),
        r matches Ok((notes, targets)) ==> notes@.len() == points@.len()
            && forall|k: int| 0 <= k < targets@.len() ==> (#[trigger] targets@[k]).1 < points@.len(),
        r matches Ok((notes, targets)) ==> statuses_fit(locate, notes@,
            ((area.x + 1) as usize, (area.x + area.width - 2) as usize, (area.y + 1) as usize,
            (area.y + area.height - 2) as usize), points@.len() as int),
{
    let inner_left = area.x + 1;
    let inner_right = area.x + area.width - 2;
    let inner_top = area.y + 1;
    let inner_bottom = area.y + area.height - 2;
    let mut notes: Vec<Option<&'static str>> = Vec::new();
    let mut used: Vec<(usize, usize)> = Vec::new();
    let mut targets: Vec<((usize, usize), usize)> = Vec::new();
    let mut index: usize = 0;
    while index < points.len()
        invariant
            canvas.wf(),
            index <= points@.len(),
            notes@.len() == index,
            forall|k: int| 0 <= k < targets@.len() ==> (#[trigger] targets@[k]).1 < index,
            area.x + area.width <= 4096,
            area.y + area.height <= 4096,
            area.width >= 3,
            area.height >= 3,
            inner_left == area.x + 1, inner_right == area.x + area.width - 2,
            inner_top == area.y + 1, inner_bottom == area.y + area.height - 2,
            forall|i: usize, a: usize, b: usize, c: usize, d: usize| #[trigger] call_requires(locate, (i, a, b, c, d)),
            statuses_fit(locate, notes@, (inner_left, inner_right, inner_top, inner_bottom), index as int),
        decreases points@.len() - index,
    {
        let ghost bounds = (inner_left, inner_right, inner_top, inner_bottom);
        let ghost earlier = notes@;
        let marker = marker_char(index, opts.charset);
        let cell = locate(index, inner_left, inner_right, inner_top, inner_bottom);
        match cell {
            PointCell::NonFinite => {
                notes.push(Some("invalid: non-finite coordinate"));
            },
            PointCell::OutOfRange => {
                notes.push(Some("outside normalized range 0..1"));
            },
            PointCell::At(column, row) => {
                if column < inner_left || column > inner_right || row < inner_top || row > inner_bottom {
                    notes.push(Some("outside normalized range 0..1"));
                } else {
                    let target = (column, row);
                    targets.push((target, index));
                    let position = if !is_used(&used, target) {
                        used.push(target);
                        Some(target)
                    } else {
                        find_nearby_position(canvas, area, target, &used)
                    };
                    match position {
                        Some(p) => {
                            if !is_used(&used, p) {
                                used.push(p);
                            }
                            match canvas.set_text(p.0, p.1, marker) {
                                Ok(()) => {},
                                Err(e) => return Err(e),
                            }
                            if p.0 == target.0 && p.1 == target.1 {
                                notes.push(None);
                            } else {
                                notes.push(Some("shifted from overlapping coordinate"));
                            }
                        },
                        None => {
                            notes.push(Some("not placed: no free plot cell"));
                        },
                    }
                }
            },
        }
        proof {
            assert(notes@ == earlier.push(notes@[index as int]));
            assert(note_for(cell, bounds, notes@[index as int]));
            assert(call_ensures(locate, ((index as int) as usize, bounds.0, bounds.1, bounds.2, bounds.3), cell));
            assert(status_fits(locate, index as int, notes@[index as int], bounds));
            assert forall|k: int| 0 <= k < index + 1 implies status_fits(locate, k, #[trigger] notes@[k], bounds) by {
                if k < index {
                    assert(notes@[k] == earlier[k]);
                }
            }
        }
        index = index + 1;
    }
    Ok((notes, targets))
}

/// Places `text` whole in columns `start..=end` of `row` (right-aligned or left-aligned) where
/// those cells are clear; returns whether it was placed.
fn place_full_label(canvas: &mut Canvas, start: usize, end: usize, row: usize, text: &str, align_right: bool)
    -> (r: Result<bool>)
    requires
        old(canvas).wf(),
    ensures
        final(canvas).wf(),
        ({
            let w = unicode_str_width(text@) as int;
            let column = if align_right { end + 1 - w } else { start as int };
            let fits = row < old(canvas)@.height && start <= end && end < old(canvas)@.width && 0 < w <= end - start + 1
                && forall|c: int| column <= c < column + w ==> #[trigger] clear_at(old(canvas)@, c, row as int);
            if fits {
                match text_placed(old(canvas)@, column, row as int, text@) {
                    Ok(v) => r == Ok::<bool, MermansiError>(true) && final(canvas)@ == v,
                    Err(e) => r == Err::<bool, MermansiError>(e) && final(canvas)@ == old(canvas)@,
                }
            } else {
                r == Ok::<bool, MermansiError>(false) && final(canvas)@ == old(canvas)@
            }
        }),
{
    if row >= canvas.height() || end < start || end >= canvas.width() {
        return Ok(false);
    }
    let width = str_display_width(text);
    let available = end - start + 1;
    if width == 0 || width > available {
        return Ok(false);
    }
    let column = if align_right { end + 1 - width } else { start };
    if !span_is_clear(canvas, column, row, width) {
        return Ok(false);
    }
    match canvas.set_text(column, row, text) {
        Ok(()) => Ok(true),
        Err(e) => Err(e),
    }
}

/// Places `text` at `(column, row)` where it fits the canvas and its cells are clear; returns
/// whether it was placed.
fn place_label_at(canvas: &mut Canvas, column: usize, row: usize, text: &str) -> (r: Result<bool>)
    requires
        old(canvas).wf(),
    ensures
        final(canvas).wf(),
        ({
            let w = unicode_str_width(text@) as int;
            let fits = text@.len() > 0 && row < old(canvas)@.height && column + w <= old(canvas)@.width
                && forall|c: int| column <= c < column + w ==> #[trigger] clear_at(old(canvas)@, c, row as int);
            if fits {
                match text_placed(old(canvas)@, column as int, row as int, text@) {
                    Ok(v) => r == Ok::<bool, MermansiError>(true) && final(canvas)@ == v,
                    Err(e) => r == Err::<bool, MermansiError>(e) && final(canvas)@ == old(canvas)@,
                }
            } else {
                r == Ok::<bool, MermansiError>(false) && final(canvas)@ == old(canvas)@
            }
        }),
{
    let width = str_display_width(text);
    if text.is_empty() || row >= canvas.height() || column > usize::MAX - width || column + width > canvas.width() {
        return Ok(false);
    }
    if !span_is_clear(canvas, column, row, width) {
        return Ok(false);
    }
    match canvas.set_text(column, row, text) {
        Ok(()) => Ok(true),
        Err(e) => Err(e),
    }
}

/// `a` or `b`, whichever is larger.
fn larger(a: usize, b: usize) -> (r: usize)
    ensures
        r == if a > b { a } else { b },
{
    if a > b { a } else { b }
}

/// Whether the text ends with a line break.
fn ends_with_newline(s: &str) -> (r: bool)
    ensures
        r == (s@.len() > 0 && s@.last() == '\n'),
{
    let chars = chars_of(s);
    chars.len() > 0 && chars[chars.len() - 1] == '\n'
}

/// Whether cell `a` comes before cell `b`: by column, then row.
pub open spec fn cell_before(a: (usize, usize), b: (usize, usize)) -> bool {
    a.0 < b.0 || (a.0 == b.0 && a.1 < b.1)
}

/// Inserts `cell` into the strictly ordered `cells`, unless it is there already.
fn insert_cell(cells: &mut Vec<(usize, usize)>, cell: (usize, usize))
    requires
        forall|j: int, k: int| 0 <= j < k < old(cells)@.len() ==> cell_before(old(cells)@[j], old(cells)@[k]),
    ensures
        forall|j: int, k: int| 0 <= j < k < final(cells)@.len() ==> cell_before(final(cells)@[j], final(cells)@[k]),
        forall|c: (usize, usize)| #[trigger] final(cells)@.contains(c) <==> (old(cells)@.contains(c) || c == cell),
{
    let mut pos: usize = 0;
    let mut present = false;
    let mut searching = true;
    while searching && pos < cells.len()
        invariant
            pos <= cells@.len(),
            cells@ == old(cells)@,
            forall|j: int| 0 <= j < pos ==> cell_before(cells@[j], cell),
            present ==> !searching && pos < cells@.len() && cells@[pos as int] == cell,
            !searching && !present ==> pos < cells@.len() && cell_before(cell, cells@[pos as int]),
        decreases cells@.len() - pos + (if searching { 1int } else { 0int }),
    {
        let c = cells[pos];
        if c.0 == cell.0 && c.1 == cell.1 {
            present = true;
            searching = false;
        } else if c.0 > cell.0 || (c.0 == cell.0 && c.1 > cell.1) {
            searching = false;
        } else {
            pos = pos + 1;
        }
    }
    let ghost before = cells@;
    assert(before == old(cells)@);
    if !present {
        cells.insert(pos, cell);
        assert forall|j: int, k: int| 0 <= j < k < cells@.len() implies cell_before(cells@[j], cells@[k]) by {
            if k < pos {
            } else if j < pos {
                if k > pos {
                    assert(cells@[k] == before[k - 1]);
                }
            } else if j == pos {
                assert(cells@[k] == before[k - 1]);
                if k - 1 > pos {
                    assert(cell_before(before[pos as int], before[k - 1]));
                }
            } else {
                assert(cells@[k] == before[k - 1]);
                assert(cells@[j] == before[j - 1]);
            }
        }
        assert forall|c: (usize, usize)| #[trigger] cells@.contains(c) <==> (before.contains(c) || c == cell) by {
            if cells@.contains(c) {
                let k = choose|k: int| 0 <= k < cells@.len() && cells@[k] == c;
                if k < pos {
                    assert(before[k] == c);
                } else if k > pos {
                    assert(before[k - 1] == c);
                }
            }
            if before.contains(c) {
                let k = choose|k: int| 0 <= k < before.len() && before[k] == c;
                if k < pos {
                    assert(cells@[k] == c);
                } else {
                    assert(cells@[k + 1] == c);
                }
            }
            if c == cell {
                assert(cells@[pos as int] == c);
            }
        }
    } else {
        assert forall|c: (usize, usize)| #[trigger] cells@.contains(c) <==> (before.contains(c) || c == cell) by {
            if c == cell {
                assert(cells@[pos as int] == c);
            }
        }
    }
}

/// The sorted distinct cells of `targets` (by column, then row).
fn sorted_cells(targets: &Vec<((usize, usize), usize)>) -> (r: Vec<(usize, usize)>)
    ensures
        forall|j: int, k: int| 0 <= j < k < r@.len() ==> cell_before(r@[j], r@[k]),
        forall|c: (usize, usize)| #[trigger] r@.contains(c)
            <==> exists|k: int| 0 <= k < targets@.len() && (#[trigger] targets@[k]).0 == c,
{
    let mut cells: Vec<(usize, usize)> = Vec::new();
    let mut k: usize = 0;
    while k < targets.len()
        invariant
            k <= targets@.len(),
            forall|j: int, m: int| 0 <= j < m < cells@.len() ==> cell_before(cells@[j], cells@[m]),
            forall|c: (usize, usize)| #[trigger] cells@.contains(c)
                <==> exists|m: int| 0 <= m < k && (#[trigger] targets@[m]).0 == c,
        decreases targets@.len() - k,
    {
        let cell = targets[k].0;
        insert_cell(&mut cells, cell);
        k = k + 1;
        assert forall|c: (usize, usize)| #[trigger] cells@.contains(c)
            <==> exists|m: int| 0 <= m < k && (#[trigger] targets@[m]).0 == c by {
            if c == cell {
                assert(targets@[k - 1].0 == c);
            }
        }
    }
    cells
}

/// The class part of a point line: ` [class]` where the point has a non-empty class.
pub open spec fn class_part(class_name: Option<String>) -> Seq<char> {
    match class_name {
        Some(c) => if sanitized(c@).len() > 0 { " ["@ + sanitized(c@) + "]"@ } else { seq![] },
        None => seq![],
    }
}

/// The line listing point `index`: its marker, label, coordinates and class.
pub open spec fn point_line(point: QuadrantPoint, index: usize, charset: Charset) -> Seq<char> {
    "  "@ + marker_glyph(index, charset)@ + " "@ + sanitized(point.text@) + " ("@ + point.x_text@ + ", "@
        + point.y_text@ + ")"@ + class_part(point.class_name) + "\n"@
}

/// The styles line under a point's line, where it has styles.
pub open spec fn styles_line(styles: QuadrantStyles) -> Seq<char> {
    if styles_text(styles).len() != 0 { "    styles"@ + styles_text(styles) + "\n"@ } else { seq![] }
}

/// The status line under a point's line, where it has a status.
pub open spec fn status_line(note: Option<&'static str>) -> Seq<char> {
    match note {
        Some(n) => "    status: "@ + n@ + "\n"@,
        None => seq![],
    }
}

/// The entries of the first `n` points, in input order: each point's line, then its styles
/// and its status.
pub open spec fn point_entries(points: Seq<QuadrantPoint>, notes: Seq<Option<&'static str>>, charset: Charset,
    n: int) -> Seq<char>
    decreases n,
{
    if n <= 0 {
        seq![]
    } else {
        point_entries(points, notes, charset, n - 1) + point_line(points[n - 1], (n - 1) as usize, charset)
            + styles_line(points[n - 1].styles) + status_line(notes[n - 1])
    }
}

/// The `Points:` section of a chart whose points got the statuses `notes`.
pub open spec fn points_section(points: Seq<QuadrantPoint>, notes: Seq<Option<&'static str>>, charset: Charset)
    -> Seq<char> {
    "\nPoints:\n"@ + point_entries(points, notes, charset, points.len() as int)
}

/// Appends the line listing point `index`.
fn append_point_line(out: &mut String, point: &QuadrantPoint, index: usize, charset: Charset)
    ensures
        final(out)@ == old(out)@ + point_line(*point, index, charset),
{
    let label = sanitize_label_text(point.text.as_str());
    out.append("  ");
    out.append(marker_char(index, charset));
    out.append(" ");
    out.append(label.as_str());
    out.append(" (");
    out.append(point.x_text.as_str());
    out.append(", ");
    out.append(point.y_text.as_str());
    out.append(")");
    match &point.class_name {
        Some(class) => {
            let class = sanitize_label_text(class.as_str());
            if !class.as_str().is_empty() {
                out.append(" [");
                out.append(class.as_str());
                out.append("]");
            }
        },
        None => {},
    }
    out.append("\n");
    assert(out@ =~= old(out)@ + point_line(*point, index, charset));
}

/// Appends the entry of point `index`: its line, then its styles and its status.
fn append_point_entry(out: &mut String, point: &QuadrantPoint, index: usize, charset: Charset,
    note: Option<&'static str>)
    ensures
        final(out)@ == old(out)@ + point_line(*point, index, charset) + styles_line(point.styles)
            + status_line(note),
{
    append_point_line(out, point, index, charset);
    let ghost listed = out@;
    let styles = format_styles(&point.styles);
    if !styles.as_str().is_empty() {
        out.append("    styles");
        out.append(styles.as_str());
        out.append("\n");
    }
    let ghost styled = out@;
    match note {
        Some(n) => {
            out.append("    status: ");
            out.append(n);
            out.append("\n");
        },
        None => {},
    }
    proof {
        reveal_strlit("    styles");
        reveal_strlit("    status: ");
        reveal_strlit("\n");
        assert(styled =~= listed + styles_line(point.styles));
        assert(out@ =~= styled + status_line(note));
    }
}

/// Appends the `Points:` section: every point's entry, in input order.
fn append_points_section(out: &mut String, points: &Vec<QuadrantPoint>, notes: &Vec<Option<&'static str>>,
    charset: Charset)
    requires
        notes@.len() == points@.len(),
    ensures
        final(out)@ == old(out)@ + points_section(points@, notes@, charset),
{
    let ghost start = out@;
    out.append("\nPoints:\n");
    let mut index: usize = 0;
    while index < points.len()
        invariant
            index <= points@.len(),
            notes@.len() == points@.len(),
            out@ == start + "\nPoints:\n"@ + point_entries(points@, notes@, charset, index as int),
        decreases points@.len() - index,
    {
        append_point_entry(out, &points[index], index, charset, notes[index]);
        proof {
            assert(out@ =~= start + "\nPoints:\n"@ + point_entries(points@, notes@, charset, index + 1));
        }
        index = index + 1;
    }
    proof {
        assert(out@ =~= start + points_section(points@, notes@, charset));
    }
}

/// A point's line is listed in the entries of every later count of points.
proof fn lemma_entry_listed(points: Seq<QuadrantPoint>, notes: Seq<Option<&'static str>>, charset: Charset,
    n: int, i: int)
    requires
        0 <= i < n <= points.len(),
    ensures
        has_word(point_entries(points, notes, charset, n), point_line(points[i], i as usize, charset)),
    decreases n,
{
    let prev = point_entries(points, notes, charset, n - 1);
    let line = point_line(points[n - 1], (n - 1) as usize, charset);
    let rest = line + styles_line(points[n - 1].styles) + status_line(notes[n - 1]);
    assert(point_entries(points, notes, charset, n) =~= prev + rest);
    reveal_strlit("  ");
    if i == n - 1 {
        assert((prev + rest).subrange(prev.len() as int, (prev.len() + line.len()) as int) =~= line);
        assert(occurs(prev + rest, prev.len() as int, line));
    } else {
        lemma_entry_listed(points, notes, charset, n - 1, i);
        lemma_has_word_extend(prev, rest, point_line(points[i], i as usize, charset));
    }
}

/// The entries of a chart's points occur in its `Points:` section.
proof fn lemma_entries_in_section(points: Seq<QuadrantPoint>, notes: Seq<Option<&'static str>>, charset: Charset,
    i: int)
    requires
        0 <= i < points.len(),
        has_word(point_entries(points, notes, charset, points.len() as int), point_line(points[i], i as usize, charset)),
    ensures
        has_word(points_section(points, notes, charset), point_line(points[i], i as usize, charset)),
{
    let entries = point_entries(points, notes, charset, points.len() as int);
    let x = point_line(points[i], i as usize, charset);
    let j = choose|j: int| 0 <= j < entries.len() && #[trigger] occurs(entries, j, x);
    let section = points_section(points, notes, charset);
    reveal_strlit("\nPoints:\n");
    assert(section =~= "\nPoints:\n"@ + entries);
    assert(section.subrange(j + 9, j + 9 + x.len()) =~= entries.subrange(j, j + x.len()));
    assert(occurs(section, j + 9, x));
}

/// A `Points:` section is never empty.
proof fn lemma_section_nonempty(points: Seq<QuadrantPoint>, notes: Seq<Option<&'static str>>, charset: Charset)
    ensures
        points_section(points, notes, charset).len() > 0,
{
    reveal_strlit("\nPoints:\n");
}

/// A word of a word of `a` is a word of `a`.
pub proof fn lemma_has_word_trans(a: Seq<char>, x: Seq<char>, y: Seq<char>)
    requires
        has_word(a, x),
        has_word(x, y),
    ensures
        has_word(a, y),
{
    let i = choose|i: int| 0 <= i < a.len() && #[trigger] occurs(a, i, x);
    let j = choose|j: int| 0 <= j < x.len() && #[trigger] occurs(x, j, y);
    assert(a.subrange(i + j, i + j + y.len()) =~= x.subrange(j, j + y.len()));
    assert(occurs(a, i + j, y));
}

pub proof fn lemma_has_word_extend(a: Seq<char>, b: Seq<char>, x: Seq<char>)
    requires
        has_word(a, x),
    ensures
        has_word(a + b, x),
{
    let i = choose|i: int| 0 <= i < a.len() && #[trigger] occurs(a, i, x);
    assert((a + b).subrange(i, i + x.len()) =~= a.subrange(i, i + x.len()));
    assert(occurs(a + b, i, x));
}

/// Render a quadrant chart: the crossed plot box with its quadrant and axis labels and the
/// point markers, then the labels that did not fit, each point with its coordinates, class,
/// styles and status, the style classes, and the cells that several points would share.
///
/// `locate` is asked, for each point (by index) and the inner plot cells (first and last
/// column, first and last row), where the point falls.
#[verifier::spinoff_prover]
#[verifier::rlimit(80)]
pub fn render_quadrant_chart<F: Fn(usize, usize, usize, usize, usize) -> PointCell>(chart: &QuadrantChart,
    opts: &MermansiOptions, locate: F) -> (r: Result<String>)
    requires
        forall|i: usize, a: usize, b: usize, c: usize, d: usize| #[trigger] call_requires(locate, (i, a, b, c, d)),
    ensures
        chart.points@.len() > MAX_CHART_ENTITIES ==> r == Err::<String, MermansiError>(MermansiError::RenderLimit {
            context: "quadrant points", requested: chart.points@.len() as usize, limit: MAX_CHART_ENTITIES }),
        chart.points@.len() <= MAX_CHART_ENTITIES && opts.max_width < 20 ==> r == Err::<String, MermansiError>(
            MermansiError::RenderLimit { context: "chart width", requested: 20, limit: opts.max_width }),
        chart.points@.len() <= MAX_CHART_ENTITIES && opts.max_width >= 20 && opts.max_height < 10
            ==> r == Err::<String, MermansiError>(
            MermansiError::RenderLimit { context: "chart height", requested: 10, limit: opts.max_height }),
        r is Ok ==> chart.points@.len() <= MAX_CHART_ENTITIES && opts.max_width >= 20 && opts.max_height >= 10,
        r matches Ok(s) ==> forall|i: int| 0 <= i < chart.points@.len()
            ==> has_word(s@, #[trigger] point_line(chart.points@[i], i as usize, opts.charset)),
        r matches Ok(s) ==> (chart.points@.len() > 0 ==> exists|notes: Seq<Option<&'static str>>,
            b: (usize, usize, usize, usize)| #[trigger] statuses_fit(locate, notes, b, chart.points@.len() as int)
            && has_word(s@, points_section(chart.points@, notes, opts.charset))),
{
    let mut out = format_title(&chart.title);
    match ensure_entity_limit("quadrant points", chart.points.len()) {
        Ok(()) => {},
        Err(e) => return Err(e),
    }
    let q1 = sanitize_label_text(chart.quadrant1_text.as_str());
    let q2 = sanitize_label_text(chart.quadrant2_text.as_str());
    let q3 = sanitize_label_text(chart.quadrant3_text.as_str());
    let q4 = sanitize_label_text(chart.quadrant4_text.as_str());
    let x_left = sanitize_label_text(chart.x_axis_left_text.as_str());
    let x_right = sanitize_label_text(chart.x_axis_right_text.as_str());
    let y_bottom = sanitize_label_text(chart.y_axis_bottom_text.as_str());
    let y_top = sanitize_label_text(chart.y_axis_top_text.as_str());
    let left_width = larger(str_display_width(q2.as_str()), str_display_width(q3.as_str()));
    let right_width = larger(str_display_width(q1.as_str()), str_display_width(q4.as_str()));
    let x_axis_width = str_display_width(x_left.as_str())
        .saturating_add(str_display_width(x_right.as_str()))
        .saturating_add(3);
    let label_room = sat_mul(larger(left_width, right_width), 2).saturating_add(5);
    let wanted = larger(larger(36, label_room), x_axis_width.saturating_add(2));
    let desired_width = if wanted > 48 { 48 } else { wanted };
    let shown = if chart.points.len() > 8 { 8 } else { chart.points.len() };
    let tall = 14 + (shown + 1) / 2;
    let desired_height = if tall < 16 { 16 } else if tall > 24 { 24 } else { tall };
    let (chart_width, chart_height) = match checked_chart_dimensions(opts, (20, 10), (desired_width, desired_height)) {
        Ok(d) => d,
        Err(e) => return Err(e),
    };
    assert(chart_width <= 48 && chart_height <= 24);
    let mut canvas = match Canvas::new(chart_width, chart_height) {
        Ok(c) => c,
        Err(e) => return Err(e),
    };
    let area = PlotArea { x: 1, y: 1, width: chart_width - 2, height: chart_height - 4 };
    let right = area.x + area.width - 1;
    let bottom = area.y + area.height - 1;
    let middle_x = area.x + area.width / 2;
    let middle_y = area.y + area.height / 2;
    match draw_box(&mut canvas, area.x, area.y, area.width, area.height, opts.charset) {
        Ok(()) => {},
        Err(e) => return Err(e),
    }
    match draw_horizontal_line(&mut canvas, middle_y, area.x + 1, right - 1, opts.charset) {
        Ok(()) => {},
        Err(e) => return Err(e),
    }
    match draw_vertical_line(&mut canvas, middle_x, area.y + 1, bottom - 1, opts.charset) {
        Ok(()) => {},
        Err(e) => return Err(e),
    }
    match canvas.set_text(middle_x, middle_y, "+") {
        Ok(()) => {},
        Err(e) => return Err(e),
    }
    let (notes, targets) = match place_points(&mut canvas, area, &chart.points, opts, locate) {
        Ok(placed) => placed,
        Err(e) => return Err(e),
    };

    let mut callouts: Vec<(&'static str, String)> = Vec::new();
    let top_row = area.y + 1;
    let bottom_row = bottom - 1;
    let left_start = area.x + 1;
    let left_end = middle_x.saturating_sub(1);
    let right_start = middle_x + 1;
    let right_end = right.saturating_sub(1);
    let quadrants: Vec<(&'static str, String, usize, usize, usize, bool)> = vec![
        ("Q1", q1, right_start, right_end, top_row, false),
        ("Q2", q2, left_start, left_end, top_row, true),
        ("Q3", q3, left_start, left_end, bottom_row, true),
        ("Q4", q4, right_start, right_end, bottom_row, false),
    ];
    let mut k: usize = 0;
    while k < quadrants.len()
        invariant
            canvas.wf(),
            k <= quadrants@.len(),
            chart.points@.len() <= MAX_CHART_ENTITIES && opts.max_width >= 20 && opts.max_height >= 10,
        decreases quadrants@.len() - k,
    {
        let (key, text, start, end, row, align_right) = (quadrants[k].0, &quadrants[k].1, quadrants[k].2,
            quadrants[k].3, quadrants[k].4, quadrants[k].5);
        if text.as_str().len() != 0 {
            let placed = match place_full_label(&mut canvas, start, end, row, text.as_str(), align_right) {
                Ok(p) => p,
                Err(e) => return Err(e),
            };
            if !placed {
                callouts.push((key, text.clone()));
            }
        }
        k = k + 1;
    }

    let x_axis_row = bottom + 1;
    let y_bottom_row = bottom + 2;
    let right_axis_start = right.saturating_add(1).saturating_sub(str_display_width(x_right.as_str()));
    let axes: Vec<(&'static str, String, usize, usize)> = vec![
        ("x-left", x_left, area.x, x_axis_row),
        ("x-right", x_right, right_axis_start, x_axis_row),
        ("y-bottom", y_bottom, area.x, y_bottom_row),
        ("y-top", y_top, area.x, area.y - 1),
    ];
    let mut k: usize = 0;
    while k < axes.len()
        invariant
            canvas.wf(),
            k <= axes@.len(),
            chart.points@.len() <= MAX_CHART_ENTITIES && opts.max_width >= 20 && opts.max_height >= 10,
        decreases axes@.len() - k,
    {
        let text = &axes[k].1;
        if text.as_str().len() != 0 {
            let placed = match place_label_at(&mut canvas, axes[k].2, axes[k].3, text.as_str()) {
                Ok(p) => p,
                Err(e) => return Err(e),
            };
            if !placed {
                callouts.push((axes[k].0, text.clone()));
            }
        }
        k = k + 1;
    }

    let drawn = render_cropped_canvas(&canvas);
    out.append(drawn.as_str());
    if !ends_with_newline(out.as_str()) {
        out.append("\n");
    }

    if callouts.len() > 0 {
        out.append("\nLabels:\n");
        let mut c: usize = 0;
        while c < callouts.len()
            invariant
                c <= callouts@.len(),
            decreases callouts@.len() - c,
        {
            out.append("  ");
            out.append(callouts[c].0);
            out.append(": ");
            out.append(callouts[c].1.as_str());
            out.append("\n");
            c = c + 1;
        }
    }

    let ghost before_points = out@;
    if chart.points.len() > 0 {
        append_points_section(&mut out, &chart.points, &notes, opts.charset);
    }
    let ghost listing = out@;

    if chart.classes.len() > 0 {
        out.append("\nClasses:\n");
        let mut c: usize = 0;
        while c < chart.classes.len()
            invariant
                c <= chart.classes@.len(),
                out@.len() >= listing.len(),
                out@.subrange(0, listing.len() as int) == listing,
            decreases chart.classes@.len() - c,
        {
            let name = sanitize_label_text(chart.classes[c].0.as_str());
            let styles = format_styles(&chart.classes[c].1);
            out.append("  ");
            out.append(name.as_str());
            out.append(styles.as_str());
            out.append("\n");
            c = c + 1;
        }
    }

    let cells = sorted_cells(&targets);
    let mut heading = false;
    let mut g: usize = 0;
    while g < cells.len()
        invariant
            g <= cells@.len(),
            out@.len() >= listing.len(),
            out@.subrange(0, listing.len() as int) == listing,
            forall|k: int| 0 <= k < targets@.len() ==> (#[trigger] targets@[k]).1 < chart.points@.len(),
        decreases cells@.len() - g,
    {
        let cell = cells[g];
        let mut members: Vec<usize> = Vec::new();
        let mut k: usize = 0;
        while k < targets.len()
            invariant
                k <= targets@.len(),
                forall|j: int| 0 <= j < members@.len() ==> (#[trigger] members@[j]) < chart.points@.len(),
                forall|k: int| 0 <= k < targets@.len() ==> (#[trigger] targets@[k]).1 < chart.points@.len(),
            decreases targets@.len() - k,
        {
            if targets[k].0.0 == cell.0 && targets[k].0.1 == cell.1 {
                members.push(targets[k].1);
            }
            k = k + 1;
        }
        if members.len() > 1 {
            if !heading {
                out.append("\nOverlapping points:\n");
                heading = true;
            }
            out.append("  cell(");
            out.append(decimal_text(cell.0).as_str());
            out.append(",");
            out.append(decimal_text(cell.1).as_str());
            out.append("): ");
            let mut j: usize = 0;
            while j < members.len()
                invariant
                    j <= members@.len(),
                    out@.len() >= listing.len(),
                    out@.subrange(0, listing.len() as int) == listing,
                    forall|j: int| 0 <= j < members@.len() ==> (#[trigger] members@[j]) < chart.points@.len(),
                decreases members@.len() - j,
            {
                if j > 0 {
                    out.append(", ");
                }
                let index = members[j];
                out.append(marker_char(index, opts.charset));
                out.append(" ");
                out.append(sanitize_label_text(chart.points[index].text.as_str()).as_str());
                j = j + 1;
            }
            out.append("\n");
        }
        g = g + 1;
    }
    proof {
        let rest = out@.subrange(listing.len() as int, out@.len() as int);
        assert(out@ =~= listing + rest);
        if chart.points@.len() > 0 {
            let section = points_section(chart.points@, notes@, opts.charset);
            lemma_section_nonempty(chart.points@, notes@, opts.charset);
            assert(listing =~= before_points + section);
            assert(occurs(listing, before_points.len() as int, section)) by {
                assert(listing.subrange(before_points.len() as int, (before_points.len() + section.len()) as int)
                    =~= section);
            }
            assert(has_word(listing, section));
            lemma_has_word_extend(listing, rest, section);
            assert forall|i: int| 0 <= i < chart.points@.len() implies
                has_word(out@, #[trigger] point_line(chart.points@[i], i as usize, opts.charset)) by {
                lemma_entry_listed(chart.points@, notes@, opts.charset, chart.points@.len() as int, i);
                lemma_entries_in_section(chart.points@, notes@, opts.charset, i);
                lemma_has_word_trans(out@, section, point_line(chart.points@[i], i as usize, opts.charset));
            }
            let b = ((area.x + 1) as usize, (area.x + area.width - 2) as usize, (area.y + 1) as usize,
                (area.y + area.height - 2) as usize);
            assert(statuses_fit(locate, notes@, b, chart.points@.len() as int));
        }
    }
    Ok(out)
}

} // verus!
