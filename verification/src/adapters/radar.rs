//! Radar chart terminal output: the layered radial drawing, then the scale, the axes and the
//! legend.
//!
//! Axis, curve and entry counts and the configured ticks are bounded before any geometry is
//! allocated. The drawing itself (graticule, spokes, curves, markers and axis labels, placed by
//! angle) and the data range come from a drawing the caller hands in.

use vstd::prelude::*;
use crate::adapters::box_geometry::sat_mul;
use crate::adapters::chart_primitives::{
    checked_chart_dimensions, ensure_entity_limit, is_white_line, marker_char, MAX_CHART_ENTITIES,
};
use crate::adapters::json::{decimal, decimal_text};
use crate::adapters::chart_primitives::{chart_dimensions, marker_glyph};
use crate::ansi::sanitized;
use crate::canvas::all_white;
use crate::text::unicode_str_width;
use crate::options::Charset;
use crate::adapters::{detail_separator, format_title, title_text};
use crate::ansi::sanitize_label_text;
use crate::canvas::str_display_width;
use crate::error::{MermansiError, Result};
use crate::options::MermansiOptions;
use crate::text::chars_of;

verus! {

/// Most ticks a radar chart draws.
pub const MAX_RADAR_TICKS: usize = 18;

/// An axis: its name and label.
pub struct RadarAxis {
    pub name: String,
    pub label: String,
}

/// A curve: its label and the texts of its entries.
pub struct RadarCurve {
    pub label: String,
    pub entries: Vec<String>,
}

/// A radar chart: title, axes, curves, the configured tick count (where it is a nonnegative
/// integer), the graticule kind and whether the legend is shown.
pub struct RadarChart {
    pub title: Option<String>,
    pub axes: Vec<RadarAxis>,
    pub curves: Vec<RadarCurve>,
    pub ticks: Option<u64>,
    pub graticule: String,
    pub show_legend: bool,
}

/// What the drawing gives back: the cropped drawing and the texts of the scale's bounds.
pub struct RadarDrawing {
    pub canvas: String,
    pub minimum: String,
    pub maximum: String,
}

/// The error for the configured tick count, if it is refused: not a nonnegative integer, zero,
/// or above [`MAX_RADAR_TICKS`].
pub open spec fn ticks_error(ticks: Option<u64>) -> Option<MermansiError> {
    match ticks {
        None => Some(MermansiError::GeometryLayout { family: "radar", message: arbitrary() }),
        Some(t) => if t == 0 {
            Some(MermansiError::GeometryLayout { family: "radar", message: arbitrary() })
        } else if t > MAX_RADAR_TICKS {
            Some(MermansiError::RenderLimit {
                context: "radar ticks",
                requested: if t > usize::MAX { usize::MAX } else { t as usize },
                limit: MAX_RADAR_TICKS,
            })
        } else {
            None
        },
    }
}

/// Whether `e` is the error `ticks_error` names, up to the message of a geometry error.
pub open spec fn is_ticks_error(e: MermansiError, expected: MermansiError) -> bool {
    match expected {
        MermansiError::GeometryLayout { family, .. } => e matches MermansiError::GeometryLayout { family: f, .. } && f == family,
        _ => e == expected,
    }
}

/// The configured tick count, checked.
fn parse_ticks(ticks: Option<u64>) -> (r: Result<usize>)
    ensures
        match ticks_error(ticks) {
            Some(expected) => r matches Err(e) && is_ticks_error(e, expected),
            None => r matches Ok(t) && t == ticks->0 && 1 <= t <= MAX_RADAR_TICKS,
        },
{
    let raw = match ticks {
        Some(raw) => raw,
        None => return Err(MermansiError::GeometryLayout {
            family: "radar",
            message: String::from_str("ticks must be a positive integer"),
        }),
    };
    let requested: usize = if raw > usize::MAX as u64 { usize::MAX } else { raw as usize };
    if requested == 0 {
        return Err(MermansiError::GeometryLayout {
            family: "radar",
            message: String::from_str("ticks must be greater than zero"),
        });
    }
    if requested > MAX_RADAR_TICKS {
        return Err(MermansiError::RenderLimit { context: "radar ticks", requested, limit: MAX_RADAR_TICKS });
    }
    Ok(requested)
}

/// The label of an axis: its label, or its name where the label is blank.
fn axis_label(axis: &RadarAxis) -> (r: String)
    ensures
        r@ == if crate::canvas::all_white(crate::ansi::sanitized(axis.label@)) {
            crate::ansi::sanitized(axis.name@) } else { crate::ansi::sanitized(axis.label@) },
{
    let label = sanitize_label_text(axis.label.as_str());
    if is_white_line(&chars_of(label.as_str())) {
        sanitize_label_text(axis.name.as_str())
    } else {
        label
    }
}

/// The number of entries of the first `n` curves.
pub open spec fn total_entries(curves: Seq<RadarCurve>, n: int) -> nat
    decreases n,
{
    if n <= 0 { 0 } else { total_entries(curves, n - 1) + curves[n - 1].entries@.len() }
}

proof fn lemma_total_entries_grow(curves: Seq<RadarCurve>, a: int, b: int)
    requires
        0 <= a <= b,
    ensures
        total_entries(curves, a) <= total_entries(curves, b),
    decreases b - a,
{
    if a < b {
        lemma_total_entries_grow(curves, a, b - 1);
    }
}

/// The number of entries of all curves, refused where it overflows.
fn entry_count(curves: &Vec<RadarCurve>) -> (r: Result<usize>)
    ensures
        total_entries(curves@, curves@.len() as int) <= usize::MAX
            ==> r == Ok::<usize, MermansiError>(total_entries(curves@, curves@.len() as int) as usize),
{
    let mut total: usize = 0;
    let mut k: usize = 0;
    while k < curves.len()
        invariant
            k <= curves@.len(),
            total == total_entries(curves@, k as int),
        decreases curves@.len() - k,
    {
        total = match total.checked_add(curves[k].entries.len()) {
            Some(t) => t,
            None => {
                proof {
                    lemma_total_entries_grow(curves@, k as int + 1, curves@.len() as int);
                }
                return Err(MermansiError::RenderLimit {
                    context: "radar curve entries",
                    requested: usize::MAX,
                    limit: MAX_CHART_ENTITIES,
                });
            },
        };
        k = k + 1;
    }
    Ok(total)
}

/// `value` held between `low` and `high`.
fn clamped(value: usize, low: usize, high: usize) -> (r: usize)
    requires
        low <= high,
    ensures
        low <= r <= high,
        r == clamp_of(value as int, low as int, high as int),
{
    if value < low { low } else if value > high { high } else { value }
}

/// `value` held between `low` and `high`.
pub open spec fn clamp_of(value: int, low: int, high: int) -> int {
    if value < low { low } else if value > high { high } else { value }
}

/// `value`, saturated at `usize::MAX`.
pub open spec fn saturated(value: int) -> int {
    if value > usize::MAX { usize::MAX as int } else { value }
}

/// The label shown for an axis: its label, or its name where the label is blank.
pub open spec fn axis_label_of(axis: RadarAxis) -> Seq<char> {
    if all_white(sanitized(axis.label@)) { sanitized(axis.name@) } else { sanitized(axis.label@) }
}

/// The display width of the widest of the first `n` axis labels.
pub open spec fn widest_axis(axes: Seq<RadarAxis>, n: int) -> int
    decreases n,
{
    if n <= 0 {
        0
    } else {
        let w = unicode_str_width(axis_label_of(axes[n - 1])) as int;
        let before = widest_axis(axes, n - 1);
        if w > before { w } else { before }
    }
}

/// The canvas size a radar chart asks for with `ticks` ticks: tall enough for the ticks, wide
/// enough for the axis labels, both within the options' limits.
pub open spec fn radar_size(axes: Seq<RadarAxis>, opts: MermansiOptions, ticks: int) -> Result<(usize, usize)> {
    let preferred_height = clamp_of(saturated((ticks + 3) * 2), 14, 40);
    let wide = saturated(saturated(widest_axis(axes, axes.len() as int) * 2) + 8);
    let tall = preferred_height * 2;
    let preferred = if tall > wide { tall } else { wide };
    let preferred_width = if preferred > 80 { 80 } else { preferred };
    chart_dimensions(opts, (20, 10), (preferred_width as usize, preferred_height as usize))
}

/// The most ticks a chart `height` rows tall can show.
pub open spec fn tick_capacity(height: usize) -> int {
    let rows = if height / 2 >= 2 { height / 2 - 2 } else { 0 };
    if rows > 3 { rows } else { 3 }
}

/// The separator between an identity and its detail.
pub open spec fn separator_of(charset: Charset) -> Seq<char> {
    match charset {
        Charset::Unicode => " · "@,
        Charset::Ascii => " - "@,
    }
}

/// The first `n` texts joined by `sep`.
pub open spec fn joined_texts(texts: Seq<Seq<char>>, n: int, sep: Seq<char>) -> Seq<char>
    decreases n,
{
    if n <= 0 {
        seq![]
    } else if n == 1 {
        texts[0]
    } else {
        joined_texts(texts, n - 1, sep) + sep + texts[n - 1]
    }
}

/// The axis labels of a chart, in order.
pub open spec fn axis_labels(axes: Seq<RadarAxis>) -> Seq<Seq<char>> {
    axes.map_values(|a: RadarAxis| axis_label_of(a))
}

/// The legend line of curve `c`: its marker, its label and its entries.
pub open spec fn legend_line(curve: RadarCurve, c: usize, charset: Charset) -> Seq<char> {
    let entries = curve.entries@.map_values(|e: String| sanitized(e@));
    "  "@ + marker_glyph(c, charset)@ + " "@ + sanitized(curve.label@) + ": "@
        + joined_texts(entries, entries.len() as int, ", "@) + "\n"@
}

/// The legend lines of the first `n` curves.
pub open spec fn legend_lines(curves: Seq<RadarCurve>, n: int, charset: Charset) -> Seq<char>
    decreases n,
{
    if n <= 0 { seq![] } else { legend_lines(curves, n - 1, charset) + legend_line(curves[n - 1], (n - 1) as usize, charset) }
}

/// The text of a radar chart whose drawing came back as `d`: the title, the drawing, the
/// scale with the tick count and graticule, the axes, and the legend where it is shown.
pub open spec fn radar_text(chart: RadarChart, charset: Charset, d: RadarDrawing, ticks: usize) -> Seq<char> {
    let sep = separator_of(charset);
    let head = title_text(chart.title) + d.canvas@;
    let drawn = if head.len() > 0 && head.last() == '\n' { head } else { head + "\n"@ };
    let labels = axis_labels(chart.axes@);
    let legend = if chart.show_legend && chart.curves@.len() > 0 {
        "Legend:\n"@ + legend_lines(chart.curves@, chart.curves@.len() as int, charset)
    } else {
        seq![]
    };
    drawn + "\nScale: "@ + d.minimum@ + ".."@ + d.maximum@ + sep + "ticks="@ + decimal(ticks as nat) + sep
        + chart.graticule@ + "\n"@ + "Axes: "@ + joined_texts(labels, labels.len() as int, sep) + "\n"@ + legend
}

/// What a radar chart with axes, within the entity limits and with valid ticks, renders to:
/// the size refusal, the tick-capacity refusal, the drawing's own failure, or the text around
/// the drawing.
pub open spec fn radar_outcome<D: FnOnce(usize, usize, usize, Vec<String>) -> Result<RadarDrawing>>(
    chart: RadarChart, opts: MermansiOptions, draw: D, ticks: usize, r: Result<String>) -> bool {
    match radar_size(chart.axes@, opts, ticks as int) {
        Err(e) => r == Err::<String, MermansiError>(e),
        Ok(size) => if ticks > tick_capacity(size.1) {
            r == Err::<String, MermansiError>(MermansiError::RenderLimit {
                context: "radar ticks", requested: ticks, limit: tick_capacity(size.1) as usize })
        } else {
            exists|labels: Vec<String>, d: Result<RadarDrawing>|
                #[trigger] call_ensures(draw, (size.0, size.1, ticks, labels), d)
                && labels@.map_values(|l: String| l@) == axis_labels(chart.axes@)
                && (d matches Err(e) ==> r == Err::<String, MermansiError>(e))
                && (d matches Ok(drawing) ==> (r matches Ok(s) && s@ == radar_text(chart, opts.charset, drawing, ticks)))
        },
    }
}

/// Whether the text ends with a line break.
fn ends_with_newline(s: &str) -> (r: bool)
    ensures
        r == (s@.len() > 0 && s@.last() == '\n'),
{
    let chars = chars_of(s);
    chars.len() > 0 && chars[chars.len() - 1] == '\n'
}

/// The shown label of every axis, with the display width of the widest.
fn axis_labels_with_width(axes: &Vec<RadarAxis>) -> (r: (Vec<String>, usize))
    ensures
        r.0@.map_values(|l: String| l@) == axis_labels(axes@),
        r.1 == widest_axis(axes@, axes@.len() as int),
{
    let mut labels: Vec<String> = Vec::new();
    let mut longest: usize = 0;
    let mut k: usize = 0;
    while k < axes.len()
        invariant
            k <= axes@.len(),
            labels@.len() == k,
            forall|i: int| 0 <= i < k ==> (#[trigger] labels@[i])@ == axis_label_of(axes@[i]),
            longest == widest_axis(axes@, k as int),
        decreases axes@.len() - k,
    {
        let label = axis_label(&axes[k]);
        let w = str_display_width(label.as_str());
        if w > longest {
            longest = w;
        }
        labels.push(label);
        k = k + 1;
    }
    assert(labels@.map_values(|l: String| l@) =~= axis_labels(axes@));
    (labels, longest)
}

/// The texts joined by `sep`.
fn joined_line(texts: &Vec<String>, sep: &str) -> (r: String)
    ensures
        r@ == joined_texts(texts@.map_values(|t: String| t@), texts@.len() as int, sep@),
{
    let ghost views = texts@.map_values(|t: String| t@);
    let mut out = String::new();
    let mut k: usize = 0;
    while k < texts.len()
        invariant
            k <= texts@.len(),
            views == texts@.map_values(|t: String| t@),
            out@ == joined_texts(views, k as int, sep@),
        decreases texts@.len() - k,
    {
        if k > 0 {
            out.append(sep);
        }
        out.append(texts[k].as_str());
        k = k + 1;
        assert(out@ =~= joined_texts(views, k as int, sep@));
    }
    out
}

/// The legend lines of the curves.
fn legend_block(curves: &Vec<RadarCurve>, charset: Charset) -> (r: String)
    ensures
        r@ == legend_lines(curves@, curves@.len() as int, charset),
{
    let mut out = String::new();
    let mut c: usize = 0;
    while c < curves.len()
        invariant
            c <= curves@.len(),
            out@ == legend_lines(curves@, c as int, charset),
        decreases curves@.len() - c,
    {
        let curve = &curves[c];
        let ghost before = out@;
        out.append("  ");
        out.append(marker_char(c, charset));
        out.append(" ");
        out.append(sanitize_label_text(curve.label.as_str()).as_str());
        out.append(": ");
        let mut entries: Vec<String> = Vec::new();
        let mut e: usize = 0;
        while e < curve.entries.len()
            invariant
                e <= curve.entries@.len(),
                entries@.len() == e,
                forall|i: int| 0 <= i < e ==> (#[trigger] entries@[i])@ == sanitized(curve.entries@[i]@),
            decreases curve.entries@.len() - e,
        {
            entries.push(sanitize_label_text(curve.entries[e].as_str()));
            e = e + 1;
        }
        assert(entries@.map_values(|t: String| t@) =~= curve.entries@.map_values(|t: String| sanitized(t@)));
        let row = joined_line(&entries, ", ");
        out.append(row.as_str());
        out.append("\n");
        proof {
            reveal_strlit("  ");
            reveal_strlit(" ");
            reveal_strlit(": ");
            reveal_strlit(", ");
            reveal_strlit("\n");
            assert(out@ =~= before + legend_line(curves@[c as int], c, charset));
        }
        c = c + 1;
    }
    out
}

/// Render a radar chart: the drawing, then `Scale: min..max`, the tick count and the graticule
/// kind, the axes, and (where shown) one legend line per curve with its entries.
///
/// The axis, curve and entry counts are bounded first; a chart without axes gives a
/// placeholder line. The tick count must be a positive integer, at most [`MAX_RADAR_TICKS`]
/// and at most the chart radius in rows. `draw` is asked for the drawing, given the canvas
/// width and height, the tick count and the axis labels.
pub fn render_radar<D: FnOnce(usize, usize, usize, Vec<String>) -> Result<RadarDrawing>>(chart: &RadarChart,
    opts: &MermansiOptions, draw: D) -> (r: Result<String>)
    requires
        forall|w: usize, h: usize, t: usize, labels: Vec<String>| #[trigger] call_requires(draw, (w, h, t, labels)),
    ensures
        chart.axes@.len() > MAX_CHART_ENTITIES ==> r == Err::<String, MermansiError>(MermansiError::RenderLimit {
            context: "radar axes", requested: chart.axes@.len() as usize, limit: MAX_CHART_ENTITIES }),
        chart.axes@.len() <= MAX_CHART_ENTITIES && chart.curves@.len() > MAX_CHART_ENTITIES
            ==> r == Err::<String, MermansiError>(MermansiError::RenderLimit {
            context: "radar curves", requested: chart.curves@.len() as usize, limit: MAX_CHART_ENTITIES }),
        chart.axes@.len() == 0 && chart.curves@.len() <= MAX_CHART_ENTITIES
            && total_entries(chart.curves@, chart.curves@.len() as int) <= MAX_CHART_ENTITIES
            ==> (r matches Ok(s) && s@ == title_text(chart.title) + "(empty radar chart)\n"@),
        r is Ok && chart.axes@.len() > 0 ==> ticks_error(chart.ticks) is None,
        r is Ok ==> chart.axes@.len() <= MAX_CHART_ENTITIES && chart.curves@.len() <= MAX_CHART_ENTITIES,
        chart.axes@.len() > 0 && chart.axes@.len() <= MAX_CHART_ENTITIES && chart.curves@.len() <= MAX_CHART_ENTITIES
            && total_entries(chart.curves@, chart.curves@.len() as int) <= MAX_CHART_ENTITIES
            && ticks_error(chart.ticks) is None
            ==> radar_outcome(*chart, *opts, draw, chart.ticks->0 as usize, r),
{
    let mut out = format_title(&chart.title);
    match ensure_entity_limit("radar axes", chart.axes.len()) {
        Ok(()) => {},
        Err(e) => return Err(e),
    }
    match ensure_entity_limit("radar curves", chart.curves.len()) {
        Ok(()) => {},
        Err(e) => return Err(e),
    }
    let entries = match entry_count(&chart.curves) {
        Ok(n) => n,
        Err(e) => return Err(e),
    };
    match ensure_entity_limit("radar curve entries", entries) {
        Ok(()) => {},
        Err(e) => return Err(e),
    }
    if chart.axes.len() == 0 {
        out.append("(empty radar chart)\n");
        return Ok(out);
    }
    let ticks = match parse_ticks(chart.ticks) {
        Ok(t) => t,
        Err(e) => return Err(e),
    };
    let preferred_height = clamped(sat_mul(ticks + 3, 2), 14, 40);
    let (labels, longest_axis) = axis_labels_with_width(&chart.axes);
    let wide = sat_mul(longest_axis, 2).saturating_add(8);
    let tall = preferred_height * 2;
    let preferred_width = if tall > wide { tall } else { wide };
    let preferred_width = if preferred_width > 80 { 80 } else { preferred_width };
    let (chart_width, chart_height) = match checked_chart_dimensions(opts, (20, 10), (preferred_width, preferred_height)) {
        Ok(d) => d,
        Err(e) => return Err(e),
    };
    let rows = (chart_height / 2).saturating_sub(2);
    let tick_capacity = if rows > 3 { rows } else { 3 };
    if ticks > tick_capacity {
        return Err(MermansiError::RenderLimit { context: "radar ticks", requested: ticks, limit: tick_capacity });
    }
    let separator = detail_separator(opts.charset);
    let joined = joined_line(&labels, separator);
    let mut axes_line = String::from_str("Axes: ");
    axes_line.append(joined.as_str());
    let ghost label_vec = labels;
    let result = draw(chart_width, chart_height, ticks, labels);
    let drawing = match result {
        Ok(d) => d,
        Err(e) => {
            proof {
                assert(call_ensures(draw, (chart_width, chart_height, ticks, label_vec), result));
            }
            return Err(e);
        },
    };
    let ghost head = out@;
    out.append(drawing.canvas.as_str());
    if !ends_with_newline(out.as_str()) {
        out.append("\n");
    }
    out.append("\nScale: ");
    out.append(drawing.minimum.as_str());
    out.append("..");
    out.append(drawing.maximum.as_str());
    out.append(separator);
    out.append("ticks=");
    out.append(decimal_text(ticks).as_str());
    out.append(separator);
    out.append(chart.graticule.as_str());
    out.append("\n");
    out.append(axes_line.as_str());
    out.append("\n");
    let ghost before_legend = out@;
    if chart.show_legend && chart.curves.len() > 0 {
        out.append("Legend:\n");
        let lines = legend_block(&chart.curves, opts.charset);
        out.append(lines.as_str());
    }
    proof {
        reveal_strlit("\n");
        reveal_strlit("\nScale: ");
        reveal_strlit("..");
        reveal_strlit("ticks=");
        reveal_strlit("Axes: ");
        reveal_strlit("Legend:\n");
        reveal_strlit(" · ");
        reveal_strlit(" - ");
        assert(separator@ == separator_of(opts.charset));
        let t = radar_text(*chart, opts.charset, drawing, ticks);
        assert(out@ =~= t);
        assert(call_ensures(draw, (chart_width, chart_height, ticks, label_vec), result));
    }
    Ok(out)
}

} // verus!
