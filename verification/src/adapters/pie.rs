//! Pie chart terminal output: the sector drawing, a legend of shares, and the values left out.
//!
//! Finite nonnegative values are plotted; the others never weigh in a sector but stay visible
//! as explicitly excluded rows. The sector drawing and the texts of values and shares are
//! computed from the parsed numbers before the chart reaches this module.

use vstd::prelude::*;
use crate::adapters::chart_primitives::{ensure_entity_limit, fill_char, MAX_CHART_ENTITIES};
use crate::adapters::{align_left_display, align_right_display, format_title, title_text};
use crate::ansi::{sanitize_label_text, sanitized};
use crate::canvas::str_display_width;
use crate::text::unicode_str_width;
use crate::error::{MermansiError, Result};
use crate::options::{Charset, MermansiOptions};
use crate::text::chars_of;
use crate::adapters::flowchart::{has_word, occurs};
use crate::adapters::quadrant_chart::{lemma_has_word_extend, lemma_has_word_trans};

verus! {

/// What a section's value is.
#[derive(Clone, Copy, Debug, PartialEq, Eq, Structural)]
pub enum PieValue {
    /// A finite nonnegative number: it is plotted.
    Plottable,
    /// Not a number.
    NotANumber,
    /// An infinite number.
    NotFinite,
    /// A negative number.
    Negative,
}

/// A section: its label, the text of its value, the text of its share, and what its value is.
pub struct PieSection {
    pub label: String,
    pub value_text: String,
    pub share_text: String,
    pub value: PieValue,
}

/// A pie chart: title, whether values are listed, the sections, and whether the plotted
/// values add up to more than zero.
pub struct PieChart {
    pub title: Option<String>,
    pub show_data: bool,
    pub sections: Vec<PieSection>,
    pub positive_total: bool,
}

/// Why a value is left out.
pub open spec fn exclusion_reason(value: PieValue) -> &'static str {
    match value {
        PieValue::NotANumber => "not a number",
        PieValue::NotFinite => "not finite",
        _ => "negative",
    }
}

/// The marker of an excluded row.
pub open spec fn excluded_marker(charset: Charset) -> &'static str {
    match charset {
        Charset::Unicode => "×",
        Charset::Ascii => "!",
    }
}

/// The row of a section left out: its marker, label, value text and reason.
pub open spec fn excluded_row(section: PieSection, charset: Charset) -> Seq<char> {
    "  "@ + excluded_marker(charset)@ + " "@ + sanitized(section.label@) + " = "@ + section.value_text@ + " ("@
        + exclusion_reason(section.value)@ + ")\n"@
}

/// The rows of the sections left out among the first `n`, in order.
pub open spec fn excluded_rows(sections: Seq<PieSection>, n: int, charset: Charset) -> Seq<char>
    decreases n,
{
    if n <= 0 {
        seq![]
    } else {
        excluded_rows(sections, n - 1, charset) + if sections[n - 1].value != PieValue::Plottable {
            excluded_row(sections[n - 1], charset)
        } else {
            seq![]
        }
    }
}

fn excluded_reason(value: PieValue) -> (r: &'static str)
    ensures
        r == exclusion_reason(value),
{
    match value {
        PieValue::NotANumber => "not a number",
        PieValue::NotFinite => "not finite",
        _ => "negative",
    }
}

/// A row of the legend.
struct LegendRow {
    marker: &'static str,
    label: String,
    value: String,
    share: String,
}

/// `count` dashes.
fn dashes(count: usize) -> (r: String)
    ensures
        r@ == Seq::new(count as nat, |i: int| '-'),
{
    let mut out = String::new();
    let mut i: usize = 0;
    while i < count
        invariant
            i <= count,
            out@ == Seq::new(i as nat, |j: int| '-'),
        decreases count - i,
    {
        out.append("-");
        proof {
            reveal_strlit("-");
            assert(out@ =~= Seq::new((i + 1) as nat, |j: int| '-'));
        }
        i = i + 1;
    }
    out
}

/// The text of `row` that `pick` names: its label, value or share.
spec fn picked(row: LegendRow, pick: u8) -> Seq<char> {
    if pick == 0 { row.label@ } else if pick == 1 { row.value@ } else { row.share@ }
}

/// The widest of the texts picked from the first `n` rows, and at least `floor`.
spec fn widest_picked(rows: Seq<LegendRow>, pick: u8, floor: int, n: int) -> int
    decreases n,
{
    if n <= 0 {
        floor
    } else {
        let w = unicode_str_width(picked(rows[n - 1], pick)) as int;
        if w > widest_picked(rows, pick, floor, n - 1) { w } else { widest_picked(rows, pick, floor, n - 1) }
    }
}

/// `text` followed by spaces up to `width` columns.
pub open spec fn left_padded(text: Seq<char>, width: int) -> Seq<char> {
    text + Seq::new((if width > unicode_str_width(text) { width - unicode_str_width(text) } else { 0 }) as nat, |i: int| ' ')
}

/// `text` after spaces up to `width` columns.
pub open spec fn right_padded(text: Seq<char>, width: int) -> Seq<char> {
    Seq::new((if width > unicode_str_width(text) { width - unicode_str_width(text) } else { 0 }) as nat, |i: int| ' ') + text
}

/// `a + b` capped at `usize::MAX`.
pub open spec fn capped_sum(a: int, b: int) -> int {
    if a + b > usize::MAX { usize::MAX as int } else { a + b }
}

/// One legend row: marker, label, value (where listed) and share.
spec fn legend_row(row: LegendRow, show_data: bool, label_width: int, value_width: int, share_width: int) -> Seq<char> {
    "  "@ + row.marker@ + " "@ + left_padded(row.label@, label_width) + " "@
        + (if show_data { right_padded(row.value@, value_width) + " "@ } else { seq![] })
        + right_padded(row.share@, share_width) + "\n"@
}

/// The first `n` legend rows.
spec fn legend_rows(rows: Seq<LegendRow>, n: int, show_data: bool, label_width: int, value_width: int,
    share_width: int) -> Seq<char>
    decreases n,
{
    if n <= 0 {
        seq![]
    } else {
        legend_rows(rows, n - 1, show_data, label_width, value_width, share_width)
            + legend_row(rows[n - 1], show_data, label_width, value_width, share_width)
    }
}

/// Every row's label occurs in the first `n` legend rows.
proof fn lemma_label_in_rows(rows: Seq<LegendRow>, n: int, show_data: bool, lw: int, vw: int, sw: int, j: int)
    requires
        0 <= j < n <= rows.len(),
    ensures
        has_word(legend_rows(rows, n, show_data, lw, vw, sw), rows[j].label@),
    decreases n,
{
    let prev = legend_rows(rows, n - 1, show_data, lw, vw, sw);
    let row = legend_row(rows[n - 1], show_data, lw, vw, sw);
    assert(legend_rows(rows, n, show_data, lw, vw, sw) == prev + row);
    if j == n - 1 {
        let label = rows[j].label@;
        let at: int = (rows[j].marker@.len() + 3) as int;
        let start: int = prev.len() + at;
        reveal_strlit("  ");
        reveal_strlit(" ");
        assert(row.subrange(at, at + label.len()) =~= label);
        assert(occurs(row, at, label));
        assert(row.len() > at);
        assert((prev + row).subrange(start, start + label.len()) =~= label);
        assert(occurs(prev + row, start, label));
    } else {
        lemma_label_in_rows(rows, n - 1, show_data, lw, vw, sw, j);
        lemma_has_word_extend(prev, row, rows[j].label@);
    }
}

/// Every row's label occurs in the legend.
proof fn lemma_label_in_legend(rows: Seq<LegendRow>, show_data: bool, j: int)
    requires
        0 <= j < rows.len(),
    ensures
        has_word(legend_text(rows, show_data), rows[j].label@),
{
    let lw = widest_picked(rows, 0, unicode_str_width("Label"@) as int, rows.len() as int);
    let vw = widest_picked(rows, 1, unicode_str_width("Value"@) as int, rows.len() as int);
    let sw = widest_picked(rows, 2, unicode_str_width("Share"@) as int, rows.len() as int);
    let head = legend_head(show_data, lw, vw, sw);
    let body = legend_rows(rows, rows.len() as int, show_data, lw, vw, sw);
    lemma_label_in_rows(rows, rows.len() as int, show_data, lw, vw, sw, j);
    let i = choose|i: int| 0 <= i < body.len() && #[trigger] occurs(body, i, rows[j].label@);
    assert(legend_text(rows, show_data) == head + body);
    let start: int = head.len() + i;
    assert((head + body).subrange(start, start + rows[j].label@.len()) =~= body.subrange(i, i + rows[j].label@.len()));
    assert(occurs(head + body, start, rows[j].label@));
}

/// The whole legend: heading row, rule and rows.
spec fn legend_text(rows: Seq<LegendRow>, show_data: bool) -> Seq<char> {
    let lw = widest_picked(rows, 0, unicode_str_width("Label"@) as int, rows.len() as int);
    let vw = widest_picked(rows, 1, unicode_str_width("Value"@) as int, rows.len() as int);
    let sw = widest_picked(rows, 2, unicode_str_width("Share"@) as int, rows.len() as int);
    legend_head(show_data, lw, vw, sw) + legend_rows(rows, rows.len() as int, show_data, lw, vw, sw)
}

/// The heading row and the rule under it.
spec fn legend_head(show_data: bool, lw: int, vw: int, sw: int) -> Seq<char> {
    if show_data {
        "    "@ + left_padded("Label"@, lw) + " "@ + right_padded("Value"@, vw) + " "@ + right_padded("Share"@, sw)
            + "\n  "@ + Seq::new(capped_sum(capped_sum(capped_sum(lw, vw), sw), 4) as nat, |i: int| '-') + "\n"@
    } else {
        "    "@ + left_padded("Label"@, lw) + " "@ + right_padded("Share"@, sw)
            + "\n  "@ + Seq::new(capped_sum(capped_sum(lw, sw), 3) as nat, |i: int| '-') + "\n"@
    }
}

/// Appends the heading row and the rule.
#[verifier::spinoff_prover]
#[verifier::rlimit(60)]
fn append_legend_head(out: &mut String, show_data: bool, label_width: usize, value_width: usize, share_width: usize)
    ensures
        final(out)@ == old(out)@ + legend_head(show_data, label_width as int, value_width as int, share_width as int),
{
    out.append("    ");
    out.append(align_left_display("Label", label_width).as_str());
    out.append(" ");
    if show_data {
        out.append(align_right_display("Value", value_width).as_str());
        out.append(" ");
        out.append(align_right_display("Share", share_width).as_str());
        out.append("\n  ");
        let rule = label_width.saturating_add(value_width).saturating_add(share_width).saturating_add(4);
        out.append(dashes(rule).as_str());
    } else {
        out.append(align_right_display("Share", share_width).as_str());
        out.append("\n  ");
        let rule = label_width.saturating_add(share_width).saturating_add(3);
        out.append(dashes(rule).as_str());
    }
    out.append("\n");
    assert(out@ =~= old(out)@ + legend_head(show_data, label_width as int, value_width as int, share_width as int));
}

/// The widest of the texts picked by `pick` from the rows, and at least `floor`.
fn widest(rows: &Vec<LegendRow>, pick: u8, floor: usize) -> (r: usize)
    ensures
        r >= floor,
        r == widest_picked(rows@, pick, floor as int, rows@.len() as int),
{
    let mut w = floor;
    let mut k: usize = 0;
    while k < rows.len()
        invariant
            k <= rows@.len(),
            w >= floor,
            w == widest_picked(rows@, pick, floor as int, k as int),
        decreases rows@.len() - k,
    {
        let text = if pick == 0 { rows[k].label.as_str() } else if pick == 1 { rows[k].value.as_str() } else { rows[k].share.as_str() };
        let tw = str_display_width(text);
        if tw > w {
            w = tw;
        }
        k = k + 1;
    }
    w
}

/// Appends one legend row.
#[verifier::spinoff_prover]
fn append_legend_row(out: &mut String, row: &LegendRow, show_data: bool, label_width: usize, value_width: usize,
    share_width: usize)
    ensures
        final(out)@ == old(out)@ + legend_row(*row, show_data, label_width as int, value_width as int, share_width as int),
{
    out.append("  ");
    out.append(row.marker);
    out.append(" ");
    out.append(align_left_display(row.label.as_str(), label_width).as_str());
    out.append(" ");
    if show_data {
        out.append(align_right_display(row.value.as_str(), value_width).as_str());
        out.append(" ");
    }
    out.append(align_right_display(row.share.as_str(), share_width).as_str());
    out.append("\n");
    assert(out@ =~= old(out)@ + legend_row(*row, show_data, label_width as int, value_width as int, share_width as int));
}

/// The legend: a heading row, a rule, and each row's marker, label (left-aligned), value
/// (right-aligned, when listed) and share (right-aligned).
fn render_legend(out: &mut String, rows: &Vec<LegendRow>, show_data: bool)
    ensures
        final(out)@ == old(out)@ + legend_text(rows@, show_data),
{
    let label_width = widest(rows, 0, str_display_width("Label"));
    let share_width = widest(rows, 2, str_display_width("Share"));
    let value_width = widest(rows, 1, str_display_width("Value"));
    append_legend_head(out, show_data, label_width, value_width, share_width);
    let ghost head = out@;
    let mut k: usize = 0;
    while k < rows.len()
        invariant
            k <= rows@.len(),
            out@ == head + legend_rows(rows@, k as int, show_data, label_width as int, value_width as int,
                share_width as int),
        decreases rows@.len() - k,
    {
        append_legend_row(out, &rows[k], show_data, label_width, value_width, share_width);
        k = k + 1;
        assert(out@ =~= head + legend_rows(rows@, k as int, show_data, label_width as int, value_width as int,
            share_width as int));
    }
    assert(out@ =~= old(out)@ + legend_text(rows@, show_data));
}

/// Whether the text ends with a line break.
fn ends_with_newline(s: &str) -> (r: bool)
    ensures
        r == (s@.len() > 0 && s@.last() == '\n'),
{
    let chars = chars_of(s);
    chars.len() > 0 && chars[chars.len() - 1] == '\n'
}

/// Render a pie chart: the sectors (where the plotted values add up to more than zero, else
/// a line saying why none is drawn), a legend of the plotted sections with their shares, and
/// the sections left out with the reason.
///
/// The section count is bounded first; a chart without sections gives a placeholder line.
/// `draw` is asked for the sector drawing.
#[verifier::spinoff_prover]
#[verifier::rlimit(80)]
pub fn render_pie<D: FnOnce() -> Result<String>>(chart: &PieChart, opts: &MermansiOptions, draw: D) -> (r: Result<String>)
    requires
        call_requires(draw, ()),
    ensures
        chart.sections@.len() > MAX_CHART_ENTITIES ==> r == Err::<String, MermansiError>(MermansiError::RenderLimit {
            context: "pie sections", requested: chart.sections@.len() as usize, limit: MAX_CHART_ENTITIES }),
        chart.sections@.len() == 0 ==> (r matches Ok(s) && s@ == title_text(chart.title) + "(empty pie chart)\n"@),
        r is Err && chart.sections@.len() <= MAX_CHART_ENTITIES ==> chart.sections@.len() > 0 && chart.positive_total
            && exists|e: MermansiError| call_ensures(draw, (), Err::<String, MermansiError>(e)),
        r matches Ok(s) ==> forall|i: int| 0 <= i < chart.sections@.len()
            && (#[trigger] chart.sections@[i]).value == PieValue::Plottable
            ==> has_word(s@, sanitized(chart.sections@[i].label@)),
        r matches Ok(s) ==> ((exists|i: int| 0 <= i < chart.sections@.len()
            && (#[trigger] chart.sections@[i]).value != PieValue::Plottable) ==> ({
            let tail = "\nExcluded (not plotted):\n"@ + excluded_rows(chart.sections@, chart.sections@.len() as int, opts.charset);
            s@.len() >= tail.len() && s@.subrange(s@.len() - tail.len(), s@.len() as int) == tail
        })),
{
    let mut out = format_title(&chart.title);
    match ensure_entity_limit("pie sections", chart.sections.len()) {
        Ok(()) => {},
        Err(e) => return Err(e),
    }
    if chart.sections.len() == 0 {
        out.append("(empty pie chart)\n");
        return Ok(out);
    }
    let mut plottable: usize = 0;
    let mut any_excluded = false;
    let mut k: usize = 0;
    while k < chart.sections.len()
        invariant
            k <= chart.sections@.len(),
            plottable <= k,
            any_excluded <==> exists|j: int| 0 <= j < k && (#[trigger] chart.sections@[j]).value != PieValue::Plottable,
        decreases chart.sections@.len() - k,
    {
        if chart.sections[k].value == PieValue::Plottable {
            plottable = plottable + 1;
        } else {
            any_excluded = true;
        }
        k = k + 1;
    }
    if chart.positive_total {
        let drawing = match draw() {
            Ok(text) => text,
            Err(e) => return Err(e),
        };
        out.append(drawing.as_str());
        if !ends_with_newline(out.as_str()) {
            out.append("\n");
        }
        out.append("\n");
    } else if plottable == 0 {
        out.append("(pie chart has no plottable values)\n\n");
    } else {
        out.append("(pie chart has zero total; no sectors plotted)\n\n");
    }

    let mut rows: Vec<LegendRow> = Vec::new();
    let mut k: usize = 0;
    while k < chart.sections.len()
        invariant
            k <= chart.sections@.len(),
            rows@.len() <= k,
            forall|i: int| 0 <= i < k && (#[trigger] chart.sections@[i]).value == PieValue::Plottable
                ==> exists|j: int| 0 <= j < rows@.len() && (#[trigger] rows@[j]).label@ == sanitized(chart.sections@[i].label@),
        decreases chart.sections@.len() - k,
    {
        let ghost earlier = rows@;
        let section = &chart.sections[k];
        if section.value == PieValue::Plottable {
            rows.push(LegendRow {
                marker: fill_char(rows.len(), opts.charset),
                label: sanitize_label_text(section.label.as_str()),
                value: section.value_text.clone(),
                share: section.share_text.clone(),
            });
        }
        proof {
            assert forall|i: int| 0 <= i < k + 1 && (#[trigger] chart.sections@[i]).value == PieValue::Plottable
                implies exists|j: int| 0 <= j < rows@.len() && (#[trigger] rows@[j]).label@ == sanitized(chart.sections@[i].label@) by {
                if i < k {
                    let j = choose|j: int| 0 <= j < earlier.len() && (#[trigger] earlier[j]).label@ == sanitized(chart.sections@[i].label@);
                    assert(rows@[j] == earlier[j]);
                } else {
                    assert(rows@[rows@.len() - 1].label@ == sanitized(chart.sections@[i].label@));
                }
            }
        }
        k = k + 1;
    }
    let ghost before_legend = out@;
    if rows.len() > 0 {
        render_legend(&mut out, &rows, chart.show_data);
    }
    let ghost after_legend = out@;
    proof {
        assert forall|i: int| 0 <= i < chart.sections@.len() && (#[trigger] chart.sections@[i]).value == PieValue::Plottable
            implies has_word(after_legend, sanitized(chart.sections@[i].label@)) by {
            let j = choose|j: int| 0 <= j < rows@.len() && (#[trigger] rows@[j]).label@ == sanitized(chart.sections@[i].label@);
            let legend = legend_text(rows@, chart.show_data);
            lemma_label_in_legend(rows@, chart.show_data, j);
            assert(after_legend == before_legend + legend);
            let p = choose|p: int| 0 <= p < legend.len() && #[trigger] occurs(legend, p, rows@[j].label@);
            let start: int = before_legend.len() + p;
            assert((before_legend + legend).subrange(start, start + rows@[j].label@.len())
                =~= legend.subrange(p, p + rows@[j].label@.len()));
            assert(occurs(after_legend, start, rows@[j].label@));
        }
    }

    if any_excluded {
        let marker = match opts.charset {
            Charset::Unicode => "×",
            Charset::Ascii => "!",
        };
        out.append("\nExcluded (not plotted):\n");
        let ghost start = out@.len() - "\nExcluded (not plotted):\n"@.len();
        let ghost head = out@.subrange(0, start);
        let mut k: usize = 0;
        while k < chart.sections.len()
            invariant
                k <= chart.sections@.len(),
                marker == excluded_marker(opts.charset),
                0 <= start,
                out@ == head + "\nExcluded (not plotted):\n"@ + excluded_rows(chart.sections@, k as int, opts.charset),
            decreases chart.sections@.len() - k,
        {
            let section = &chart.sections[k];
            let ghost before = out@;
            if section.value != PieValue::Plottable {
                out.append("  ");
                out.append(marker);
                out.append(" ");
                out.append(sanitize_label_text(section.label.as_str()).as_str());
                out.append(" = ");
                out.append(section.value_text.as_str());
                out.append(" (");
                out.append(excluded_reason(section.value));
                out.append(")\n");
                assert(out@ == before + excluded_row(*section, opts.charset));
            }
            assert(excluded_rows(chart.sections@, k + 1, opts.charset) == excluded_rows(chart.sections@, k as int, opts.charset)
                + if chart.sections@[k as int].value != PieValue::Plottable { excluded_row(chart.sections@[k as int], opts.charset) } else { seq![] });
            k = k + 1;
        }
        proof {
            let tail = "\nExcluded (not plotted):\n"@ + excluded_rows(chart.sections@, chart.sections@.len() as int, opts.charset);
            assert(out@.subrange(out@.len() - tail.len(), out@.len() as int) =~= tail);
        }
    }
    proof {
        let rest = out@.subrange(after_legend.len() as int, out@.len() as int);
        assert(out@ =~= after_legend + rest);
        assert forall|i: int| 0 <= i < chart.sections@.len() && (#[trigger] chart.sections@[i]).value == PieValue::Plottable
            implies has_word(out@, sanitized(chart.sections@[i].label@)) by {
            lemma_has_word_extend(after_legend, rest, sanitized(chart.sections@[i].label@));
        }
    }
    Ok(out)
}

} // verus!
