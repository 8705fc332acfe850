//! Gantt terminal geometry.
//!
//! Task timestamps are mapped onto one bounded horizontal time axis. Each task, in the order
//! the chart gives it, receives a proportional bar (or a milestone marker) on its own row and a
//! numbered detail line under the plot.

use vstd::prelude::*;
use crate::adapters::box_geometry::{str_eq, wrap_display};
use crate::adapters::chart_primitives::{fill_char, render_cropped_canvas};
use crate::adapters::json::{decimal_text, signed_decimal_text};
use crate::ansi::sanitize_label_text;
use crate::canvas::{draw_box, draw_vertical_line, str_display_width, Canvas};
use crate::error::{MermansiError, Result};
use crate::options::{Charset, MermansiOptions};
use crate::text::trim_text;

verus! {

#[verifier::external_type_specification]
#[verifier::external_body]
pub struct ExGanttDiagramRenderModel(merman_core::diagrams::gantt::GanttDiagramRenderModel);

#[verifier::external_type_specification]
#[verifier::external_body]
pub struct ExGanttRenderTask(merman_core::diagrams::gantt::GanttRenderTask);

/// Most tasks drawn.
pub const MAX_GANTT_TASKS: usize = 4_096;

/// Fewest columns of a chart with tasks.
pub const MIN_GANTT_WIDTH: usize = 32;

/// Fewest columns of the plot box.
pub const MIN_PLOT_WIDTH: usize = 18;

/// A task: its id, name, section and type, its classes and flags, its order, and its start,
/// end and drawn end in milliseconds since the Unix epoch.
pub struct GanttTask {
    pub id: String,
    pub task: String,
    pub section: String,
    pub task_type: String,
    pub classes: Vec<String>,
    pub active: bool,
    pub done: bool,
    pub crit: bool,
    pub milestone: bool,
    pub vert: bool,
    pub order: i64,
    pub start_ms: i64,
    pub end_ms: i64,
    pub render_end_ms: Option<i64>,
}

/// A Gantt chart: its title and tasks.
pub struct GanttChart {
    pub title: Option<String>,
    pub tasks: Vec<GanttTask>,
}

/// The Gantt model of a parsed diagram, if it is one.
#[verifier::external_body]
pub(crate) fn parsed_gantt(parsed: &merman_core::ParsedDiagramRender)
    -> (r: Option<&merman_core::diagrams::gantt::GanttDiagramRenderModel>)
{
    match parsed.model() {
        merman_core::diagram::RenderSemanticModel::Gantt(model) => Some(model),
        _ => None,
    }
}

/// The `title` field of a Gantt model.
#[verifier::external_body]
fn model_title(model: &merman_core::diagrams::gantt::GanttDiagramRenderModel) -> (r: Option<String>)
{
    model.title.clone()
}

/// The `tasks` field of a Gantt model.
#[verifier::external_body]
fn model_tasks(model: &merman_core::diagrams::gantt::GanttDiagramRenderModel)
    -> (r: &Vec<merman_core::diagrams::gantt::GanttRenderTask>)
{
    &model.tasks
}

/// A task of a Gantt model, field for field.
#[verifier::external_body]
fn task_of(task: &merman_core::diagrams::gantt::GanttRenderTask) -> (r: GanttTask)
{
    GanttTask {
        id: task.id.clone(), task: task.task.clone(), section: task.section.clone(),
        task_type: task.task_type.clone(), classes: task.classes.clone(),
        active: task.active, done: task.done, crit: task.crit, milestone: task.milestone, vert: task.vert,
        order: task.order, start_ms: task.start_ms, end_ms: task.end_ms, render_end_ms: task.render_end_ms,
    }
}

/// The library's Gantt chart of a parsed Gantt model.
pub(crate) fn diagram_of(model: &merman_core::diagrams::gantt::GanttDiagramRenderModel) -> (r: GanttChart)
{
    let source = model_tasks(model);
    let mut tasks: Vec<GanttTask> = Vec::new();
    let mut i: usize = 0;
    while i < source.len()
        invariant
            i <= source@.len(),
        decreases source@.len() - i,
    {
        tasks.push(task_of(&source[i]));
        i = i + 1;
    }
    GanttChart { title: model_title(model), tasks }
}

/// The `%Y-%m-%d` text of the UTC date at `millis` milliseconds after the Unix epoch, where
/// that instant has a date.
pub uninterp spec fn utc_date_text(millis: i64) -> Option<Seq<char>>;

/// `DateTime::<Utc>::from_timestamp_millis`, formatted with `%Y-%m-%d`; `None` where chrono
/// has no date for the instant. The text is named as a function of `millis`.
#[verifier::external_body]
fn utc_date(millis: i64) -> (r: Option<String>)
    ensures
        match r {
            Some(s) => utc_date_text(millis) == Some(s@),
            None => utc_date_text(millis) is None,
        },
{
    match chrono::DateTime::<chrono::Utc>::from_timestamp_millis(millis) {
        Some(date) => Some(date.format("%Y-%m-%d").to_string()),
        None => None,
    }
}

/// The label of an instant: its UTC date, or its milliseconds in decimal where it has none.
fn format_date(millis: i64) -> (r: String)
    ensures
        utc_date_text(millis) matches Some(t) ==> r@ == t,
{
    match utc_date(millis) {
        Some(text) => text,
        None => signed_decimal_text(millis),
    }
}

fn ensure_limit(context: &'static str, requested: usize, limit: usize) -> (r: Result<()>)
    ensures
        requested > limit ==> r == Err::<(), MermansiError>(MermansiError::RenderLimit { context, requested, limit }),
        requested <= limit ==> r is Ok,
{
    if requested > limit {
        return Err(MermansiError::RenderLimit { context, requested, limit });
    }
    Ok(())
}

/// The sanitized, trimmed value, or `(unnamed)` where that is empty.
fn nonempty(value: &str) -> (r: String)
{
    let clean = trim_text(sanitize_label_text(value).as_str());
    if clean.as_str().is_empty() {
        String::from_str("(unnamed)")
    } else {
        clean
    }
}

/// Whether task `a` comes before task `b`: by order, then by position.
fn before(tasks: &Vec<GanttTask>, a: usize, b: usize) -> (r: bool)
    requires
        a < tasks@.len(),
        b < tasks@.len(),
{
    tasks[a].order < tasks[b].order || (tasks[a].order == tasks[b].order && a < b)
}

/// The positions of the tasks, sorted by order and then by position.
fn task_order(tasks: &Vec<GanttTask>) -> (r: Vec<usize>)
    ensures
        r@.len() == tasks@.len(),
        forall|k: int| 0 <= k < r@.len() ==> #[trigger] r@[k] < tasks@.len(),
{
    let mut sorted: Vec<usize> = Vec::new();
    let mut i: usize = 0;
    while i < tasks.len()
        invariant
            i <= tasks@.len(),
            sorted@.len() == i,
            forall|k: int| 0 <= k < sorted@.len() ==> #[trigger] sorted@[k] < tasks@.len(),
        decreases tasks@.len() - i,
    {
        sorted.push(i);
        let mut j: usize = i;
        while j > 0 && before(tasks, sorted[j], sorted[j - 1])
            invariant
                j <= i,
                sorted@.len() == i + 1,
                forall|k: int| 0 <= k < sorted@.len() ==> #[trigger] sorted@[k] < tasks@.len(),
            decreases j,
        {
            let earlier = sorted[j - 1];
            let later = sorted[j];
            sorted.set(j - 1, later);
            sorted.set(j, earlier);
            j = j - 1;
        }
        i = i + 1;
    }
    sorted
}

/// The drawn end of a task: its render end where it has one, else its end.
fn drawn_end(task: &GanttTask) -> (r: i64)
{
    match task.render_end_ms {
        Some(end) => end,
        None => task.end_ms,
    }
}

/// The time of `value` past `minimum`, held to the span from `minimum` to `maximum`.
pub open spec fn clamped_offset(value: int, minimum: int, maximum: int) -> int {
    if value < minimum { 0 } else if value > maximum { maximum - minimum } else { value - minimum }
}

/// The column of `value` on an axis of `columns` columns from `minimum` to `maximum`: its
/// share of the span, rounded down; 0 on an empty span.
pub open spec fn time_column(value: int, minimum: int, maximum: int, columns: int) -> int {
    let span = maximum - minimum;
    if span <= 0 || columns == 0 { 0 } else { clamped_offset(value, minimum, maximum) * columns / span }
}

/// Law: on a time axis with a span, the earliest time (and any before it) falls in the first
/// column, the latest time (and any after it) in the last, and every time in between.
pub proof fn lemma_time_axis_ends(value: int, minimum: int, maximum: int, columns: int)
    requires
        minimum < maximum,
        columns >= 0,
    ensures
        time_column(minimum, minimum, maximum, columns) == 0,
        time_column(maximum, minimum, maximum, columns) == columns,
        value <= minimum ==> time_column(value, minimum, maximum, columns) == 0,
        value >= maximum ==> time_column(value, minimum, maximum, columns) == columns,
        0 <= time_column(value, minimum, maximum, columns) <= columns,
{
    let span = maximum - minimum;
    if columns > 0 {
        vstd::arithmetic::div_mod::lemma_div_multiples_vanish(columns, span);
        assert(span * columns == (maximum - minimum) * columns);
        let o = clamped_offset(value, minimum, maximum);
        vstd::arithmetic::mul::lemma_mul_inequality(o, span, columns);
        vstd::arithmetic::mul::lemma_mul_inequality(0, o, columns);
        vstd::arithmetic::div_mod::lemma_div_is_ordered(o * columns, span * columns, span);
        vstd::arithmetic::div_mod::lemma_div_is_ordered(0, o * columns, span);
        vstd::arithmetic::mul::lemma_mul_is_commutative(span, columns);
    }
}

/// Law: a later time never falls in an earlier column.
pub proof fn lemma_time_axis_order(earlier: int, later: int, minimum: int, maximum: int, columns: int)
    requires
        earlier <= later,
        columns >= 0,
    ensures
        time_column(earlier, minimum, maximum, columns) <= time_column(later, minimum, maximum, columns),
{
    let span = maximum - minimum;
    if span > 0 && columns > 0 {
        let a = clamped_offset(earlier, minimum, maximum);
        let b = clamped_offset(later, minimum, maximum);
        assert(a <= b);
        vstd::arithmetic::mul::lemma_mul_inequality(a, b, columns);
        vstd::arithmetic::div_mod::lemma_div_is_ordered(a * columns, b * columns, span);
    }
}

/// Column of `value` on an axis of `columns` from `minimum` to `maximum` (0 on an empty span).
fn scale_time(value: i64, minimum: i64, maximum: i64, columns: usize) -> (r: usize)
    requires
        columns <= 1_000,
    ensures
        r <= columns,
        r == time_column(value as int, minimum as int, maximum as int, columns as int),
{
    let span: i128 = maximum as i128 - minimum as i128;
    if span <= 0 || columns == 0 {
        return 0;
    }
    let mut offset: i128 = value as i128 - minimum as i128;
    if offset < 0 {
        offset = 0;
    }
    if offset > span {
        offset = span;
    }
    let wide: i128 = columns as i128;
    assert(0 <= offset * wide <= span * wide) by (nonlinear_arith)
        requires
            0 <= offset <= span,
            0 <= wide <= 1_000,
    ;
    assert(span * wide <= 0x1_0000_0000_0000_0000 * 1_000) by (nonlinear_arith)
        requires
            0 < span <= 0x1_0000_0000_0000_0000,
            0 <= wide <= 1_000,
    ;
    let scaled: i128 = offset * wide / span;
    assert(0 <= scaled <= wide) by (nonlinear_arith)
        requires
            0 <= offset <= span,
            0 < span,
            0 <= wide,
            scaled == (offset * wide) / (span as int),
    ;
    scaled as usize
}

/// The caption of task `number` (counted from one): its section and name.
fn caption(number: usize, task: &GanttTask) -> (r: String)
{
    let mut text = String::from_str("[");
    text.append(decimal_text(number).as_str());
    text.append("] ");
    text.append(nonempty(task.section.as_str()).as_str());
    text.append(" / ");
    text.append(nonempty(trim_text(task.task.as_str()).as_str()).as_str());
    text
}

/// The detail line of task `number`: caption, dates, id, flags, classes and type.
fn task_detail(number: usize, task: &GanttTask) -> (r: String)
{
    let mut text = caption(number, task);
    text.append("  ");
    text.append(format_date(task.start_ms).as_str());
    text.append(" -> ");
    text.append(format_date(drawn_end(task)).as_str());
    let id = trim_text(task.id.as_str());
    if !id.as_str().is_empty() {
        text.append("  id=");
        text.append(sanitize_label_text(id.as_str()).as_str());
    }
    let mut flags = String::new();
    let named: [(bool, &'static str); 5] = [
        (task.milestone, "milestone"),
        (task.active, "active"),
        (task.done, "done"),
        (task.crit, "crit"),
        (task.vert, "vert"),
    ];
    let mut k: usize = 0;
    while k < 5
        invariant
            k <= 5,
        decreases 5 - k,
    {
        if named[k].0 {
            if !flags.as_str().is_empty() {
                flags.append(",");
            }
            flags.append(named[k].1);
        }
        k = k + 1;
    }
    if !flags.as_str().is_empty() {
        text.append("  ");
        text.append(flags.as_str());
    }
    if task.classes.len() > 0 {
        text.append("  classes=");
        let mut c: usize = 0;
        while c < task.classes.len()
            invariant
                c <= task.classes@.len(),
            decreases task.classes@.len() - c,
        {
            if c > 0 {
                text.append(",");
            }
            text.append(task.classes[c].as_str());
            c = c + 1;
        }
    }
    let kind = trim_text(task.task_type.as_str());
    if !kind.as_str().is_empty() && !str_eq(task.task_type.as_str(), task.section.as_str()) {
        text.append("  type=");
        text.append(sanitize_label_text(kind.as_str()).as_str());
    }
    text
}

/// The bar fill of a task: by its state, else by its section.
fn task_fill(task: &GanttTask, section: usize, charset: Charset) -> (r: &'static str)
{
    match charset {
        Charset::Ascii => {
            if task.crit { "!" } else if task.active { "@" } else if task.done { "#" } else { fill_char(section, charset) }
        },
        Charset::Unicode => {
            if task.crit { "▒" } else if task.active { "▓" } else if task.done { "█" } else { fill_char(section, charset) }
        },
    }
}

/// The position of `section` among the sections seen so far, adding it where it is new.
fn section_index(seen: &mut Vec<String>, section: &str) -> (r: usize)
{
    let mut k: usize = 0;
    while k < seen.len()
        invariant
            k <= seen@.len(),
        decreases seen@.len() - k,
    {
        if str_eq(seen[k].as_str(), section) {
            return k;
        }
        k = k + 1;
    }
    let index = seen.len();
    seen.push(String::from_str(section));
    index
}

/// Writes the sanitized `text` centred in the `width` columns from `left` on row `y`; text
/// wider than that is refused.
fn write_centered(canvas: &mut Canvas, left: usize, y: usize, width: usize, text: &str) -> (r: Result<()>)
    requires
        old(canvas).wf(),
        left <= 1,
        width <= 1_000,
    ensures
        final(canvas).wf(),
        final(canvas)@.width == old(canvas)@.width,
        final(canvas)@.height == old(canvas)@.height,
{
    let clean = sanitize_label_text(text);
    let text_width = str_display_width(clean.as_str());
    if text_width > width {
        return Err(MermansiError::GeometryLayout {
            family: "gantt",
            message: String::from_str("Gantt label exceeds its assigned width"),
        });
    }
    canvas.set_text(left + (width - text_width) / 2, y, clean.as_str())
}

/// The card of a chart without tasks: its title (or `empty Gantt`) in a box.
fn render_empty_gantt(chart: &GanttChart, opts: &MermansiOptions) -> (r: Result<String>)
    ensures
        empty_card_refused(*opts) ==> r == Err::<String, MermansiError>(MermansiError::RenderLimit {
            context: "gantt empty card", requested: 16, limit: empty_card_limit(*opts) }),
{
    let width = if opts.max_width < 32 { opts.max_width } else { 32 };
    if width < 16 || opts.max_height < 3 {
        let limit = if width < opts.max_height { width } else { opts.max_height };
        return Err(MermansiError::RenderLimit { context: "gantt empty card", requested: 16, limit });
    }
    let mut canvas = match Canvas::new(width, 3) {
        Ok(c) => c,
        Err(e) => return Err(e),
    };
    match draw_box(&mut canvas, 0, 0, width, 3, opts.charset) {
        Ok(()) => {},
        Err(e) => return Err(e),
    }
    let title = match &chart.title {
        Some(t) => nonempty(t.as_str()),
        None => nonempty("empty Gantt"),
    };
    match write_centered(&mut canvas, 1, 1, width - 2, title.as_str()) {
        Ok(()) => {},
        Err(e) => return Err(e),
    }
    Ok(render_cropped_canvas(&canvas))
}

/// Whether the card of an empty chart does not fit: fewer than 16 columns (of at most 32) or
/// fewer than 3 rows.
pub open spec fn empty_card_refused(opts: MermansiOptions) -> bool {
    (if opts.max_width < 32 { opts.max_width } else { 32 }) < 16 || opts.max_height < 3
}

/// The limit reported for a card that does not fit: the smaller of its columns (at most 32)
/// and the rows.
pub open spec fn empty_card_limit(opts: MermansiOptions) -> usize {
    let width = if opts.max_width < 32 { opts.max_width } else { 32 };
    if width < opts.max_height { width } else { opts.max_height }
}

/// The number of rows a chart of `count` tasks needs at least: the title, the date row, the
/// plot box with a row per task, a spacer, and one detail line per task.
pub open spec fn least_rows(count: int) -> int {
    2 * count + 6
}

/// Draws a Gantt chart: the title, the first and last dates, the plot box with quarter
/// rules, one row per task (by order, then position) with its caption and its bar or
/// milestone marker placed proportionally in time, and the numbered detail lines below.
///
/// Too many tasks are refused first; a chart without tasks is drawn as a card; a chart with
/// tasks needs at least 32 columns and a row budget for its plot and details.
pub fn render_gantt(chart: &GanttChart, opts: &MermansiOptions) -> (r: Result<String>)
    ensures
        chart.tasks@.len() > MAX_GANTT_TASKS ==> r == Err::<String, MermansiError>(MermansiError::RenderLimit {
            context: "gantt tasks", requested: chart.tasks@.len() as usize, limit: MAX_GANTT_TASKS }),
        chart.tasks@.len() == 0 && empty_card_refused(*opts) ==> r == Err::<String, MermansiError>(
            MermansiError::RenderLimit { context: "gantt empty card", requested: 16, limit: empty_card_limit(*opts) }),
        0 < chart.tasks@.len() <= MAX_GANTT_TASKS && opts.max_width < MIN_GANTT_WIDTH ==> r == Err::<String, MermansiError>(
            MermansiError::RenderLimit { context: "gantt columns", requested: MIN_GANTT_WIDTH, limit: opts.max_width }),
        0 < chart.tasks@.len() <= MAX_GANTT_TASKS && opts.max_width >= MIN_GANTT_WIDTH
            && opts.max_height < least_rows(chart.tasks@.len() as int)
            ==> (r matches Err(e) && e matches MermansiError::RenderLimit { context, limit, .. }
                && context == "gantt rows" && limit == opts.max_height),
{
    match ensure_limit("gantt tasks", chart.tasks.len(), MAX_GANTT_TASKS) {
        Ok(()) => {},
        Err(e) => return Err(e),
    }
    if chart.tasks.len() == 0 {
        return render_empty_gantt(chart, opts);
    }
    if opts.max_width < MIN_GANTT_WIDTH {
        return Err(MermansiError::RenderLimit { context: "gantt columns", requested: MIN_GANTT_WIDTH, limit: opts.max_width });
    }
    let tasks = &chart.tasks;
    let count = tasks.len();
    let order = task_order(tasks);
    let mut minimum_time: i64 = tasks[order[0]].start_ms;
    let mut k: usize = 1;
    while k < count
        invariant
            1 <= k <= count,
            count == tasks@.len(),
            order@.len() == count,
            forall|j: int| 0 <= j < order@.len() ==> #[trigger] order@[j] < tasks@.len(),
        decreases count - k,
    {
        if tasks[order[k]].start_ms < minimum_time {
            minimum_time = tasks[order[k]].start_ms;
        }
        k = k + 1;
    }
    let mut maximum_time: i64 = minimum_time;
    let mut k: usize = 0;
    while k < count
        invariant
            k <= count,
            count == tasks@.len(),
            order@.len() == count,
            forall|j: int| 0 <= j < order@.len() ==> #[trigger] order@[j] < tasks@.len(),
        decreases count - k,
    {
        let end = drawn_end(&tasks[order[k]]);
        if end > maximum_time {
            maximum_time = end;
        }
        k = k + 1;
    }
    let width: usize = if opts.max_width < 120 { opts.max_width } else { 120 };
    let mut captions: Vec<String> = Vec::new();
    let mut widest: usize = 0;
    let mut k: usize = 0;
    while k < count
        invariant
            count == tasks@.len(),
            count <= MAX_GANTT_TASKS,
            order@.len() == count,
            forall|j: int| 0 <= j < order@.len() ==> #[trigger] order@[j] < tasks@.len(),
            captions@.len() == k,
            k <= count,
        decreases count - k,
    {
        let text = caption(k + 1, &tasks[order[k]]);
        let w = str_display_width(text.as_str());
        if w > widest {
            widest = w;
        }
        captions.push(text);
        k = k + 1;
    }
    let desired = if widest < 30 { widest } else { 30 };
    let room = width - (MIN_PLOT_WIDTH + 1);
    let fitted = if desired < room { desired } else { room };
    let label_width = if fitted < 5 { 5 } else { fitted };
    let plot_x = label_width + 1;
    let plot_width = width - plot_x;
    if plot_width < MIN_PLOT_WIDTH {
        return Err(MermansiError::RenderLimit { context: "gantt plot columns", requested: MIN_PLOT_WIDTH, limit: plot_width });
    }
    let mut details: Vec<String> = Vec::new();
    let mut k: usize = 0;
    while k < count
        invariant
            count == tasks@.len(),
            count <= MAX_GANTT_TASKS,
            order@.len() == count,
            forall|j: int| 0 <= j < order@.len() ==> #[trigger] order@[j] < tasks@.len(),
            k <= count,
            details@.len() >= k,
            32 <= width <= 120,
        decreases count - k,
    {
        let lines = wrap_display(task_detail(k + 1, &tasks[order[k]]).as_str(), width - 2);
        let mut j: usize = 0;
        while j < lines.len()
            invariant
                j <= lines@.len(),
                details@.len() >= k + j,
            decreases lines@.len() - j,
        {
            details.push(lines[j].clone());
            j = j + 1;
        }
        k = k + 1;
    }
    let plot_y: usize = 3;
    let plot_height = count + 2;
    let detail_y = plot_y + plot_height + 1;
    let needed = detail_y.saturating_add(details.len());
    let height = if needed < 7 { 7 } else { needed };
    if opts.max_height < height {
        return Err(MermansiError::RenderLimit { context: "gantt rows", requested: height, limit: opts.max_height });
    }
    assert(opts.max_height >= least_rows(count as int));
    let mut canvas = match Canvas::new(width, height) {
        Ok(c) => c,
        Err(e) => return Err(e),
    };
    let title = match &chart.title {
        Some(t) => {
            let clean = sanitize_label_text(t.as_str());
            if trim_text(clean.as_str()).as_str().is_empty() { String::from_str("Gantt") } else { clean }
        },
        None => String::from_str("Gantt"),
    };
    match write_centered(&mut canvas, 0, 0, width, title.as_str()) {
        Ok(()) => {},
        Err(e) => return Err(e),
    }
    let start_label = format_date(minimum_time);
    let end_label = format_date(maximum_time);
    match canvas.set_text(plot_x, 2, start_label.as_str()) {
        Ok(()) => {},
        Err(e) => return Err(e),
    }
    let end_x = width.saturating_sub(str_display_width(end_label.as_str()));
    if end_x > plot_x.saturating_add(str_display_width(start_label.as_str())) {
        match canvas.set_text(end_x, 2, end_label.as_str()) {
            Ok(()) => {},
            Err(e) => return Err(e),
        }
    }
    match draw_box(&mut canvas, plot_x, plot_y, plot_width, plot_height, opts.charset) {
        Ok(()) => {},
        Err(e) => return Err(e),
    }
    let mut quarter: usize = 1;
    while quarter <= 3
        invariant
            canvas.wf(),
            1 <= quarter <= 4,
            plot_y == 3,
            count == chart.tasks@.len(),
            0 < count <= MAX_GANTT_TASKS,
            opts.max_width >= MIN_GANTT_WIDTH,
            opts.max_height >= least_rows(count as int),
            plot_x + plot_width <= 120,
            plot_width >= MIN_PLOT_WIDTH,
            plot_height == count + 2,
            count <= MAX_GANTT_TASKS,
        decreases 4 - quarter,
    {
        let x = plot_x + quarter * (plot_width - 1) / 4;
        match draw_vertical_line(&mut canvas, x, plot_y, plot_y + plot_height - 1, opts.charset) {
            Ok(()) => {},
            Err(e) => return Err(e),
        }
        quarter = quarter + 1;
    }
    let mut sections: Vec<String> = Vec::new();
    let inner_width = plot_width - 2;
    let mut t: usize = 0;
    while t < count
        invariant
            canvas.wf(),
            count == tasks@.len(),
            count <= MAX_GANTT_TASKS,
            plot_y == 3,
            count == chart.tasks@.len(),
            0 < count <= MAX_GANTT_TASKS,
            opts.max_width >= MIN_GANTT_WIDTH,
            opts.max_height >= least_rows(count as int),
            order@.len() == count,
            captions@.len() == count,
            forall|j: int| 0 <= j < order@.len() ==> #[trigger] order@[j] < tasks@.len(),
            t <= count,
            plot_x + plot_width <= 120,
            plot_width >= MIN_PLOT_WIDTH,
            inner_width == plot_width - 2,
        decreases count - t,
    {
        let task = &tasks[order[t]];
        let row_y = plot_y + 1 + t;
        let visible = if str_display_width(captions[t].as_str()) <= label_width {
            captions[t].clone()
        } else {
            let mut short = String::from_str("[");
            short.append(decimal_text(t + 1).as_str());
            short.append("]");
            short
        };
        match canvas.set_text(0, row_y, visible.as_str()) {
            Ok(()) => {},
            Err(e) => return Err(e),
        }
        let section = section_index(&mut sections, task.section.as_str());
        let start = scale_time(task.start_ms, minimum_time, maximum_time, inner_width - 1);
        let finish = drawn_end(task);
        let end_time = if finish > task.start_ms { finish } else { task.start_ms };
        let scaled_end = scale_time(end_time, minimum_time, maximum_time, inner_width - 1);
        let end = if scaled_end > start { scaled_end } else { start };
        let x = plot_x + 1 + start;
        if task.milestone {
            let marker = match opts.charset {
                Charset::Unicode => '◆',
                Charset::Ascii => '*',
            };
            match canvas.set_char(x, row_y, marker) {
                Ok(()) => {},
                Err(e) => return Err(e),
            }
        } else {
            let fill = task_fill(task, section, opts.charset);
            let mut bar = String::new();
            let mut b: usize = 0;
            while b <= end - start
                invariant
                    start <= end,
                    b <= end - start + 1,
                    end - start < 1_000,
                decreases end - start + 1 - b,
            {
                bar.append(fill);
                b = b + 1;
            }
            match canvas.set_text(x, row_y, bar.as_str()) {
                Ok(()) => {},
                Err(e) => return Err(e),
            }
        }
        t = t + 1;
    }
    let mut d: usize = 0;
    while d < details.len()
        invariant
            canvas.wf(),
            d <= details@.len(),
            plot_y == 3,
            count == chart.tasks@.len(),
            0 < count <= MAX_GANTT_TASKS,
            opts.max_width >= MIN_GANTT_WIDTH,
            opts.max_height >= least_rows(count as int),
        decreases details@.len() - d,
    {
        match canvas.set_text(1, detail_y.saturating_add(d), details[d].as_str()) {
            Ok(()) => {},
            Err(e) => return Err(e),
        }
        d = d + 1;
    }
    Ok(render_cropped_canvas(&canvas))
}

} // verus!
