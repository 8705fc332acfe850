//! Timeline terminal geometry: sections, periods and events as a left-to-right chain of boxes.

use vstd::prelude::*;
use crate::adapters::box_geometry::{
    self, BoxDiagram, BoxDirection, BoxLayout, BoxNode, EdgeLegend, directed_chain_edges, str_eq,
};
use crate::adapters::json::{decimal_text, signed_decimal_text};
use crate::adapters::{nonempty_or, shown_title, starts_new_section_run};
use crate::error::{MermansiError, Result};
use crate::options::MermansiOptions;
use crate::text::{trim_text, trimmed};
use crate::canvas::all_white;

verus! {

#[verifier::external_type_specification]
#[verifier::external_body]
pub struct ExTimelineDiagramRenderModel(merman_core::diagrams::timeline::TimelineDiagramRenderModel);

#[verifier::external_type_specification]
#[verifier::external_body]
pub struct ExTimelineRenderTask(merman_core::diagrams::timeline::TimelineRenderTask);

/// Most boxes drawn.
pub const MAX_TIMELINE_NODES: usize = 4_096;

/// A period of the timeline, with its events.
pub struct TimelinePeriod {
    pub section: String,
    pub task_type: String,
    pub task: String,
    pub score: i64,
    pub events: Vec<String>,
}

/// A timeline: its title, sections in order, and periods.
pub struct Timeline {
    pub title: Option<String>,
    pub sections: Vec<String>,
    pub tasks: Vec<TimelinePeriod>,
}

/// The timeline model of a parsed diagram, if it is one.
#[verifier::external_body]
pub(crate) fn parsed_timeline(parsed: &merman_core::ParsedDiagramRender)
    -> (r: Option<&merman_core::diagrams::timeline::TimelineDiagramRenderModel>)
{
    match parsed.model() {
        merman_core::diagram::RenderSemanticModel::Timeline(model) => Some(model),
        _ => None,
    }
}

/// The title and sections of a timeline model.
#[verifier::external_body]
fn model_header(model: &merman_core::diagrams::timeline::TimelineDiagramRenderModel) -> (r: (Option<String>, Vec<String>))
{
    (model.title.clone(), model.sections.clone())
}

/// The `tasks` field of a timeline model.
#[verifier::external_body]
fn model_tasks(model: &merman_core::diagrams::timeline::TimelineDiagramRenderModel)
    -> (r: &Vec<merman_core::diagrams::timeline::TimelineRenderTask>)
{
    &model.tasks
}

/// The section, type, name, score and events of a parsed period.
#[verifier::external_body]
fn task_of(task: &merman_core::diagrams::timeline::TimelineRenderTask) -> (r: TimelinePeriod)
{
    TimelinePeriod {
        section: task.section.clone(),
        task_type: task.task_type.clone(),
        task: task.task.clone(),
        score: task.score,
        events: task.events.clone(),
    }
}

/// The library's copy of a parsed timeline.
pub(crate) fn diagram_of(model: &merman_core::diagrams::timeline::TimelineDiagramRenderModel) -> (r: Timeline)
{
    let (title, sections) = model_header(model);
    let parsed = model_tasks(model);
    let mut tasks: Vec<TimelinePeriod> = Vec::new();
    let mut i: usize = 0;
    while i < parsed.len()
        invariant
            i <= parsed@.len(),
        decreases parsed@.len() - i,
    {
        tasks.push(task_of(&parsed[i]));
        i = i + 1;
    }
    Timeline { title, sections, tasks }
}

fn ensure_node_limit(requested: usize) -> (r: Result<()>)
    ensures
        requested > MAX_TIMELINE_NODES ==> r == Err::<(), MermansiError>(MermansiError::RenderLimit {
            context: "timeline nodes", requested, limit: MAX_TIMELINE_NODES }),
        requested <= MAX_TIMELINE_NODES ==> r is Ok,
{
    if requested > MAX_TIMELINE_NODES {
        return Err(MermansiError::RenderLimit { context: "timeline nodes", requested, limit: MAX_TIMELINE_NODES });
    }
    Ok(())
}

/// `kind` followed by a space and the trimmed text (`(unnamed)` where it is blank).
pub fn tagged(kind: &str, text: &str) -> (r: String)
    ensures
        r@ == kind@ + " "@ + if all_white(trimmed(text@)) { "(unnamed)"@ } else { trimmed(text@) },
{
    let mut line = String::from_str(kind);
    line.append(" ");
    let trimmed = trim_text(text);
    let shown = nonempty_or(trimmed.as_str(), "(unnamed)");
    line.append(shown.as_str());
    line
}

/// Whether `section` is one of `sections`.
pub fn is_known(sections: &Vec<String>, section: &str) -> (r: bool)
    ensures
        r == exists|k: int| 0 <= k < sections@.len() && (#[trigger] sections@[k])@ == section@,
{
    let mut i: usize = 0;
    while i < sections.len()
        invariant
            i <= sections@.len(),
            forall|k: int| 0 <= k < i ==> (#[trigger] sections@[k])@ != section@,
        decreases sections@.len() - i,
    {
        if str_eq(sections[i].as_str(), section) {
            return true;
        }
        i = i + 1;
    }
    false
}

fn push_section(items: &mut Vec<Vec<String>>, section: &str)
    ensures
        final(items)@.len() == old(items)@.len() + 1,
{
    let mut lines: Vec<String> = Vec::new();
    lines.push(tagged("[Section]", section));
    items.push(lines);
}

fn push_period(items: &mut Vec<Vec<String>>, task: &TimelinePeriod)
    ensures
        final(items)@.len() == old(items)@.len() + 1 + task.events@.len(),
{
    let mut lines: Vec<String> = Vec::new();
    lines.push(tagged("[Period]", task.task.as_str()));
    let kind = trim_text(task.task_type.as_str());
    if kind.as_str().len() > 0 && !str_eq(task.task_type.as_str(), task.section.as_str()) {
        let mut line = String::from_str("type: ");
        line.append(kind.as_str());
        lines.push(line);
    }
    if task.score != 0 {
        let mut line = String::from_str("score: ");
        let digits = signed_decimal_text(task.score);
        line.append(digits.as_str());
        lines.push(line);
    }
    items.push(lines);
    let mut e: usize = 0;
    while e < task.events.len()
        invariant
            e <= task.events@.len(),
            items@.len() == old(items)@.len() + 1 + e,
        decreases task.events@.len() - e,
    {
        let mut event: Vec<String> = Vec::new();
        event.push(tagged("[Event]", task.events[e].as_str()));
        items.push(event);
        e = e + 1;
    }
}

/// The boxes of an ordered chart, `prefix-0`, `prefix-1`, ..., one per item in order.
pub fn chain_nodes(prefix: &str, items: Vec<Vec<String>>) -> (r: Vec<BoxNode>)
    ensures
        r@.len() == items@.len(),
{
    let mut nodes: Vec<BoxNode> = Vec::new();
    let mut items = items;
    let total = items.len();
    let mut order: usize = 0;
    while order < total
        invariant
            order <= total,
            order + items@.len() == total,
            nodes@.len() == order,
        decreases total - order,
    {
        let lines = items.remove(0);
        let mut id = String::from_str(prefix);
        id.append("-");
        let digits = decimal_text(order);
        id.append(digits.as_str());
        nodes.push(BoxNode { id, lines, dividers: Vec::new(), parent: None, span: 1, order });
        order = order + 1;
    }
    nodes
}

/// Draws a timeline: each section followed by its periods, each period followed by its
/// events, as a left-to-right chain; periods whose section is not listed follow, grouped in
/// runs under their section. More than [`MAX_TIMELINE_NODES`] boxes are refused.
pub fn render_timeline(model: &Timeline, opts: &MermansiOptions) -> (r: Result<String>)
    ensures
        ({
            let base = model.sections@.len() + model.tasks@.len();
            base > MAX_TIMELINE_NODES ==> r == Err::<String, MermansiError>(MermansiError::RenderLimit {
                context: "timeline nodes", requested: if base > usize::MAX { usize::MAX } else { base as usize },
                limit: MAX_TIMELINE_NODES })
        }),
        model.sections@.len() == 0 && model.tasks@.len() == 0
            ==> (r matches Ok(s) && s@ == shown_title(model.title, "Timeline"@) + "\n\n(empty timeline)\n"@),
{
    let base_requested = model.sections.len().saturating_add(model.tasks.len());
    match ensure_node_limit(base_requested) {
        Ok(()) => {},
        Err(e) => return Err(e),
    }
    let mut with_events = base_requested;
    let mut t: usize = 0;
    while t < model.tasks.len()
        invariant
            t <= model.tasks@.len(),
            model.tasks@.len() == 0 ==> with_events == base_requested,
        decreases model.tasks@.len() - t,
    {
        with_events = with_events.saturating_add(model.tasks[t].events.len());
        t = t + 1;
    }
    match ensure_node_limit(with_events) {
        Ok(()) => {},
        Err(e) => return Err(e),
    }
    let mut previous: Option<String> = None;
    let mut orphan_sections: usize = 0;
    let mut o: usize = 0;
    while o < model.tasks.len()
        invariant
            o <= model.tasks@.len(),
            model.tasks@.len() == 0 ==> orphan_sections == 0,
        decreases model.tasks@.len() - o,
    {
        let section = model.tasks[o].section.as_str();
        if !is_known(&model.sections, section) {
            if starts_new_section_run(&mut previous, section) {
                orphan_sections = orphan_sections.saturating_add(1);
            }
        }
        o = o + 1;
    }
    let requested = with_events.saturating_add(orphan_sections);
    match ensure_node_limit(requested) {
        Ok(()) => {},
        Err(e) => return Err(e),
    }
    let mut items: Vec<Vec<String>> = Vec::new();
    let ghost nothing = model.sections@.len() == 0 && model.tasks@.len() == 0;
    let mut emitted: Vec<String> = Vec::new();
    let mut s: usize = 0;
    while s < model.sections.len()
        invariant
            s <= model.sections@.len(),
            nothing ==> items@.len() == 0,
            nothing == (model.sections@.len() == 0 && model.tasks@.len() == 0),
        decreases model.sections@.len() - s,
    {
        let section = model.sections[s].as_str();
        push_section(&mut items, section);
        if !is_known(&emitted, section) {
            emitted.push(String::from_str(section));
            let mut k: usize = 0;
            while k < model.tasks.len()
                invariant
                    k <= model.tasks@.len(),
                decreases model.tasks@.len() - k,
            {
                if str_eq(model.tasks[k].section.as_str(), section) {
                    push_period(&mut items, &model.tasks[k]);
                }
                k = k + 1;
            }
        }
        s = s + 1;
    }
    let mut previous: Option<String> = None;
    let mut p: usize = 0;
    while p < model.tasks.len()
        invariant
            p <= model.tasks@.len(),
            nothing ==> items@.len() == 0,
            nothing == (model.sections@.len() == 0 && model.tasks@.len() == 0),
        decreases model.tasks@.len() - p,
    {
        let task = &model.tasks[p];
        let section = task.section.as_str();
        if !is_known(&model.sections, section) {
            if starts_new_section_run(&mut previous, section) {
                push_section(&mut items, section);
            }
            push_period(&mut items, task);
        }
        p = p + 1;
    }
    let title = match &model.title {
        Some(t) => {
            let trimmed = trim_text(t.as_str());
            nonempty_or(trimmed.as_str(), "Timeline")
        },
        None => String::from_str("Timeline"),
    };
    if items.len() == 0 {
        let mut out = title;
        out.append("\n\n(empty timeline)\n");
        return Ok(out);
    }
    let direction = BoxDirection::Lr;
    let nodes = chain_nodes("timeline", items);
    let edges = directed_chain_edges("timeline", nodes.len(), direction);
    let diagram = BoxDiagram {
        family: "timeline",
        title: Some(title),
        nodes,
        groups: Vec::new(),
        spacers: Vec::new(),
        edges,
        columns: None,
        layout: BoxLayout::Packed,
        edge_legend: EdgeLegend::Hidden,
    };
    box_geometry::render(&diagram, opts)
}

} // verus!
