//! User journey terminal geometry: actors, sections and tasks with their scores as a top-down
//! chain of boxes.

use vstd::prelude::*;
use crate::adapters::box_geometry::{
    self, BoxDiagram, BoxDirection, BoxLayout, EdgeLegend, directed_chain_edges, directed_ranks, str_eq,
};
use crate::adapters::json::{decimal, signed_decimal_text};
use crate::adapters::kanban::texts;
use crate::canvas::all_white;
use crate::text::trimmed;
use crate::adapters::timeline::{chain_nodes, is_known, tagged};
use crate::adapters::{nonempty_or, shown_title, starts_new_section_run};
use crate::error::{MermansiError, Result};
use crate::options::{Charset, MermansiOptions};
use crate::text::{push_char, trim_text};

verus! {

#[verifier::external_type_specification]
#[verifier::external_body]
pub struct ExJourneyDiagramRenderModel(merman_core::diagrams::journey::JourneyDiagramRenderModel);

#[verifier::external_type_specification]
#[verifier::external_body]
pub struct ExJourneyRenderTask(merman_core::diagrams::journey::JourneyRenderTask);

/// Most boxes drawn.
pub const MAX_JOURNEY_NODES: usize = 4_096;

/// A task of the journey: its score (`score_is_nan` where it is not a number), the people
/// taking part, and its section.
pub struct JourneyTask {
    pub score: i64,
    pub score_is_nan: bool,
    pub people: Vec<String>,
    pub section: String,
    pub task_type: String,
    pub task: String,
}

/// A user journey.
pub struct Journey {
    pub title: Option<String>,
    pub sections: Vec<String>,
    pub tasks: Vec<JourneyTask>,
    pub actors: Vec<String>,
}

/// The journey model of a parsed diagram, if it is one.
#[verifier::external_body]
pub(crate) fn parsed_journey(parsed: &merman_core::ParsedDiagramRender)
    -> (r: Option<&merman_core::diagrams::journey::JourneyDiagramRenderModel>)
{
    match parsed.model() {
        merman_core::diagram::RenderSemanticModel::Journey(model) => Some(model),
        _ => None,
    }
}

/// The title, sections and actors of a journey model.
#[verifier::external_body]
fn model_header(model: &merman_core::diagrams::journey::JourneyDiagramRenderModel) -> (r: (Option<String>, Vec<String>, Vec<String>))
{
    (model.title.clone(), model.sections.clone(), model.actors.clone())
}

/// The `tasks` field of a journey model.
#[verifier::external_body]
fn model_tasks(model: &merman_core::diagrams::journey::JourneyDiagramRenderModel)
    -> (r: &Vec<merman_core::diagrams::journey::JourneyRenderTask>)
{
    &model.tasks
}

/// A parsed task, field for field.
#[verifier::external_body]
fn task_of(task: &merman_core::diagrams::journey::JourneyRenderTask) -> (r: JourneyTask)
{
    JourneyTask {
        score: task.score,
        score_is_nan: task.score_is_nan,
        people: task.people.clone(),
        section: task.section.clone(),
        task_type: task.task_type.clone(),
        task: task.task.clone(),
    }
}

/// The library's copy of a parsed journey.
pub(crate) fn diagram_of(model: &merman_core::diagrams::journey::JourneyDiagramRenderModel) -> (r: Journey)
{
    let (title, sections, actors) = model_header(model);
    let parsed = model_tasks(model);
    let mut tasks: Vec<JourneyTask> = Vec::new();
    let mut i: usize = 0;
    while i < parsed.len()
        invariant
            i <= parsed@.len(),
        decreases parsed@.len() - i,
    {
        tasks.push(task_of(&parsed[i]));
        i = i + 1;
    }
    Journey { title, sections, tasks, actors }
}

fn ensure_node_limit(requested: usize) -> (r: Result<()>)
    ensures
        requested > MAX_JOURNEY_NODES ==> r == Err::<(), MermansiError>(MermansiError::RenderLimit {
            context: "journey nodes", requested, limit: MAX_JOURNEY_NODES }),
        requested <= MAX_JOURNEY_NODES ==> r is Ok,
{
    if requested > MAX_JOURNEY_NODES {
        return Err(MermansiError::RenderLimit { context: "journey nodes", requested, limit: MAX_JOURNEY_NODES });
    }
    Ok(())
}

/// The number of filled cells of a score bar: the score clamped to `0..=5`.
pub open spec fn filled_cells(score: i64) -> int {
    if score < 0 { 0 } else if score > 5 { 5 } else { score as int }
}

/// The score bar: five cells, as many filled as the score (clamped to `0..=5`); `?????` for a
/// score that is not a number.
pub open spec fn bar_text(score: i64, score_is_nan: bool, charset: Charset) -> Seq<char> {
    if score_is_nan {
        "?????"@
    } else {
        Seq::new(5, |i: int| if i < filled_cells(score) {
            if charset == Charset::Unicode { '█' } else { '#' }
        } else {
            if charset == Charset::Unicode { '░' } else { '-' }
        })
    }
}

/// A five-cell bar with as many filled cells as the score (clamped to `0..=5`); `?????` for a
/// score that is not a number.
pub fn score_bar(score: i64, score_is_nan: bool, charset: Charset) -> (r: String)
    ensures
        r@ == bar_text(score, score_is_nan, charset),
        !score_is_nan ==> r@.len() == 5,
        !score_is_nan ==> forall|i: int| 0 <= i < 5 ==> r@[i] == (if i < filled_cells(score) {
            if charset == Charset::Unicode { '█' } else { '#' }
        } else {
            if charset == Charset::Unicode { '░' } else { '-' }
        }),
{
    if score_is_nan {
        return String::from_str("?????");
    }
    let filled: usize = if score < 0 { 0 } else if score > 5 { 5 } else { score as usize };
    let (fill, empty) = match charset {
        Charset::Unicode => ('█', '░'),
        Charset::Ascii => ('#', '-'),
    };
    let mut bar = String::new();
    let mut i: usize = 0;
    while i < 5
        invariant
            i <= 5,
            filled as int == filled_cells(score),
            bar@.len() == i,
            forall|k: int| 0 <= k < i ==> bar@[k] == (if k < filled { fill } else { empty }),
        decreases 5 - i,
    {
        if i < filled {
            push_char(&mut bar, fill);
        } else {
            push_char(&mut bar, empty);
        }
        i = i + 1;
    }
    assert(bar@ =~= bar_text(score, score_is_nan, charset));
    bar
}

/// The non-blank trimmed names among the first `n` people.
pub open spec fn kept_people(people: Seq<String>, n: int) -> Seq<Seq<char>>
    decreases n,
{
    if n <= 0 { seq![] } else {
        kept_people(people, n - 1) + (if trimmed(people[n - 1]@).len() > 0 { seq![trimmed(people[n - 1]@)] } else { seq![] })
    }
}

/// The first `n` of `items` joined by `, `.
pub open spec fn comma_joined(items: Seq<Seq<char>>, n: int) -> Seq<char>
    decreases n,
{
    if n <= 0 { seq![] } else { comma_joined(items, n - 1) + (if n > 1 { ", "@ } else { seq![] }) + items[n - 1] }
}

/// The lines of a task's box.
pub open spec fn task_texts(task: JourneyTask, charset: Charset) -> Seq<Seq<char>> {
    let name = trimmed(task.task@);
    let people = kept_people(task.people@, task.people@.len() as int);
    let kind = trimmed(task.task_type@);
    seq![
        "[Task]"@ + " "@ + (if all_white(name) { "(unnamed)"@ } else { name }),
        "score: "@ + (if task.score_is_nan { "NaN"@ } else if task.score >= 0 { decimal(task.score as nat) }
            else { seq!['-'] + decimal((-task.score) as nat) }) + "/5 "@ + bar_text(task.score, task.score_is_nan, charset)]
        + (if people.len() > 0 { seq!["actors: "@ + comma_joined(people, people.len() as int)] } else { seq![] })
        + (if kind.len() > 0 && task.task_type@ != task.section@ { seq!["type: "@ + kind] } else { seq![] })
}

fn task_lines(task: &JourneyTask, charset: Charset) -> (r: Vec<String>)
    ensures
        texts(r@) == task_texts(*task, charset),
{
    let mut lines: Vec<String> = Vec::new();
    lines.push(tagged("[Task]", task.task.as_str()));
    let ghost line0 = "[Task]"@ + " "@ + (if all_white(trimmed(task.task@)) { "(unnamed)"@ } else { trimmed(task.task@) });
    let mut score_line = String::from_str("score: ");
    if task.score_is_nan {
        score_line.append("NaN");
    } else {
        let digits = signed_decimal_text(task.score);
        score_line.append(digits.as_str());
    }
    score_line.append("/5 ");
    let bar = score_bar(task.score, task.score_is_nan, charset);
    score_line.append(bar.as_str());
    lines.push(score_line);
    assert(texts(lines@) =~= seq![line0, "score: "@ + (if task.score_is_nan { "NaN"@ } else if task.score >= 0 {
        decimal(task.score as nat) } else { seq!['-'] + decimal((-task.score) as nat) }) + "/5 "@
        + bar_text(task.score, task.score_is_nan, charset)]);
    let ghost two = texts(lines@);
    let mut actors = String::new();
    let mut count: usize = 0;
    let mut p: usize = 0;
    while p < task.people.len()
        invariant
            p <= task.people@.len(),
            count as int == kept_people(task.people@, p as int).len(),
            count <= p,
            actors@ == comma_joined(kept_people(task.people@, p as int), count as int),
        decreases task.people@.len() - p,
    {
        let person = trim_text(task.people[p].as_str());
        let ghost before = kept_people(task.people@, p as int);
        if !person.as_str().is_empty() {
            if count > 0 {
                actors.append(", ");
            }
            actors.append(person.as_str());
            count = count.saturating_add(1);
            assert(kept_people(task.people@, p + 1) == before.push(person@));
            assert(comma_joined(before.push(person@), count - 1) =~= comma_joined(before, count - 1)) by {
                lemma_comma_joined_prefix(before, person@, count - 1);
            }
        } else {
            assert(kept_people(task.people@, p + 1) == before);
        }
        p = p + 1;
        assert(actors@ =~= comma_joined(kept_people(task.people@, p as int), count as int));
    }
    if count > 0 {
        let mut line = String::from_str("actors: ");
        line.append(actors.as_str());
        lines.push(line);
    }
    let ghost three = texts(lines@);
    let kind = trim_text(task.task_type.as_str());
    if !kind.as_str().is_empty() && !str_eq(task.task_type.as_str(), task.section.as_str()) {
        let mut line = String::from_str("type: ");
        line.append(kind.as_str());
        lines.push(line);
    }
    assert(texts(lines@) =~= task_texts(*task, charset));
    lines
}

proof fn lemma_comma_joined_prefix(items: Seq<Seq<char>>, extra: Seq<char>, n: int)
    requires
        0 <= n <= items.len(),
    ensures
        comma_joined(items.push(extra), n) == comma_joined(items, n),
    decreases n,
{
    if n > 0 {
        lemma_comma_joined_prefix(items, extra, n - 1);
        assert(items.push(extra)[n - 1] == items[n - 1]);
    }
}

fn push_section(items: &mut Vec<Vec<String>>, section: &str)
    ensures
        final(items)@.len() == old(items)@.len() + 1,
        final(items)@.subrange(0, old(items)@.len() as int) == old(items)@,
        texts(final(items)@.last()@) == seq!["[Section]"@ + " "@
            + (if all_white(trimmed(section@)) { "(unnamed)"@ } else { trimmed(section@) })],
{
    let mut lines: Vec<String> = Vec::new();
    lines.push(tagged("[Section]", section));
    assert(texts(lines@) =~= seq!["[Section]"@ + " "@
        + (if all_white(trimmed(section@)) { "(unnamed)"@ } else { trimmed(section@) })]);
    items.push(lines);
    assert(items@.subrange(0, old(items)@.len() as int) =~= old(items)@);
}

/// Draws a user journey top-down: the actors, then each section followed by its tasks (with
/// score bar, actors and type), then tasks whose section is not listed, grouped in runs under
/// their section. More than [`MAX_JOURNEY_NODES`] boxes are refused.
pub fn render_journey(model: &Journey, opts: &MermansiOptions) -> (r: Result<String>)
    ensures
        ({
            let base = model.sections@.len() + model.tasks@.len() + if model.actors@.len() > 0 { 1int } else { 0int };
            base > MAX_JOURNEY_NODES ==> r == Err::<String, MermansiError>(MermansiError::RenderLimit {
                context: "journey nodes", requested: if base > usize::MAX { usize::MAX } else { base as usize },
                limit: MAX_JOURNEY_NODES })
        }),
        model.sections@.len() == 0 && model.tasks@.len() == 0 && model.actors@.len() == 0
            ==> (r matches Ok(s) && s@ == shown_title(model.title, "Journey"@) + "\n\n(empty journey)\n"@),
{
    let has_actors: usize = if model.actors.len() > 0 { 1 } else { 0 };
    let base_requested = model.sections.len().saturating_add(model.tasks.len()).saturating_add(has_actors);
    match ensure_node_limit(base_requested) {
        Ok(()) => {},
        Err(e) => return Err(e),
    }
    let mut previous: Option<String> = None;
    let mut orphan_sections: usize = 0;
    let mut o: usize = 0;
    while o < model.tasks.len()
        invariant
            o <= model.tasks@.len(),
            model.tasks@.len() == 0 ==> orphan_sections == 0,
        decreases model.tasks@.len() - o,
    {
        let section = model.tasks[o].section.as_str();
        if !is_known(&model.sections, section) {
            if starts_new_section_run(&mut previous, section) {
                orphan_sections = orphan_sections.saturating_add(1);
            }
        }
        o = o + 1;
    }
    match ensure_node_limit(base_requested.saturating_add(orphan_sections)) {
        Ok(()) => {},
        Err(e) => return Err(e),
    }
    let mut items: Vec<Vec<String>> = Vec::new();
    let ghost nothing = model.sections@.len() == 0 && model.tasks@.len() == 0 && model.actors@.len() == 0;
    if model.actors.len() > 0 {
        let mut actors = String::new();
        let mut a: usize = 0;
        while a < model.actors.len()
            invariant
                a <= model.actors@.len(),
            decreases model.actors@.len() - a,
        {
            if a > 0 {
                actors.append(", ");
            }
            let trimmed = trim_text(model.actors[a].as_str());
            let shown = nonempty_or(trimmed.as_str(), "(unnamed)");
            actors.append(shown.as_str());
            a = a + 1;
        }
        let mut lines: Vec<String> = Vec::new();
        lines.push(String::from_str("[Actors]"));
        lines.push(actors);
        items.push(lines);
    }
    let mut emitted: Vec<String> = Vec::new();
    let mut s: usize = 0;
    while s < model.sections.len()
        invariant
            s <= model.sections@.len(),
            nothing ==> items@.len() == 0,
            nothing == (model.sections@.len() == 0 && model.tasks@.len() == 0 && model.actors@.len() == 0),
        decreases model.sections@.len() - s,
    {
        let section = model.sections[s].as_str();
        push_section(&mut items, section);
        if !is_known(&emitted, section) {
            emitted.push(String::from_str(section));
            let mut k: usize = 0;
            while k < model.tasks.len()
                invariant
                    k <= model.tasks@.len(),
                    nothing == (model.sections@.len() == 0 && model.tasks@.len() == 0 && model.actors@.len() == 0),
                    s < model.sections@.len(),
                decreases model.tasks@.len() - k,
            {
                if str_eq(model.tasks[k].section.as_str(), section) {
                    items.push(task_lines(&model.tasks[k], opts.charset));
                }
                k = k + 1;
            }
        }
        s = s + 1;
    }
    let mut previous: Option<String> = None;
    let mut p: usize = 0;
    while p < model.tasks.len()
        invariant
            p <= model.tasks@.len(),
            nothing ==> items@.len() == 0,
            nothing == (model.sections@.len() == 0 && model.tasks@.len() == 0 && model.actors@.len() == 0),
        decreases model.tasks@.len() - p,
    {
        let task = &model.tasks[p];
        let section = task.section.as_str();
        if !is_known(&model.sections, section) {
            if starts_new_section_run(&mut previous, section) {
                push_section(&mut items, section);
            }
            items.push(task_lines(task, opts.charset));
        }
        p = p + 1;
    }
    let title = match &model.title {
        Some(t) => {
            let trimmed = trim_text(t.as_str());
            nonempty_or(trimmed.as_str(), "Journey")
        },
        None => String::from_str("Journey"),
    };
    if items.len() == 0 {
        let mut out = title;
        out.append("\n\n(empty journey)\n");
        return Ok(out);
    }
    let direction = BoxDirection::Tb;
    let nodes = chain_nodes("journey", items);
    let edges = directed_chain_edges("journey", nodes.len(), direction);
    let ranks = directed_ranks(&nodes, &edges);
    let diagram = BoxDiagram {
        family: "journey",
        title: Some(title),
        nodes,
        groups: Vec::new(),
        spacers: Vec::new(),
        edges,
        columns: None,
        layout: BoxLayout::Layered { direction, ranks },
        edge_legend: EdgeLegend::Hidden,
    };
    box_geometry::render(&diagram, opts)
}

} // verus!
