//! GitGraph terminal geometry.
//!
//! Branches are stable lanes, commits are typed markers, and every parent relationship is
//! painted as a connected orthogonal route. Numbered details keep the metadata off the graph.

use vstd::prelude::*;
use crate::adapters::box_geometry::{str_eq, wrap_words};
use crate::adapters::chart_primitives::render_cropped_canvas;
use crate::adapters::json::{decimal_text, signed_decimal_text};
use crate::ansi::sanitize_label_text;
use crate::canvas::{draw_box, draw_horizontal_line, draw_vertical_line, str_display_width, Canvas};
use crate::error::{MermansiError, Result};
use crate::options::{Charset, MermansiOptions};
use crate::text::{chars_of, trim_text};

verus! {

#[verifier::external_type_specification]
#[verifier::external_body]
pub struct ExGitGraphRenderModel(merman_core::diagrams::git_graph::GitGraphRenderModel);

/// Most commits drawn.
pub const MAX_GIT_COMMITS: usize = 4_096;

/// Most branches drawn.
pub const MAX_GIT_BRANCHES: usize = 4_096;

/// Columns between commits on a lane, and rows between lanes.
pub const COMMIT_GAP: usize = 6;
pub const LANE_GAP: usize = 3;

/// A commit: its id, message, sequence number, kind, tags, parents, branch and custom fields.
pub struct GitCommit {
    pub id: String,
    pub message: String,
    pub seq: i64,
    pub commit_type: i64,
    pub tags: Vec<String>,
    pub parents: Vec<String>,
    pub branch: String,
    pub custom_type: Option<i64>,
    pub custom_id: Option<bool>,
}

/// A git graph: its commits, declared branches, current branch, direction and title.
pub struct GitGraph {
    pub commits: Vec<GitCommit>,
    pub branches: Vec<String>,
    pub current_branch: String,
    pub direction: String,
    pub acc_title: Option<String>,
}

#[derive(Clone, Copy)]
struct Position {
    x: usize,
    y: usize,
}

/// The git graph model of a parsed diagram, if it is one.
#[verifier::external_body]
pub(crate) fn parsed_git_graph(parsed: &merman_core::ParsedDiagramRender)
    -> (r: Option<&merman_core::diagrams::git_graph::GitGraphRenderModel>)
{
    match parsed.model() {
        merman_core::diagram::RenderSemanticModel::GitGraph(model) => Some(model),
        _ => None,
    }
}

/// The commits, branch names, current branch, direction and title of a git graph model,
/// field for field.
#[verifier::external_body]
fn model_parts(model: &merman_core::diagrams::git_graph::GitGraphRenderModel) -> (r: GitGraph)
{
    GitGraph {
        commits: model.commits.iter().map(|c| GitCommit {
            id: c.id.clone(), message: c.message.clone(), seq: c.seq, commit_type: c.commit_type,
            tags: c.tags.clone(), parents: c.parents.clone(), branch: c.branch.clone(),
            custom_type: c.custom_type, custom_id: c.custom_id,
        }).collect(),
        branches: model.branches.iter().map(|b| b.name.clone()).collect(),
        current_branch: model.current_branch.clone(),
        direction: model.direction.clone(),
        acc_title: model.acc_title.clone(),
    }
}

/// The library's git graph of a parsed git graph model.
pub(crate) fn diagram_of(model: &merman_core::diagrams::git_graph::GitGraphRenderModel) -> (r: GitGraph)
{
    model_parts(model)
}

fn ensure_limit(context: &'static str, requested: usize, limit: usize) -> (r: Result<()>)
    ensures
        requested > limit ==> r == Err::<(), MermansiError>(MermansiError::RenderLimit { context, requested, limit }),
        requested <= limit ==> r is Ok,
{
    if requested > limit {
        return Err(MermansiError::RenderLimit { context, requested, limit });
    }
    Ok(())
}

/// The sanitized, trimmed value, or `(unnamed)` where that is empty.
fn nonempty(value: &str) -> (r: String)
{
    let clean = trim_text(sanitize_label_text(value).as_str());
    if clean.as_str().is_empty() {
        String::from_str("(unnamed)")
    } else {
        clean
    }
}

/// The position of `name` in `names`, if it is there.
fn find_name(names: &Vec<String>, name: &str) -> (r: Option<usize>)
    ensures
        r matches Some(k) ==> k < names@.len(),
{
    let mut k: usize = 0;
    while k < names.len()
        invariant
            k <= names@.len(),
        decreases names@.len() - k,
    {
        if str_eq(names[k].as_str(), name) {
            return Some(k);
        }
        k = k + 1;
    }
    None
}

/// The lanes: the sanitized declared branches, then those only commits name, each once in
/// first-seen order; `main` where there are none.
fn branch_inventory(graph: &GitGraph) -> (r: Vec<String>)
    ensures
        r@.len() >= 1,
        r@.len() <= graph.branches@.len() + graph.commits@.len() || r@.len() == 1,
{
    let mut branches: Vec<String> = Vec::new();
    let mut b: usize = 0;
    while b < graph.branches.len()
        invariant
            b <= graph.branches@.len(),
            branches@.len() <= b,
        decreases graph.branches@.len() - b,
    {
        let name = sanitize_label_text(graph.branches[b].as_str());
        if find_name(&branches, name.as_str()).is_none() {
            branches.push(name);
        }
        b = b + 1;
    }
    let mut c: usize = 0;
    while c < graph.commits.len()
        invariant
            c <= graph.commits@.len(),
            branches@.len() <= graph.branches@.len() + c,
        decreases graph.commits@.len() - c,
    {
        let name = sanitize_label_text(graph.commits[c].branch.as_str());
        if find_name(&branches, name.as_str()).is_none() {
            branches.push(name);
        }
        c = c + 1;
    }
    if branches.len() == 0 {
        branches.push(String::from_str("main"));
    }
    branches
}

/// The lane of a commit's branch (the first lane where it is not one).
fn lane_of(branches: &Vec<String>, branch: &str) -> (r: usize)
    ensures
        branches@.len() > 0 ==> r < branches@.len(),
{
    match find_name(branches, sanitize_label_text(branch).as_str()) {
        Some(k) => k,
        None => 0,
    }
}

/// Whether `branch` is the sanitized current branch.
fn is_current_branch(branch: &str, current: &str) -> (r: bool)
{
    str_eq(branch, sanitize_label_text(current).as_str())
}

/// The positions of the commits, sorted by sequence number and then by position.
fn commit_order(commits: &Vec<GitCommit>) -> (r: Vec<usize>)
    ensures
        r@.len() == commits@.len(),
        forall|k: int| 0 <= k < r@.len() ==> #[trigger] r@[k] < commits@.len(),
{
    let mut sorted: Vec<usize> = Vec::new();
    let mut i: usize = 0;
    while i < commits.len()
        invariant
            i <= commits@.len(),
            sorted@.len() == i,
            forall|k: int| 0 <= k < sorted@.len() ==> #[trigger] sorted@[k] < commits@.len(),
        decreases commits@.len() - i,
    {
        sorted.push(i);
        let mut j: usize = i;
        while j > 0 && (commits[sorted[j]].seq < commits[sorted[j - 1]].seq
            || (commits[sorted[j]].seq == commits[sorted[j - 1]].seq && sorted[j] < sorted[j - 1]))
            invariant
                j <= i,
                sorted@.len() == i + 1,
                forall|k: int| 0 <= k < sorted@.len() ==> #[trigger] sorted@[k] < commits@.len(),
            decreases j,
        {
            let earlier = sorted[j - 1];
            let later = sorted[j];
            sorted.set(j - 1, later);
            sorted.set(j, earlier);
            j = j - 1;
        }
        i = i + 1;
    }
    sorted
}

/// The drawn commit a parent id names: the last one with that id before the child, else the
/// first one with that id; a parent no commit has is refused.
fn resolve_parent(commits: &Vec<GitCommit>, order: &Vec<usize>, parent: &str, child: usize) -> (r: Result<usize>)
    requires
        order@.len() == commits@.len(),
        forall|k: int| 0 <= k < order@.len() ==> #[trigger] order@[k] < commits@.len(),
    ensures
        r matches Ok(k) ==> k < order@.len(),
{
    let mut first: Option<usize> = None;
    let mut best: Option<usize> = None;
    let mut k: usize = 0;
    while k < order.len()
        invariant
            k <= order@.len(),
            order@.len() == commits@.len(),
            forall|j: int| 0 <= j < order@.len() ==> #[trigger] order@[j] < commits@.len(),
            first matches Some(f) ==> f < order@.len(),
            best matches Some(b) ==> b < order@.len(),
        decreases order@.len() - k,
    {
        if str_eq(commits[order[k]].id.as_str(), parent) {
            if first.is_none() {
                first = Some(k);
            }
            if k < child {
                best = Some(k);
            }
        }
        k = k + 1;
    }
    match best {
        Some(b) => Ok(b),
        None => match first {
            Some(f) => Ok(f),
            None => {
                let mut message = String::from_str("parent commit is missing: ");
                message.append(sanitize_label_text(parent).as_str());
                Err(MermansiError::GeometryLayout { family: "gitGraph", message })
            },
        },
    }
}

/// The name of a Mermaid commit type: 1 reverse, 2 highlight, 3 merge, 4 cherry-pick, any
/// other normal.
pub open spec fn commit_kind_name(kind: i64) -> Seq<char> {
    if kind == 1 {
        "reverse"@
    } else if kind == 2 {
        "highlight"@
    } else if kind == 3 {
        "merge"@
    } else if kind == 4 {
        "cherry-pick"@
    } else {
        "normal"@
    }
}

/// Law: a commit's kind name says which Mermaid commit type it has: `merge` exactly for type 3,
/// `cherry-pick` exactly for type 4, `reverse` exactly for type 1, `highlight` exactly for
/// type 2, and `normal` exactly for every other type.
pub proof fn lemma_commit_kind_names(kind: i64)
    ensures
        (commit_kind_name(kind) == "merge"@) <==> kind == 3,
        (commit_kind_name(kind) == "cherry-pick"@) <==> kind == 4,
        (commit_kind_name(kind) == "reverse"@) <==> kind == 1,
        (commit_kind_name(kind) == "highlight"@) <==> kind == 2,
        (commit_kind_name(kind) == "normal"@) <==> !(1 <= kind <= 4),
{
    reveal_strlit("reverse");
    reveal_strlit("highlight");
    reveal_strlit("merge");
    reveal_strlit("cherry-pick");
    reveal_strlit("normal");
    assert("reverse"@.len() == 7 && "highlight"@.len() == 9 && "merge"@.len() == 5);
    assert("cherry-pick"@.len() == 11 && "normal"@.len() == 6);
}

/// The name of a commit kind.
fn commit_kind(kind: i64) -> (r: &'static str)
    ensures
        r@ == commit_kind_name(kind),
{
    if kind == 1 { "reverse" } else if kind == 2 { "highlight" } else if kind == 3 { "merge" }
    else if kind == 4 { "cherry-pick" } else { "normal" }
}

/// The marker of a commit kind.
fn commit_marker(kind: i64, charset: Charset) -> (r: char)
{
    match charset {
        Charset::Unicode => if kind == 1 { '○' } else if kind == 2 { '★' } else if kind == 3 { '◆' }
            else if kind == 4 { '◇' } else { '●' },
        Charset::Ascii => if kind == 1 { 'r' } else if kind == 2 { '*' } else if kind == 3 { 'M' }
            else if kind == 4 { 'C' } else { 'o' },
    }
}

/// `items` joined by commas.
fn joined(items: &Vec<String>) -> (r: String)
{
    let mut text = String::new();
    let mut k: usize = 0;
    while k < items.len()
        invariant
            k <= items@.len(),
        decreases items@.len() - k,
    {
        if k > 0 {
            text.append(",");
        }
        text.append(items[k].as_str());
        k = k + 1;
    }
    text
}

/// The detail lines of the commits in drawing order, each wrapped to `width`: number, id,
/// branch, kind, parents, message, tags and custom fields.
fn commit_details(commits: &Vec<GitCommit>, order: &Vec<usize>, width: usize) -> (r: Vec<String>)
    requires
        order@.len() == commits@.len(),
        commits@.len() <= MAX_GIT_COMMITS,
        forall|k: int| 0 <= k < order@.len() ==> #[trigger] order@[k] < commits@.len(),
    ensures
        r@.len() >= commits@.len(),
{
    let mut lines: Vec<String> = Vec::new();
    let mut k: usize = 0;
    while k < order.len()
        invariant
            k <= order@.len(),
            order@.len() == commits@.len(),
            commits@.len() <= MAX_GIT_COMMITS,
            forall|j: int| 0 <= j < order@.len() ==> #[trigger] order@[j] < commits@.len(),
            lines@.len() >= k,
        decreases order@.len() - k,
    {
        let commit = &commits[order[k]];
        let mut text = String::from_str("[");
        text.append(decimal_text(k + 1).as_str());
        text.append("] ");
        text.append(nonempty(commit.id.as_str()).as_str());
        text.append("  branch=");
        text.append(nonempty(commit.branch.as_str()).as_str());
        text.append("  type=");
        text.append(commit_kind(commit.commit_type));
        if commit.parents.len() > 0 {
            text.append("  parents=");
            text.append(joined(&commit.parents).as_str());
        }
        if !trim_text(commit.message.as_str()).as_str().is_empty() {
            text.append("  message=");
            text.append(sanitize_label_text(commit.message.as_str()).as_str());
        }
        if commit.tags.len() > 0 {
            text.append("  tags=");
            text.append(joined(&commit.tags).as_str());
        }
        match commit.custom_type {
            Some(t) => {
                text.append("  customType=");
                text.append(signed_decimal_text(t).as_str());
            },
            None => {},
        }
        match commit.custom_id {
            Some(b) => {
                text.append("  customId=");
                text.append(if b { "true" } else { "false" });
            },
            None => {},
        }
        let wrapped = wrap_words(text.as_str(), width);
        let mut w: usize = 0;
        while w < wrapped.len()
            invariant
                w <= wrapped@.len(),
                lines@.len() >= k + w,
            decreases wrapped@.len() - w,
        {
            lines.push(wrapped[w].clone());
            w = w + 1;
        }
        k = k + 1;
    }
    lines
}

/// Whether `value` is the two letters `upper` in any ASCII case.
fn is_direction(value: &str, upper: [char; 2], lower: [char; 2]) -> (r: bool)
{
    let chars = chars_of(value);
    chars.len() == 2 && (chars[0] == upper[0] || chars[0] == lower[0]) && (chars[1] == upper[1] || chars[1] == lower[1])
}

/// The flow of the graph: `TB`, `BT`, `RL`, or `LR` for anything else.
fn normalized_direction(direction: &str) -> (r: &'static str)
{
    if is_direction(direction, ['T', 'B'], ['t', 'b']) {
        "TB"
    } else if is_direction(direction, ['B', 'T'], ['b', 't']) {
        "BT"
    } else if is_direction(direction, ['R', 'L'], ['r', 'l']) {
        "RL"
    } else {
        "LR"
    }
}

/// The title (or `Git graph`) and the direction and current branch, centred on the first two
/// rows.
fn paint_header(canvas: &mut Canvas, graph: &GitGraph, width: usize) -> (r: Result<()>)
    requires
        old(canvas).wf(),
    ensures
        final(canvas).wf(),
{
    let title = match &graph.acc_title {
        Some(t) => {
            let clean = sanitize_label_text(t.as_str());
            if trim_text(clean.as_str()).as_str().is_empty() { String::from_str("Git graph") } else { clean }
        },
        None => String::from_str("Git graph"),
    };
    let x = width.saturating_sub(str_display_width(title.as_str())) / 2;
    match canvas.set_text(x, 0, title.as_str()) {
        Ok(()) => {},
        Err(e) => return Err(e),
    }
    let mut summary = String::from_str("direction=");
    summary.append(normalized_direction(graph.direction.as_str()));
    summary.append("  current=");
    summary.append(nonempty(graph.current_branch.as_str()).as_str());
    let x = width.saturating_sub(str_display_width(summary.as_str())) / 2;
    canvas.set_text(x, 1, summary.as_str())
}

/// Whether the card of a graph without commits does not fit: fewer than 16 columns (of at
/// most 30) or fewer than 3 rows.
pub open spec fn empty_card_refused(opts: MermansiOptions) -> bool {
    (if opts.max_width < 30 { opts.max_width } else { 30 }) < 16 || opts.max_height < 3
}

/// The limit reported for a card that does not fit.
pub open spec fn empty_card_limit(opts: MermansiOptions) -> usize {
    let width = if opts.max_width < 30 { opts.max_width } else { 30 };
    if width < opts.max_height { width } else { opts.max_height }
}

/// The card of a graph without commits: `Git graph:` and the current branch, in a box.
fn render_empty_graph(graph: &GitGraph, opts: &MermansiOptions) -> (r: Result<String>)
    ensures
        empty_card_refused(*opts) ==> r == Err::<String, MermansiError>(MermansiError::RenderLimit {
            context: "gitGraph empty card", requested: 16, limit: empty_card_limit(*opts) }),
{
    let width = if opts.max_width < 30 { opts.max_width } else { 30 };
    if width < 16 || opts.max_height < 3 {
        let limit = if width < opts.max_height { width } else { opts.max_height };
        return Err(MermansiError::RenderLimit { context: "gitGraph empty card", requested: 16, limit });
    }
    let mut canvas = match Canvas::new(width, 3) {
        Ok(c) => c,
        Err(e) => return Err(e),
    };
    match draw_box(&mut canvas, 0, 0, width, 3, opts.charset) {
        Ok(()) => {},
        Err(e) => return Err(e),
    }
    let mut label = String::from_str("Git graph: ");
    label.append(nonempty(graph.current_branch.as_str()).as_str());
    let x = width.saturating_sub(str_display_width(label.as_str())) / 2;
    match canvas.set_text(x, 1, label.as_str()) {
        Ok(()) => {},
        Err(e) => return Err(e),
    }
    Ok(render_cropped_canvas(&canvas))
}

fn ensure_height(opts: &MermansiOptions, requested: usize) -> (r: Result<()>)
    ensures
        requested > opts.max_height ==> r == Err::<(), MermansiError>(MermansiError::RenderLimit {
            context: "gitGraph rows", requested, limit: opts.max_height }),
        requested <= opts.max_height ==> r is Ok,
{
    if requested > opts.max_height {
        return Err(MermansiError::RenderLimit { context: "gitGraph rows", requested, limit: opts.max_height });
    }
    Ok(())
}

fn smaller(a: usize, b: usize) -> (r: usize)
    ensures
        r == if a < b { a } else { b },
{
    if a < b { a } else { b }
}

fn larger(a: usize, b: usize) -> (r: usize)
    ensures
        r == if a > b { a } else { b },
{
    if a > b { a } else { b }
}

/// The route from a parent to a child on a left-to-right graph: along the parent's lane to a
/// bend beside the child, across the lanes, into the child, with an arrow before it.
fn draw_horizontal_parent(canvas: &mut Canvas, parent: Position, child: Position, charset: Charset) -> (r: Result<()>)
    requires
        old(canvas).wf(),
    ensures
        final(canvas).wf(),
{
    if parent.y == child.y {
        match draw_horizontal_line(canvas, parent.y, smaller(parent.x, child.x), larger(parent.x, child.x), charset) {
            Ok(()) => {},
            Err(e) => return Err(e),
        }
    } else {
        let bend = if parent.x <= child.x {
            larger(child.x.saturating_sub(2), parent.x)
        } else {
            smaller(child.x.saturating_add(2), parent.x)
        };
        match draw_horizontal_line(canvas, parent.y, smaller(parent.x, bend), larger(parent.x, bend), charset) {
            Ok(()) => {},
            Err(e) => return Err(e),
        }
        match draw_vertical_line(canvas, bend, smaller(parent.y, child.y), larger(parent.y, child.y), charset) {
            Ok(()) => {},
            Err(e) => return Err(e),
        }
        match draw_horizontal_line(canvas, child.y, smaller(bend, child.x), larger(bend, child.x), charset) {
            Ok(()) => {},
            Err(e) => return Err(e),
        }
    }
    let forward = parent.x <= child.x;
    let marker_x = if forward { child.x.saturating_sub(1) } else { child.x.saturating_add(1) };
    let marker = match charset {
        Charset::Unicode => if forward { '▶' } else { '◀' },
        Charset::Ascii => if forward { '>' } else { '<' },
    };
    canvas.set_char(marker_x, child.y, marker)
}

/// The route from a parent to a child on a top-to-bottom graph: down the parent's lane to a
/// bend above the child, across the lanes, into the child, with an arrow before it.
fn draw_vertical_parent(canvas: &mut Canvas, parent: Position, child: Position, charset: Charset) -> (r: Result<()>)
    requires
        old(canvas).wf(),
    ensures
        final(canvas).wf(),
{
    if parent.x == child.x {
        match draw_vertical_line(canvas, parent.x, smaller(parent.y, child.y), larger(parent.y, child.y), charset) {
            Ok(()) => {},
            Err(e) => return Err(e),
        }
    } else {
        let bend = if parent.y <= child.y {
            larger(child.y.saturating_sub(1), parent.y)
        } else {
            smaller(child.y.saturating_add(1), parent.y)
        };
        match draw_vertical_line(canvas, parent.x, smaller(parent.y, bend), larger(parent.y, bend), charset) {
            Ok(()) => {},
            Err(e) => return Err(e),
        }
        match draw_horizontal_line(canvas, bend, smaller(parent.x, child.x), larger(parent.x, child.x), charset) {
            Ok(()) => {},
            Err(e) => return Err(e),
        }
        match draw_vertical_line(canvas, child.x, smaller(bend, child.y), larger(bend, child.y), charset) {
            Ok(()) => {},
            Err(e) => return Err(e),
        }
    }
    let forward = parent.y <= child.y;
    let marker_y = if forward { child.y.saturating_sub(1) } else { child.y.saturating_add(1) };
    let marker = match charset {
        Charset::Unicode => if forward { '▼' } else { '▲' },
        Charset::Ascii => if forward { 'v' } else { '^' },
    };
    canvas.set_char(child.x, marker_y, marker)
}

/// The commit markers, each numbered beside (vertical) or below (horizontal) it.
fn paint_commits(canvas: &mut Canvas, commits: &Vec<GitCommit>, order: &Vec<usize>, positions: &Vec<Position>,
    charset: Charset, vertical: bool) -> (r: Result<()>)
    requires
        old(canvas).wf(),
        order@.len() == commits@.len(),
        positions@.len() == commits@.len(),
        commits@.len() <= MAX_GIT_COMMITS,
        forall|k: int| 0 <= k < order@.len() ==> #[trigger] order@[k] < commits@.len(),
    ensures
        final(canvas).wf(),
{
    let mut k: usize = 0;
    while k < order.len()
        invariant
            canvas.wf(),
            k <= order@.len(),
            order@.len() == commits@.len(),
            positions@.len() == commits@.len(),
            commits@.len() <= MAX_GIT_COMMITS,
            forall|j: int| 0 <= j < order@.len() ==> #[trigger] order@[j] < commits@.len(),
        decreases order@.len() - k,
    {
        let position = positions[k];
        match canvas.set_char(position.x, position.y, commit_marker(commits[order[k]].commit_type, charset)) {
            Ok(()) => {},
            Err(e) => return Err(e),
        }
        let number = decimal_text(k + 1);
        if vertical {
            match canvas.set_text(position.x.saturating_add(1), position.y, number.as_str()) {
                Ok(()) => {},
                Err(e) => return Err(e),
            }
        } else {
            let x = position.x.saturating_sub(str_display_width(number.as_str()) / 2);
            match canvas.set_text(x, position.y.saturating_add(1), number.as_str()) {
                Ok(()) => {},
                Err(e) => return Err(e),
            }
        }
        k = k + 1;
    }
    Ok(())
}

/// The parent routes of every commit, in drawing order; a parent no commit has is refused.
fn paint_parents(canvas: &mut Canvas, commits: &Vec<GitCommit>, order: &Vec<usize>, positions: &Vec<Position>,
    charset: Charset, vertical: bool) -> (r: Result<()>)
    requires
        old(canvas).wf(),
        order@.len() == commits@.len(),
        positions@.len() == commits@.len(),
        forall|k: int| 0 <= k < order@.len() ==> #[trigger] order@[k] < commits@.len(),
    ensures
        final(canvas).wf(),
{
    let mut child: usize = 0;
    while child < order.len()
        invariant
            canvas.wf(),
            child <= order@.len(),
            order@.len() == commits@.len(),
            positions@.len() == commits@.len(),
            forall|j: int| 0 <= j < order@.len() ==> #[trigger] order@[j] < commits@.len(),
        decreases order@.len() - child,
    {
        let parents = &commits[order[child]].parents;
        let mut p: usize = 0;
        while p < parents.len()
            invariant
                canvas.wf(),
                p <= parents@.len(),
                child < order@.len(),
                order@.len() == commits@.len(),
                positions@.len() == commits@.len(),
                forall|j: int| 0 <= j < order@.len() ==> #[trigger] order@[j] < commits@.len(),
            decreases parents@.len() - p,
        {
            let parent = match resolve_parent(commits, order, parents[p].as_str(), child) {
                Ok(index) => index,
                Err(e) => return Err(e),
            };
            let drawn = if vertical {
                draw_vertical_parent(canvas, positions[parent], positions[child], charset)
            } else {
                draw_horizontal_parent(canvas, positions[parent], positions[child], charset)
            };
            match drawn {
                Ok(()) => {},
                Err(e) => return Err(e),
            }
            p = p + 1;
        }
        child = child + 1;
    }
    Ok(())
}

/// The widest branch name.
fn widest_branch(branches: &Vec<String>) -> (r: usize)
{
    let mut widest: usize = 0;
    let mut k: usize = 0;
    while k < branches.len()
        invariant
            k <= branches@.len(),
        decreases branches@.len() - k,
    {
        let w = str_display_width(branches[k].as_str());
        if w > widest {
            widest = w;
        }
        k = k + 1;
    }
    widest
}

/// The detail lines wrapped again to `width`.
fn rewrapped(lines: &Vec<String>, width: usize) -> (r: Vec<String>)
{
    let mut out: Vec<String> = Vec::new();
    let mut k: usize = 0;
    while k < lines.len()
        invariant
            k <= lines@.len(),
        decreases lines@.len() - k,
    {
        let wrapped = wrap_words(lines[k].as_str(), width);
        let mut w: usize = 0;
        while w < wrapped.len()
            invariant
                w <= wrapped@.len(),
            decreases wrapped@.len() - w,
        {
            out.push(wrapped[w].clone());
            w = w + 1;
        }
        k = k + 1;
    }
    out
}

/// Writes the detail lines from row `y`, one column in.
fn paint_details(canvas: &mut Canvas, lines: &Vec<String>, y: usize) -> (r: Result<()>)
    requires
        old(canvas).wf(),
    ensures
        final(canvas).wf(),
{
    let mut d: usize = 0;
    while d < lines.len()
        invariant
            canvas.wf(),
            d <= lines@.len(),
        decreases lines@.len() - d,
    {
        match canvas.set_text(1, y.saturating_add(d), lines[d].as_str()) {
            Ok(()) => {},
            Err(e) => return Err(e),
        }
        d = d + 1;
    }
    Ok(())
}

/// A left-to-right (or right-to-left) graph: a lane per branch, commits along it.
fn render_horizontal(graph: &GitGraph, opts: &MermansiOptions, branches: &Vec<String>, order: &Vec<usize>,
    details: &Vec<String>, reverse: bool) -> (r: Result<String>)
    requires
        0 < graph.commits@.len() <= MAX_GIT_COMMITS,
        0 < branches@.len() <= MAX_GIT_BRANCHES,
        order@.len() == graph.commits@.len(),
        forall|k: int| 0 <= k < order@.len() ==> #[trigger] order@[k] < graph.commits@.len(),
{
    let commits = &graph.commits;
    let count = commits.len();
    let widest = widest_branch(branches);
    let label_width = if widest > 22 { 24 } else { widest + 2 };
    let graph_width = (count - 1) * COMMIT_GAP + 3;
    let required = label_width + 1 + graph_width;
    if required > opts.max_width {
        return Err(MermansiError::RenderLimit { context: "gitGraph columns", requested: required, limit: opts.max_width });
    }
    let width = if required < 28 { 28 } else { required };
    if width > opts.max_width {
        return Err(MermansiError::RenderLimit { context: "gitGraph columns", requested: width, limit: opts.max_width });
    }
    let graph_x = label_width + 1;
    let lines = rewrapped(details, width - 2);
    let graph_y: usize = 4;
    let lane_height = (branches.len() - 1) * LANE_GAP + 2;
    let detail_y = graph_y + lane_height + 1;
    let needed = detail_y.saturating_add(lines.len());
    let height = if needed < 8 { 8 } else { needed };
    match ensure_height(opts, height) {
        Ok(()) => {},
        Err(e) => return Err(e),
    }
    let mut canvas = match Canvas::new(width, height) {
        Ok(c) => c,
        Err(e) => return Err(e),
    };
    match paint_header(&mut canvas, graph, width) {
        Ok(()) => {},
        Err(e) => return Err(e),
    }
    let mut positions: Vec<Position> = Vec::new();
    let mut k: usize = 0;
    while k < count
        invariant
            k <= count,
            count == commits@.len(),
            0 < count <= MAX_GIT_COMMITS,
            0 < branches@.len() <= MAX_GIT_BRANCHES,
            order@.len() == count,
            forall|j: int| 0 <= j < order@.len() ==> #[trigger] order@[j] < commits@.len(),
            positions@.len() == k,
            graph_x <= 25,
            graph_y == 4,
        decreases count - k,
    {
        let lane = lane_of(branches, commits[order[k]].branch.as_str());
        let axis = if reverse { count - 1 - k } else { k };
        positions.push(Position { x: graph_x + 1 + axis * COMMIT_GAP, y: graph_y + lane * LANE_GAP });
        k = k + 1;
    }
    let mut b: usize = 0;
    while b < branches.len()
        invariant
            canvas.wf(),
            b <= branches@.len(),
            0 < branches@.len() <= MAX_GIT_BRANCHES,
            positions@.len() == count,
            count == commits@.len(),
            0 < count <= MAX_GIT_COMMITS,
            order@.len() == count,
            forall|j: int| 0 <= j < order@.len() ==> #[trigger] order@[j] < commits@.len(),
            graph_x <= 25,
            graph_y == 4,
            graph_width == (count - 1) * COMMIT_GAP + 3,
            width >= 28,
        decreases branches@.len() - b,
    {
        let lane_y = graph_y + b * LANE_GAP;
        let name = &branches[b];
        let label = if str_display_width(name.as_str()) < graph_x.saturating_sub(2) {
            name.clone()
        } else {
            let mut short = String::from_str("[b");
            short.append(decimal_text(b + 1).as_str());
            short.append("]");
            short
        };
        let mut text = String::from_str(if is_current_branch(name.as_str(), graph.current_branch.as_str()) { "* " } else { "  " });
        text.append(label.as_str());
        match canvas.set_text(0, lane_y, text.as_str()) {
            Ok(()) => {},
            Err(e) => return Err(e),
        }
        let mut start: Option<usize> = None;
        let mut end: Option<usize> = None;
        let mut k: usize = 0;
        while k < count
            invariant
                k <= count,
                positions@.len() == count,
                count == commits@.len(),
                order@.len() == count,
                forall|j: int| 0 <= j < order@.len() ==> #[trigger] order@[j] < commits@.len(),
            decreases count - k,
        {
            if lane_of(branches, commits[order[k]].branch.as_str()) == b {
                let x = positions[k].x;
                start = match start { Some(s) => Some(smaller(s, x)), None => Some(x) };
                end = match end { Some(e) => Some(larger(e, x)), None => Some(x) };
            }
            k = k + 1;
        }
        let from = match start { Some(s) => s, None => graph_x + 1 };
        let to = match end { Some(e) => e, None => smaller(graph_x + graph_width - 2, width - 1) };
        match draw_horizontal_line(&mut canvas, lane_y, from, larger(to, from), opts.charset) {
            Ok(()) => {},
            Err(e) => return Err(e),
        }
        b = b + 1;
    }
    match paint_parents(&mut canvas, commits, order, &positions, opts.charset, false) {
        Ok(()) => {},
        Err(e) => return Err(e),
    }
    match paint_commits(&mut canvas, commits, order, &positions, opts.charset, false) {
        Ok(()) => {},
        Err(e) => return Err(e),
    }
    match paint_details(&mut canvas, &lines, detail_y) {
        Ok(()) => {},
        Err(e) => return Err(e),
    }
    Ok(render_cropped_canvas(&canvas))
}

/// A top-to-bottom (or bottom-to-top) graph: a column per branch, commits down it.
fn render_vertical(graph: &GitGraph, opts: &MermansiOptions, branches: &Vec<String>, order: &Vec<usize>,
    details: &Vec<String>, reverse: bool) -> (r: Result<String>)
    requires
        0 < graph.commits@.len() <= MAX_GIT_COMMITS,
        0 < branches@.len() <= MAX_GIT_BRANCHES,
        order@.len() == graph.commits@.len(),
        forall|k: int| 0 <= k < order@.len() ==> #[trigger] order@[k] < graph.commits@.len(),
{
    let commits = &graph.commits;
    let count = commits.len();
    let widest = widest_branch(branches);
    let padded = if widest > 17 { 20 } else { widest + 3 };
    let branch_width = if padded < 8 { 8 } else { padded };
    let graph_x: usize = 2;
    assert((branches.len() - 1) * branch_width <= 4096 * 20) by (nonlinear_arith)
        requires
            1 <= branches.len() <= 4096,
            branch_width <= 20,
    ;
    let graph_width = (branches.len() - 1) * branch_width + 3;
    let spanned = graph_x + graph_width;
    let width = if spanned < 28 { 28 } else { spanned };
    if width > opts.max_width {
        return Err(MermansiError::RenderLimit { context: "gitGraph columns", requested: width, limit: opts.max_width });
    }
    let graph_y: usize = 5;
    let lines = rewrapped(details, width - 2);
    let graph_height = (count - 1) * LANE_GAP + 2;
    let detail_y = graph_y + graph_height + 1;
    let needed = detail_y.saturating_add(lines.len());
    let height = if needed < 9 { 9 } else { needed };
    match ensure_height(opts, height) {
        Ok(()) => {},
        Err(e) => return Err(e),
    }
    let mut canvas = match Canvas::new(width, height) {
        Ok(c) => c,
        Err(e) => return Err(e),
    };
    match paint_header(&mut canvas, graph, width) {
        Ok(()) => {},
        Err(e) => return Err(e),
    }
    let mut b: usize = 0;
    while b < branches.len()
        invariant
            canvas.wf(),
            b <= branches@.len(),
            0 < branches@.len() <= MAX_GIT_BRANCHES,
            8 <= branch_width <= 20,
            graph_x == 2,
            graph_y == 5,
            graph_height == (count - 1) * LANE_GAP + 2,
            0 < count <= MAX_GIT_COMMITS,
        decreases branches@.len() - b,
    {
        assert(b * branch_width <= 4096 * 20) by (nonlinear_arith)
            requires
                b < 4096,
                branch_width <= 20,
        ;
        let x = graph_x + 1 + b * branch_width;
        let name = &branches[b];
        let label = if str_display_width(name.as_str()) < branch_width {
            name.clone()
        } else {
            let mut short = String::from_str("[b");
            short.append(decimal_text(b + 1).as_str());
            short.append("]");
            short
        };
        let mut visible = String::from_str(if is_current_branch(name.as_str(), graph.current_branch.as_str()) { "*" } else { " " });
        visible.append(label.as_str());
        let start = x.saturating_sub(str_display_width(visible.as_str()) / 2);
        match canvas.set_text(start, 3, visible.as_str()) {
            Ok(()) => {},
            Err(e) => return Err(e),
        }
        match draw_vertical_line(&mut canvas, x, graph_y, graph_y + graph_height - 1, opts.charset) {
            Ok(()) => {},
            Err(e) => return Err(e),
        }
        b = b + 1;
    }
    let mut positions: Vec<Position> = Vec::new();
    let mut k: usize = 0;
    while k < count
        invariant
            k <= count,
            count == commits@.len(),
            0 < count <= MAX_GIT_COMMITS,
            0 < branches@.len() <= MAX_GIT_BRANCHES,
            order@.len() == count,
            forall|j: int| 0 <= j < order@.len() ==> #[trigger] order@[j] < commits@.len(),
            positions@.len() == k,
            8 <= branch_width <= 20,
            graph_x == 2,
            graph_y == 5,
        decreases count - k,
    {
        let lane = lane_of(branches, commits[order[k]].branch.as_str());
        let axis = if reverse { count - 1 - k } else { k };
        assert(lane * branch_width <= 4096 * 20) by (nonlinear_arith)
            requires
                lane < 4096,
                branch_width <= 20,
        ;
        positions.push(Position { x: graph_x + 1 + lane * branch_width, y: graph_y + axis * LANE_GAP });
        k = k + 1;
    }
    match paint_parents(&mut canvas, commits, order, &positions, opts.charset, true) {
        Ok(()) => {},
        Err(e) => return Err(e),
    }
    match paint_commits(&mut canvas, commits, order, &positions, opts.charset, true) {
        Ok(()) => {},
        Err(e) => return Err(e),
    }
    match paint_details(&mut canvas, &lines, detail_y) {
        Ok(()) => {},
        Err(e) => return Err(e),
    }
    Ok(render_cropped_canvas(&canvas))
}

/// Draws a git graph: the title and a summary line, a lane per branch (declared branches
/// first, then those only commits name), the commits by sequence number as typed markers
/// numbered along the flow, every parent route with an arrow into its child, and the
/// numbered commit details below.
///
/// Too many commits or branches are refused first; a graph without commits is drawn as a
/// card; a parent no commit has is refused.
pub fn render_git_graph(graph: &GitGraph, opts: &MermansiOptions) -> (r: Result<String>)
    ensures
        graph.commits@.len() > MAX_GIT_COMMITS ==> r == Err::<String, MermansiError>(MermansiError::RenderLimit {
            context: "gitGraph commits", requested: graph.commits@.len() as usize, limit: MAX_GIT_COMMITS }),
        graph.commits@.len() == 0 && graph.branches@.len() <= MAX_GIT_BRANCHES && empty_card_refused(*opts)
            ==> r == Err::<String, MermansiError>(MermansiError::RenderLimit {
                context: "gitGraph empty card", requested: 16, limit: empty_card_limit(*opts) }),
{
    match ensure_limit("gitGraph commits", graph.commits.len(), MAX_GIT_COMMITS) {
        Ok(()) => {},
        Err(e) => return Err(e),
    }
    let branches = branch_inventory(graph);
    match ensure_limit("gitGraph branches", branches.len(), MAX_GIT_BRANCHES) {
        Ok(()) => {},
        Err(e) => return Err(e),
    }
    if graph.commits.len() == 0 {
        return render_empty_graph(graph, opts);
    }
    let order = commit_order(&graph.commits);
    let detail_width = if opts.max_width < 3 { 1 } else { opts.max_width - 2 };
    let details = commit_details(&graph.commits, &order, detail_width);
    let direction = normalized_direction(graph.direction.as_str());
    if str_eq(direction, "TB") || str_eq(direction, "BT") {
        render_vertical(graph, opts, &branches, &order, &details, str_eq(direction, "BT"))
    } else {
        render_horizontal(graph, opts, &branches, &order, &details, str_eq(direction, "RL"))
    }
}

} // verus!
