//! Terminal adapters for diagram families, and the primitives they share.

pub mod chart_primitives;
pub mod venn;
pub mod box_geometry;
pub mod json;
pub mod ishikawa;
pub mod eventmodeling;
pub mod architecture;
pub mod c4;
pub mod block;
pub mod requirement;
pub mod info;
pub mod flowchart;
pub mod timeline;
pub mod journey;
pub mod kanban;
pub mod mindmap;
pub mod treeview;
pub mod sankey;
pub mod quadrant_chart;
pub mod treemap;
pub mod pie;
pub mod radar;
pub mod class;
pub mod gantt;
pub mod er;
pub mod packet;
pub mod git_graph;

use vstd::prelude::*;
use crate::engine::{deterministic_context, render_terminal};
use crate::error::{MermansiError, Result};
use crate::options::{Charset, MermansiOptions};
use crate::adapters::chart_primitives::is_white_line;
use crate::canvas::all_white;
use crate::text::{chars_of, push_char, trimmed, unicode_str_width};
use crate::canvas::str_display_width;

verus! {

/// `placeholder` for a blank value, else the value.
pub fn nonempty_or(value: &str, placeholder: &str) -> (r: String)
    ensures
        all_white(value@) ==> r@ == placeholder@,
        !all_white(value@) ==> r@ == value@,
{
    let chars = chars_of(value);
    if is_white_line(&chars) {
        String::from_str(placeholder)
    } else {
        String::from_str(value)
    }
}

/// Whether `section` starts a new run of tasks under the same (non-blank) section, given the
/// section of the previous run; a blank section ends any run.
pub fn starts_new_section_run(previous: &mut Option<String>, section: &str) -> (r: bool)
    ensures
        all_white(section@) ==> !r && *final(previous) == None::<String>,
        !all_white(section@) && (*old(previous) matches Some(p) && p@ == section@) ==> !r && *final(previous) == *old(previous),
        !all_white(section@) && !(*old(previous) matches Some(p) && p@ == section@) ==> r
            && (*final(previous) matches Some(p) && p@ == section@),
{
    let chars = chars_of(section);
    if is_white_line(&chars) {
        *previous = None;
        return false;
    }
    let same = match previous {
        Some(p) => box_geometry::str_eq(p.as_str(), section),
        None => false,
    };
    if same {
        return false;
    }
    *previous = Some(String::from_str(section));
    true
}

/// `text` padded with spaces on the right to `width` display columns.
pub fn align_left_display(text: &str, width: usize) -> (r: String)
    ensures
        r@ == text@ + Seq::new((if width > unicode_str_width(text@) { width - unicode_str_width(text@) } else { 0 }) as nat, |i: int| ' '),
{
    let w = str_display_width(text);
    let padding = width.saturating_sub(w);
    let mut out = String::from_str(text);
    let mut i: usize = 0;
    while i < padding
        invariant
            i <= padding,
            out@ == text@ + Seq::new(i as nat, |k: int| ' '),
        decreases padding - i,
    {
        push_char(&mut out, ' ');
        i = i + 1;
        proof {
            assert(out@ =~= text@ + Seq::new(i as nat, |k: int| ' '));
        }
    }
    out
}

/// `text` padded with spaces on the left to `width` display columns.
pub fn align_right_display(text: &str, width: usize) -> (r: String)
    ensures
        r@ == Seq::new((if width > unicode_str_width(text@) { width - unicode_str_width(text@) } else { 0 }) as nat, |i: int| ' ') + text@,
{
    let w = str_display_width(text);
    let padding = width.saturating_sub(w);
    let mut out = String::new();
    let mut i: usize = 0;
    while i < padding
        invariant
            i <= padding,
            out@ == Seq::new(i as nat, |k: int| ' '),
        decreases padding - i,
    {
        push_char(&mut out, ' ');
        i = i + 1;
        proof {
            assert(out@ =~= Seq::new(i as nat, |k: int| ' '));
        }
    }
    out.append(text);
    out
}

/// A heading: the trimmed title, or `fallback` where there is none or it is blank.
pub open spec fn shown_title(title: Option<String>, fallback: Seq<char>) -> Seq<char> {
    match title {
        Some(t) => if all_white(trimmed(t@)) { fallback } else { trimmed(t@) },
        None => fallback,
    }
}

/// The title line block: the title and a blank line, where the title is not blank.
pub open spec fn title_text(title: Option<String>) -> Seq<char> {
    match title {
        Some(t) => if all_white(t@) { seq![] } else { t@ + seq!['\n', '\n'] },
        None => seq![],
    }
}

/// The title block of a chart: the title and a blank line, or nothing without a (non-blank)
/// title.
pub fn format_title(title: &Option<String>) -> (r: String)
    ensures
        r@ == title_text(*title),
{
    match title {
        Some(t) => {
            let chars = chars_of(t.as_str());
            if is_white_line(&chars) {
                String::new()
            } else {
                let mut out = t.clone();
                out.append("\n\n");
                proof {
                    reveal_strlit("\n\n");
                }
                out
            }
        },
        None => String::new(),
    }
}

/// The separator between an identity and its detail.
pub fn detail_separator(charset: Charset) -> (r: &'static str)
    ensures
        r == (match charset {
            Charset::Unicode => " · ",
            Charset::Ascii => " - ",
        }),
{
    match charset {
        Charset::Unicode => " · ",
        Charset::Ascii => " - ",
    }
}

/// The terminal renderer's drawing of a parsed diagram in a deterministic operation context
/// (fixed clock, UTC, fixed seed), with a grid-cell budget of the width times the height of
/// `opts`; `None` where no such context can be made.
pub(crate) fn terminal_drawing(parsed: &merman_core::ParsedDiagramRender, opts: &MermansiOptions)
    -> (r: Option<std::result::Result<String, merman_ascii::AsciiError>>)
{
    match deterministic_context() {
        Some(context) => Some(render_terminal(parsed, opts, &context, box_geometry::sat_mul(opts.max_width, opts.max_height))),
        None => None,
    }
}

/// The error for a deterministic operation context that cannot be made.
pub(crate) fn runtime_unavailable() -> (r: MermansiError)
    ensures
        r == (MermansiError::InvalidOption { field: "runtime", message: "deterministic runtime unavailable" }),
{
    MermansiError::InvalidOption { field: "runtime", message: "deterministic runtime unavailable" }
}

/// The library's own drawing of a parsed diagram, for the families it draws itself; `None`
/// for the families left to the terminal renderer.
pub fn render_native(parsed: &merman_core::ParsedDiagramRender, opts: &MermansiOptions) -> (r: Option<Result<String>>)
{
    match flowchart::parsed_flowchart(parsed) {
        Some(model) => {
            let chart = flowchart::diagram_of(model);
            let delegate = || -> (d: flowchart::Delegated) {
                match terminal_drawing(parsed, opts) {
                    Some(Ok(text)) => flowchart::Delegated::Drawn(text),
                    Some(Err(e)) => {
                        if flowchart::is_unsupported_feature(&e) {
                            flowchart::Delegated::Unsupported
                        } else {
                            flowchart::Delegated::Failed(MermansiError::AsciiRender(e))
                        }
                    },
                    None => flowchart::Delegated::Failed(runtime_unavailable()),
                }
            };
            return Some(flowchart::render_flowchart(&chart, opts, delegate));
        },
        None => {},
    }
    match class::parsed_class(parsed) {
        Some(model) => return Some(class::render_class(&class::diagram_of(model), opts)),
        None => {},
    }
    match gantt::parsed_gantt(parsed) {
        Some(model) => return Some(gantt::render_gantt(&gantt::diagram_of(model), opts)),
        None => {},
    }
    match er::parsed_er(parsed) {
        Some(model) => return Some(er::render_er(&er::diagram_of(model), opts)),
        None => {},
    }
    match packet::parsed_packet(parsed) {
        Some(model) => return Some(packet::render_packet(&packet::diagram_of(model), opts)),
        None => {},
    }
    match git_graph::parsed_git_graph(parsed) {
        Some(model) => return Some(git_graph::render_git_graph(&git_graph::diagram_of(model), opts)),
        None => {},
    }
    match ishikawa::parsed_ishikawa(parsed) {
        Some(model) => return Some(ishikawa::render_ishikawa(&ishikawa::diagram_of(model), opts)),
        None => {},
    }
    match eventmodeling::parsed_eventmodeling(parsed) {
        Some(model) => return Some(eventmodeling::render_eventmodeling(&eventmodeling::diagram_of(model), opts)),
        None => {},
    }
    match architecture::parsed_architecture(parsed) {
        Some(model) => return Some(architecture::render_architecture(&architecture::diagram_of(model), opts)),
        None => {},
    }
    match c4::parsed_c4(parsed) {
        Some(model) => return Some(c4::render_c4(&c4::diagram_of(model), opts)),
        None => {},
    }
    match block::parsed_block(parsed) {
        Some(model) => return Some(block::render_block(&block::diagram_of(model), opts)),
        None => {},
    }
    match requirement::parsed_requirement(parsed) {
        Some(model) => return Some(requirement::render_requirement(&requirement::diagram_of(model), opts)),
        None => {},
    }
    match info::parsed_show_info(parsed) {
        Some(show_info) => return Some(info::render_info(show_info, opts)),
        None => {},
    }
    match timeline::parsed_timeline(parsed) {
        Some(model) => return Some(timeline::render_timeline(&timeline::diagram_of(model), opts)),
        None => {},
    }
    match journey::parsed_journey(parsed) {
        Some(model) => return Some(journey::render_journey(&journey::diagram_of(model), opts)),
        None => {},
    }
    match kanban::parsed_kanban(parsed) {
        Some(nodes) => return Some(kanban::render_kanban(&kanban::items_of(nodes), opts)),
        None => {},
    }
    match mindmap::parsed_mindmap(parsed) {
        Some(model) => return Some(mindmap::render_mindmap(&mindmap::diagram_of(model), opts)),
        None => {},
    }
    match treeview::parsed_treeview(parsed) {
        Some(model) => return Some(treeview::render_treeview(&treeview::diagram_of(model), opts)),
        None => {},
    }
    None
}

} // verus!
