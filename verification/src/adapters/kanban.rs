//! Kanban board terminal geometry: columns as frames, cards as boxes inside their column.

use vstd::prelude::*;
use crate::adapters::box_geometry::{self, BoxDiagram, BoxGroup, BoxLayout, BoxNode, EdgeLegend, str_eq};
use crate::adapters::json::{decimal, decimal_text};
use crate::canvas::all_white;
use crate::text::trimmed;
use crate::adapters::{detail_separator, nonempty_or};
use crate::error::{MermansiError, Result};
use crate::options::{Charset, MermansiOptions};
use crate::text::trim_text;

verus! {

#[verifier::external_type_specification]
#[verifier::external_body]
pub struct ExKanbanDiagramRenderModel(merman_core::diagrams::kanban::KanbanDiagramRenderModel);

#[verifier::external_type_specification]
#[verifier::external_body]
pub struct ExKanbanRenderNode(merman_core::diagrams::kanban::KanbanRenderNode);

/// Most columns and cards drawn.
pub const MAX_KANBAN_NODES: usize = 4_096;

/// A column (`is_group`) or a card, with the card's metadata.
pub struct KanbanItem {
    pub id: String,
    pub label: String,
    pub is_group: bool,
    pub parent_id: Option<String>,
    pub ticket: Option<String>,
    pub priority: Option<String>,
    pub assigned: Option<String>,
    pub icon: Option<String>,
}

/// The kanban items of a parsed diagram, if it is one.
#[verifier::external_body]
pub(crate) fn parsed_kanban(parsed: &merman_core::ParsedDiagramRender)
    -> (r: Option<&Vec<merman_core::diagrams::kanban::KanbanRenderNode>>)
{
    match parsed.model() {
        merman_core::diagram::RenderSemanticModel::Kanban(model) => Some(&model.nodes),
        _ => None,
    }
}

/// A parsed item, field for field.
#[verifier::external_body]
fn item_of(node: &merman_core::diagrams::kanban::KanbanRenderNode) -> (r: KanbanItem)
{
    KanbanItem {
        id: node.id.clone(),
        label: node.label.clone(),
        is_group: node.is_group,
        parent_id: node.parent_id.clone(),
        ticket: node.ticket.clone(),
        priority: node.priority.clone(),
        assigned: node.assigned.clone(),
        icon: node.icon.clone(),
    }
}

/// The library's copy of parsed kanban items.
pub(crate) fn items_of(nodes: &Vec<merman_core::diagrams::kanban::KanbanRenderNode>) -> (r: Vec<KanbanItem>)
{
    let mut items: Vec<KanbanItem> = Vec::new();
    let mut i: usize = 0;
    while i < nodes.len()
        invariant
            i <= nodes@.len(),
        decreases nodes@.len() - i,
    {
        items.push(item_of(&nodes[i]));
        i = i + 1;
    }
    items
}

/// The box id of item `index`.
fn geometry_id(index: usize) -> (r: String)
    ensures
        r@ == "kanban-"@ + decimal(index as nat),
{
    let mut id = String::from_str("kanban-");
    let digits = decimal_text(index);
    id.append(digits.as_str());
    id
}

/// A trimmed optional value; `None` where it is blank.
/// The trimmed value, where it is present and not blank.
pub open spec fn trimmed_option(value: Option<String>) -> Option<Seq<char>> {
    match value {
        Some(v) => if trimmed(v@).len() > 0 { Some(trimmed(v@)) } else { None },
        None => None,
    }
}

fn normalized_option(value: &Option<String>) -> (r: Option<String>)
    ensures
        match trimmed_option(*value) {
            Some(t) => r matches Some(s) && s@ == t,
            None => r is None,
        },
{
    match value {
        Some(v) => {
            let t = trim_text(v.as_str());
            if t.as_str().is_empty() { None } else { Some(t) }
        },
        None => None,
    }
}

/// The id and label of an item: the label alone where it equals the id or the id is blank, the
/// id alone where the label is blank.
/// The identity line of an item.
pub open spec fn identity_text(item: KanbanItem, charset: Charset) -> Seq<char> {
    let id = trimmed(item.id@);
    let label = trimmed(item.label@);
    if label.len() == 0 {
        if all_white(id) { "(unnamed)"@ } else { id }
    } else if id.len() == 0 || id == label {
        label
    } else {
        id + (match charset { Charset::Unicode => " · "@, Charset::Ascii => " - "@ }) + label
    }
}

fn display_identity(item: &KanbanItem, charset: Charset) -> (r: String)
    ensures
        r@ == identity_text(*item, charset),
{
    let id = trim_text(item.id.as_str());
    let label = trim_text(item.label.as_str());
    if label.as_str().is_empty() {
        return nonempty_or(id.as_str(), "(unnamed)");
    }
    if id.as_str().is_empty() || str_eq(id.as_str(), label.as_str()) {
        label
    } else {
        let mut out = id;
        out.append(detail_separator(charset));
        out.append(label.as_str());
        out
    }
}

/// `key: value` for a value that is not blank.
/// The lines that a field adds: `key: value` where the value is not blank, else none.
pub open spec fn field_lines(key: Seq<char>, value: Option<String>) -> Seq<Seq<char>> {
    match trimmed_option(value) {
        Some(v) => seq![key + ": "@ + v],
        None => seq![],
    }
}

/// The texts of `lines`.
pub open spec fn texts(lines: Seq<String>) -> Seq<Seq<char>> {
    lines.map_values(|l: String| l@)
}

fn push_field(lines: &mut Vec<String>, key: &str, value: &Option<String>)
    ensures
        texts(final(lines)@) == texts(old(lines)@) + field_lines(key@, *value),
{
    match normalized_option(value) {
        Some(v) => {
            let mut line = String::from_str(key);
            line.append(": ");
            line.append(v.as_str());
            lines.push(line);
            assert(texts(lines@) =~= texts(old(lines)@) + field_lines(key@, *value));
        },
        None => {
            assert(texts(lines@) =~= texts(old(lines)@) + field_lines(key@, *value));
        },
    }
}

fn node_lines(item: &KanbanItem, charset: Charset) -> (r: Vec<String>)
    ensures
        texts(r@) == seq![identity_text(*item, charset)] + field_lines("ticket"@, item.ticket)
            + field_lines("priority"@, item.priority) + field_lines("assigned"@, item.assigned)
            + field_lines("icon"@, item.icon),
{
    let mut lines: Vec<String> = Vec::new();
    lines.push(display_identity(item, charset));
    assert(texts(lines@) =~= seq![identity_text(*item, charset)]);
    push_field(&mut lines, "ticket", &item.ticket);
    push_field(&mut lines, "priority", &item.priority);
    push_field(&mut lines, "assigned", &item.assigned);
    push_field(&mut lines, "icon", &item.icon);
    assert(texts(lines@) =~= seq![identity_text(*item, charset)] + field_lines("ticket"@, item.ticket)
        + field_lines("priority"@, item.priority) + field_lines("assigned"@, item.assigned)
        + field_lines("icon"@, item.icon));
    lines
}

/// The box id of the first column with id `id`.
fn column_of(items: &Vec<KanbanItem>, id: &str) -> (r: Option<String>)
    ensures
        r matches Some(s) ==> exists|i: int| 0 <= i < items@.len() && (#[trigger] items@[i]).is_group
            && items@[i].id@ == id@ && s@ == "kanban-"@ + decimal(i as nat)
            && forall|j: int| 0 <= j < i ==> !((#[trigger] items@[j]).is_group && items@[j].id@ == id@),
        r is None ==> forall|j: int| 0 <= j < items@.len() ==> !((#[trigger] items@[j]).is_group && items@[j].id@ == id@),
{
    let mut i: usize = 0;
    while i < items.len()
        invariant
            i <= items@.len(),
            forall|j: int| 0 <= j < i ==> !((#[trigger] items@[j]).is_group && items@[j].id@ == id@),
        decreases items@.len() - i,
    {
        if items[i].is_group && str_eq(items[i].id.as_str(), id) {
            return Some(geometry_id(i));
        }
        i = i + 1;
    }
    None
}

/// Draws a kanban board: each column a frame, each card a box in its column (a card whose
/// column is missing is drawn on its own with a `column:` line). More than
/// [`MAX_KANBAN_NODES`] items are refused.
pub fn render_kanban(items: &Vec<KanbanItem>, opts: &MermansiOptions) -> (r: Result<String>)
    ensures
        items@.len() > MAX_KANBAN_NODES ==> r == Err::<String, MermansiError>(MermansiError::RenderLimit {
            context: "kanban nodes", requested: items@.len() as usize, limit: MAX_KANBAN_NODES }),
        items@.len() == 0 ==> (r matches Ok(s) && s@ == seq!['K', 'a', 'n', 'b', 'a', 'n', '\n', '\n', '(', 'e', 'm',
            'p', 't', 'y', ' ', 'b', 'o', 'a', 'r', 'd', ')', '\n']),
{
    if items.len() > MAX_KANBAN_NODES {
        return Err(MermansiError::RenderLimit { context: "kanban nodes", requested: items.len(), limit: MAX_KANBAN_NODES });
    }
    if items.len() == 0 {
        proof {
            reveal_strlit("Kanban\n\n(empty board)\n");
        }
        return Ok(String::from_str("Kanban\n\n(empty board)\n"));
    }
    let mut groups: Vec<BoxGroup> = Vec::new();
    let mut nodes: Vec<BoxNode> = Vec::new();
    let mut order: usize = 0;
    while order < items.len()
        invariant
            order <= items@.len(),
        decreases items@.len() - order,
    {
        let item = &items[order];
        if item.is_group {
            groups.push(BoxGroup {
                id: geometry_id(order),
                lines: node_lines(item, opts.charset),
                parent: None,
                columns: Some(1),
                span: 1,
                order,
            });
        } else {
            let parent = match &item.parent_id {
                Some(p) => column_of(items, p.as_str()),
                None => None,
            };
            let mut lines = node_lines(item, opts.charset);
            if parent.is_none() {
                match normalized_option(&item.parent_id) {
                    Some(column) => {
                        let mut line = String::from_str("column: ");
                        line.append(column.as_str());
                        lines.push(line);
                    },
                    None => {},
                }
            }
            nodes.push(BoxNode { id: geometry_id(order), lines, dividers: Vec::new(), parent, span: 1, order });
        }
        order = order + 1;
    }
    let diagram = BoxDiagram {
        family: "kanban",
        title: Some(String::from_str("Kanban")),
        nodes,
        groups,
        spacers: Vec::new(),
        edges: Vec::new(),
        columns: None,
        layout: BoxLayout::Packed,
        edge_legend: EdgeLegend::Hidden,
    };
    box_geometry::render(&diagram, opts)
}

} // verus!
