//! Event Modeling terminal geometry.
//!
//! Frames and data entities are closed boxes. Explicit source-frame dependencies are routed as
//! arrows; adjacent frames keep their parsed order where the model has no explicit edge.

use vstd::prelude::*;
use crate::adapters::box_geometry::{
    self, BoxDiagram, BoxDirection, BoxEdge, BoxLayout, BoxNode, EdgeLegend, EdgeMarker, EdgeStyle, Side,
    directed_ranks, str_eq,
};
use crate::adapters::chart_primitives::{is_white_line, split_lines_of};
use crate::adapters::json::{decimal, decimal_text};
use crate::ansi::{sanitize_label_text, sanitized};
use crate::adapters::chart_primitives::split_lines;
use crate::adapters::kanban::texts;
use crate::canvas::all_white;
use crate::text::trimmed;
use crate::error::{MermansiError, Result};
use crate::options::MermansiOptions;
use crate::text::{chars_of, string_of, trim_text};

verus! {

#[verifier::external_type_specification]
#[verifier::external_body]
pub struct ExEventModelingDiagramRenderModel(merman_core::diagrams::eventmodeling::EventModelingDiagramRenderModel);

#[verifier::external_type_specification]
#[verifier::external_body]
pub struct ExEventModelingFrameRenderModel(merman_core::diagrams::eventmodeling::EventModelingFrameRenderModel);

#[verifier::external_type_specification]
#[verifier::external_body]
pub struct ExEventModelingDataEntityRenderModel(merman_core::diagrams::eventmodeling::EventModelingDataEntityRenderModel);

/// Most frames and data entities drawn.
pub const MAX_EVENTMODELING_NODES: usize = 4_096;
/// Most relationships drawn.
pub const MAX_EVENTMODELING_EDGES: usize = 8_192;

/// A frame of the timeline: a command, event, view or other step.
pub struct EventFrame {
    pub name: String,
    pub frame_kind: String,
    pub model_entity_type: String,
    pub entity_identifier: String,
    pub source_frames: Vec<String>,
    pub data_inline_value: Option<String>,
    pub data_reference: Option<String>,
}

/// A named data block.
pub struct EventDataEntity {
    pub name: String,
    pub data_block_value: String,
}

/// An event model: its frames in order, and its data entities.
pub struct EventModelingDiagram {
    pub title: Option<String>,
    pub frames: Vec<EventFrame>,
    pub data_entities: Vec<EventDataEntity>,
}

/// The Event Modeling model of a parsed diagram, if it is one.
#[verifier::external_body]
pub(crate) fn parsed_eventmodeling(parsed: &merman_core::ParsedDiagramRender)
    -> (r: Option<&merman_core::diagrams::eventmodeling::EventModelingDiagramRenderModel>)
{
    match parsed.model() {
        merman_core::diagram::RenderSemanticModel::EventModeling(model) => Some(model),
        _ => None,
    }
}

/// The `title` field of an Event Modeling model.
#[verifier::external_body]
fn model_title(model: &merman_core::diagrams::eventmodeling::EventModelingDiagramRenderModel) -> (r: Option<String>)
{
    model.title.clone()
}

/// The `frames` field of an Event Modeling model.
#[verifier::external_body]
fn model_frames(model: &merman_core::diagrams::eventmodeling::EventModelingDiagramRenderModel)
    -> (r: &Vec<merman_core::diagrams::eventmodeling::EventModelingFrameRenderModel>)
{
    &model.frames
}

/// The `data_entities` field of an Event Modeling model.
#[verifier::external_body]
fn model_data_entities(model: &merman_core::diagrams::eventmodeling::EventModelingDiagramRenderModel)
    -> (r: &Vec<merman_core::diagrams::eventmodeling::EventModelingDataEntityRenderModel>)
{
    &model.data_entities
}

/// A parsed frame, field for field.
#[verifier::external_body]
fn frame_of(frame: &merman_core::diagrams::eventmodeling::EventModelingFrameRenderModel) -> (r: EventFrame)
{
    EventFrame {
        name: frame.name.clone(),
        frame_kind: frame.frame_kind.clone(),
        model_entity_type: frame.model_entity_type.clone(),
        entity_identifier: frame.entity_identifier.clone(),
        source_frames: frame.source_frames.clone(),
        data_inline_value: frame.data_inline_value.clone(),
        data_reference: frame.data_reference.clone(),
    }
}

/// A parsed data entity, field for field.
#[verifier::external_body]
fn data_entity_of(entity: &merman_core::diagrams::eventmodeling::EventModelingDataEntityRenderModel) -> (r: EventDataEntity)
{
    EventDataEntity { name: entity.name.clone(), data_block_value: entity.data_block_value.clone() }
}

/// The library's copy of a parsed Event Modeling model.
pub(crate) fn diagram_of(model: &merman_core::diagrams::eventmodeling::EventModelingDiagramRenderModel)
    -> (r: EventModelingDiagram)
{
    let parsed_frames = model_frames(model);
    let mut frames: Vec<EventFrame> = Vec::new();
    let mut i: usize = 0;
    while i < parsed_frames.len()
        invariant
            i <= parsed_frames@.len(),
        decreases parsed_frames@.len() - i,
    {
        frames.push(frame_of(&parsed_frames[i]));
        i = i + 1;
    }
    let parsed_entities = model_data_entities(model);
    let mut data_entities: Vec<EventDataEntity> = Vec::new();
    let mut j: usize = 0;
    while j < parsed_entities.len()
        invariant
            j <= parsed_entities@.len(),
        decreases parsed_entities@.len() - j,
    {
        data_entities.push(data_entity_of(&parsed_entities[j]));
        j = j + 1;
    }
    EventModelingDiagram { title: model_title(model), frames, data_entities }
}

/// `prefix` followed by the decimal digits of `index`.
fn numbered(prefix: &str, index: usize) -> (r: String)
    ensures
        r@ == prefix@ + decimal(index as nat),
{
    let mut id = String::from_str(prefix);
    let digits = decimal_text(index);
    id.append(digits.as_str());
    id
}

/// The box id of frame `index`.
pub fn frame_id(index: usize) -> (r: String)
    ensures
        r@ == "event-frame-"@ + decimal(index as nat),
{
    numbered("event-frame-", index)
}

/// The box id of data entity `index`.
pub fn data_id(index: usize) -> (r: String)
    ensures
        r@ == "event-data-"@ + decimal(index as nat),
{
    numbered("event-data-", index)
}

/// `(unnamed)` for a blank value, else the value.
/// `(unnamed)` for a blank value, else the value.
pub open spec fn nonempty_text(value: Seq<char>) -> Seq<char> {
    if all_white(value) { "(unnamed)"@ } else { value }
}

fn nonempty(value: &str) -> (r: String)
    ensures
        r@ == nonempty_text(value@),
{
    let chars = chars_of(value);
    if is_white_line(&chars) {
        String::from_str("(unnamed)")
    } else {
        String::from_str(value)
    }
}

fn ensure_limit(context: &'static str, requested: usize, limit: usize) -> (r: Result<()>)
    ensures
        requested > limit ==> r == Err::<(), MermansiError>(MermansiError::RenderLimit { context, requested, limit }),
        requested <= limit ==> r is Ok,
{
    if requested > limit {
        return Err(MermansiError::RenderLimit { context, requested, limit });
    }
    Ok(())
}

/// Appends the non-blank lines of `value`, sanitized and trimmed; the first one after `prefix`.
/// The non-blank lines among the first `n` of `raws`, each sanitized and trimmed.
pub open spec fn kept_lines(raws: Seq<Seq<char>>, n: int) -> Seq<Seq<char>>
    decreases n,
{
    if n <= 0 {
        seq![]
    } else {
        let t = trimmed(sanitized(raws[n - 1]));
        kept_lines(raws, n - 1) + (if t.len() > 0 { seq![t] } else { seq![] })
    }
}

/// `lines` with `prefix` before the first one.
pub open spec fn prefixed_first(prefix: Seq<char>, lines: Seq<Seq<char>>) -> Seq<Seq<char>> {
    if lines.len() == 0 { lines } else { lines.update(0, prefix + lines[0]) }
}

/// The lines that a multi-line value adds.
pub open spec fn multiline_lines(prefix: Seq<char>, value: Seq<char>) -> Seq<Seq<char>> {
    prefixed_first(prefix, kept_lines(split_lines(value), split_lines(value).len() as int))
}

fn append_multiline(lines: &mut Vec<String>, prefix: &str, value: &str)
    ensures
        final(lines)@.len() >= old(lines)@.len(),
        texts(final(lines)@) == texts(old(lines)@) + multiline_lines(prefix@, value@),
{
    let chars = chars_of(value);
    let raw_lines = split_lines_of(&chars);
    let ghost raws = split_lines(value@);
    let mut first = true;
    let mut i: usize = 0;
    while i < raw_lines.len()
        invariant
            i <= raw_lines@.len(),
            raw_lines@.map_values(|l: Vec<char>| l@) == raws,
            lines@.len() >= old(lines)@.len(),
            first == (kept_lines(raws, i as int).len() == 0),
            texts(lines@) == texts(old(lines)@) + prefixed_first(prefix@, kept_lines(raws, i as int)),
        decreases raw_lines@.len() - i,
    {
        let raw = string_of(raw_lines[i].as_slice());
        assert(raw@ == raws[i as int]);
        let clean = sanitize_label_text(raw.as_str());
        let text = trim_text(clean.as_str());
        let ghost before = kept_lines(raws, i as int);
        let ghost old_texts = texts(lines@);
        assert(text@ == trimmed(sanitized(raws[i as int])));
        if !text.as_str().is_empty() {
            assert(kept_lines(raws, i + 1) == before.push(text@));
            if first {
                let mut line = String::from_str(prefix);
                line.append(text.as_str());
                lines.push(line);
                first = false;
                assert(prefixed_first(prefix@, before.push(text@)) =~= seq![prefix@ + text@]);
                assert(texts(lines@) =~= old_texts.push(prefix@ + text@));
            } else {
                let ghost t = text@;
                lines.push(text);
                assert(prefixed_first(prefix@, before.push(t)) =~= prefixed_first(prefix@, before).push(t));
                assert(texts(lines@) =~= old_texts.push(t));
            }
        } else {
            assert(kept_lines(raws, i + 1) == before);
        }
        i = i + 1;
        assert(texts(lines@) =~= texts(old(lines)@) + prefixed_first(prefix@, kept_lines(raws, i as int)));
    }
}

/// The lines of a frame's box: kind and name, entity type and identifier, then any inline
/// value and data reference.
fn frame_lines(frame: &EventFrame) -> (r: Vec<String>)
    ensures
        texts(r@) == seq![
            "["@ + nonempty_text(sanitized(frame.frame_kind@)) + "] "@ + nonempty_text(sanitized(frame.name@)),
            "type: "@ + nonempty_text(sanitized(frame.model_entity_type@)),
            "entity: "@ + nonempty_text(sanitized(frame.entity_identifier@))]
            + (match frame.data_inline_value { Some(v) => multiline_lines("value: "@, v@), None => seq![] })
            + (match frame.data_reference { Some(x) => seq!["ref: "@ + sanitized(x@)], None => seq![] }),
{
    let mut lines: Vec<String> = Vec::new();
    let mut head = String::from_str("[");
    let kind = nonempty(sanitize_label_text(frame.frame_kind.as_str()).as_str());
    head.append(kind.as_str());
    head.append("] ");
    let name = nonempty(sanitize_label_text(frame.name.as_str()).as_str());
    head.append(name.as_str());
    lines.push(head);
    let mut type_line = String::from_str("type: ");
    let entity_type = nonempty(sanitize_label_text(frame.model_entity_type.as_str()).as_str());
    type_line.append(entity_type.as_str());
    lines.push(type_line);
    let mut entity_line = String::from_str("entity: ");
    let entity = nonempty(sanitize_label_text(frame.entity_identifier.as_str()).as_str());
    entity_line.append(entity.as_str());
    lines.push(entity_line);
    assert(texts(lines@) =~= seq![
        "["@ + nonempty_text(sanitized(frame.frame_kind@)) + "] "@ + nonempty_text(sanitized(frame.name@)),
        "type: "@ + nonempty_text(sanitized(frame.model_entity_type@)),
        "entity: "@ + nonempty_text(sanitized(frame.entity_identifier@))]);
    let ghost three = texts(lines@);
    match &frame.data_inline_value {
        Some(value) => append_multiline(&mut lines, "value: ", value.as_str()),
        None => {},
    }
    match &frame.data_reference {
        Some(reference) => {
            let mut line = String::from_str("ref: ");
            let clean = sanitize_label_text(reference.as_str());
            line.append(clean.as_str());
            let ghost before = texts(lines@);
            lines.push(line);
            assert(texts(lines@) =~= before + seq!["ref: "@ + sanitized(reference@)]);
        },
        None => {},
    }
    assert(texts(lines@) =~= three
        + (match frame.data_inline_value { Some(v) => multiline_lines("value: "@, v@), None => seq![] })
        + (match frame.data_reference { Some(x) => seq!["ref: "@ + sanitized(x@)], None => seq![] }));
    lines
}

/// An arrow from `from` to `to` with a short label.
fn edge(from: String, to: String, label: &str, from_side: Side, to_side: Side) -> (r: BoxEdge)
    ensures
        r.from == from,
        r.to == to,
        r.label@ == label@,
        r.marker_start == EdgeMarker::Absent,
        r.marker_end == EdgeMarker::Arrow,
        r.style == EdgeStyle::Solid,
        r.from_side == Some(from_side),
        r.to_side == Some(to_side),
{
    BoxEdge {
        from,
        to,
        label: String::from_str(label),
        marker_start: EdgeMarker::Absent,
        marker_end: EdgeMarker::Arrow,
        style: EdgeStyle::Solid,
        from_side: Some(from_side),
        to_side: Some(to_side),
    }
}

/// Adds an edge, refusing more than [`MAX_EVENTMODELING_EDGES`].
fn push_edge(edges: &mut Vec<BoxEdge>, value: BoxEdge) -> (r: Result<()>)
    ensures
        r is Ok ==> final(edges)@ == old(edges)@.push(value),
        r is Err ==> final(edges)@ == old(edges)@,
        r is Ok <==> old(edges)@.len() + 1 <= MAX_EVENTMODELING_EDGES,
{
    match ensure_limit("eventmodeling edges", edges.len().saturating_add(1), MAX_EVENTMODELING_EDGES) {
        Ok(()) => {},
        Err(e) => return Err(e),
    }
    edges.push(value);
    Ok(())
}

/// The index of the first frame named `name`.
fn frame_named(frames: &Vec<EventFrame>, name: &str) -> (r: Option<usize>)
    ensures
        match r {
            Some(i) => i < frames@.len() && frames@[i as int].name@ == name@
                && forall|j: int| 0 <= j < i ==> (#[trigger] frames@[j]).name@ != name@,
            None => forall|j: int| 0 <= j < frames@.len() ==> (#[trigger] frames@[j]).name@ != name@,
        },
{
    let mut i: usize = 0;
    while i < frames.len()
        invariant
            i <= frames@.len(),
            forall|j: int| 0 <= j < i ==> (#[trigger] frames@[j]).name@ != name@,
        decreases frames@.len() - i,
    {
        if str_eq(frames[i].name.as_str(), name) {
            return Some(i);
        }
        i = i + 1;
    }
    None
}

/// The index of the first data entity named `name`.
fn entity_named(entities: &Vec<EventDataEntity>, name: &str) -> (r: Option<usize>)
    ensures
        match r {
            Some(i) => i < entities@.len() && entities@[i as int].name@ == name@
                && forall|j: int| 0 <= j < i ==> (#[trigger] entities@[j]).name@ != name@,
            None => forall|j: int| 0 <= j < entities@.len() ==> (#[trigger] entities@[j]).name@ != name@,
        },
{
    let mut i: usize = 0;
    while i < entities.len()
        invariant
            i <= entities@.len(),
            forall|j: int| 0 <= j < i ==> (#[trigger] entities@[j]).name@ != name@,
        decreases entities@.len() - i,
    {
        if str_eq(entities[i].name.as_str(), name) {
            return Some(i);
        }
        i = i + 1;
    }
    None
}

/// Whether a model has at least one and at most [`MAX_EVENTMODELING_NODES`] boxes.
pub open spec fn in_node_bounds(model: &EventModelingDiagram) -> bool {
    0 < model.frames@.len() + model.data_entities@.len() <= MAX_EVENTMODELING_NODES
}

/// Draws an event model left to right: a box per frame and per data entity, arrows from each
/// source frame (or, without one, from the previous frame) and to the data each frame
/// references; a data entity no frame references is linked from the last frame of its type,
/// else from the previous entity, else from the last frame.
pub fn render_eventmodeling(model: &EventModelingDiagram, opts: &MermansiOptions) -> (r: Result<String>)
    ensures
        model.frames@.len() + model.data_entities@.len() > MAX_EVENTMODELING_NODES ==> r == Err::<String, MermansiError>(
            MermansiError::RenderLimit {
                context: "eventmodeling nodes",
                requested: if model.frames@.len() + model.data_entities@.len() > usize::MAX { usize::MAX }
                    else { (model.frames@.len() + model.data_entities@.len()) as usize },
                limit: MAX_EVENTMODELING_NODES,
            }),
        model.frames@.len() + model.data_entities@.len() == 0 ==> (r matches Ok(s) && s@ == seq!['(', 'e', 'm', 'p',
            't', 'y', ' ', 'e', 'v', 'e', 'n', 't', ' ', 'm', 'o', 'd', 'e', 'l', 'i', 'n', 'g', ' ', 'd', 'i', 'a',
            'g', 'r', 'a', 'm', ')', '\n']),
{
    let frames = &model.frames;
    let entities = &model.data_entities;
    let node_count = match frames.len().checked_add(entities.len()) {
        Some(n) => n,
        None => {
            return Err(MermansiError::RenderLimit { context: "eventmodeling nodes", requested: usize::MAX, limit: MAX_EVENTMODELING_NODES });
        },
    };
    match ensure_limit("eventmodeling nodes", node_count, MAX_EVENTMODELING_NODES) {
        Ok(()) => {},
        Err(e) => return Err(e),
    }
    if node_count == 0 {
        proof {
            reveal_strlit("(empty event modeling diagram)\n");
        }
        return Ok(String::from_str("(empty event modeling diagram)\n"));
    }
    let mut nodes: Vec<BoxNode> = Vec::new();
    let mut order: usize = 0;
    while order < frames.len()
        invariant
            in_node_bounds(model),
            order <= frames@.len(),
            frames@.len() + entities@.len() <= MAX_EVENTMODELING_NODES,
        decreases frames@.len() - order,
    {
        nodes.push(BoxNode {
            id: frame_id(order),
            lines: frame_lines(&frames[order]),
            dividers: Vec::new(),
            parent: None,
            span: 1,
            order,
        });
        order = order + 1;
    }
    let mut index: usize = 0;
    while index < entities.len()
        invariant
            in_node_bounds(model),
            index <= entities@.len(),
            frames@.len() + entities@.len() <= MAX_EVENTMODELING_NODES,
        decreases entities@.len() - index,
    {
        let entity = &entities[index];
        let mut lines: Vec<String> = Vec::new();
        let mut head = String::from_str("[data] ");
        let name = nonempty(sanitize_label_text(entity.name.as_str()).as_str());
        head.append(name.as_str());
        lines.push(head);
        append_multiline(&mut lines, "", entity.data_block_value.as_str());
        nodes.push(BoxNode {
            id: data_id(index),
            lines,
            dividers: Vec::new(),
            parent: None,
            span: 1,
            order: frames.len() + index,
        });
        index = index + 1;
    }
    let direction = BoxDirection::Lr;
    let (from_side, to_side) = direction.edge_sides();
    let mut edges: Vec<BoxEdge> = Vec::new();
    let mut target: usize = 0;
    while target < frames.len()
        invariant
            in_node_bounds(model),
            target <= frames@.len(),
        decreases frames@.len() - target,
    {
        let sources = &frames[target].source_frames;
        let mut k: usize = 0;
        while k < sources.len()
            invariant
                in_node_bounds(model),
                target < frames@.len(),
                k <= sources@.len(),
            decreases sources@.len() - k,
        {
            let source = match frame_named(frames, sources[k].as_str()) {
                Some(source) => source,
                None => {
                    let mut message = String::from_str("source frame is not present in the frame inventory: ");
                    let clean = sanitize_label_text(sources[k].as_str());
                    message.append(clean.as_str());
                    return Err(MermansiError::GeometryLayout { family: "eventmodeling", message });
                },
            };
            match push_edge(&mut edges, edge(frame_id(source), frame_id(target), "source", from_side, to_side)) {
                Ok(()) => {},
                Err(e) => return Err(e),
            }
            k = k + 1;
        }
        target = target + 1;
    }
    let mut next: usize = 1;
    while next < frames.len()
        invariant
            in_node_bounds(model),
            1 <= next,
        decreases frames@.len() - next,
    {
        if frames[next].source_frames.len() == 0 {
            match push_edge(&mut edges, edge(frame_id(next - 1), frame_id(next), "next", from_side, to_side)) {
                Ok(()) => {},
                Err(e) => return Err(e),
            }
        }
        next = next + 1;
    }
    let mut connected_data: Vec<bool> = Vec::new();
    let mut d: usize = 0;
    while d < entities.len()
        invariant
            in_node_bounds(model),
            d <= entities@.len(),
            connected_data@.len() == d,
        decreases entities@.len() - d,
    {
        connected_data.push(false);
        d = d + 1;
    }
    let mut frame_index: usize = 0;
    while frame_index < frames.len()
        invariant
            in_node_bounds(model),
            frame_index <= frames@.len(),
            connected_data@.len() == entities@.len(),
        decreases frames@.len() - frame_index,
    {
        match &frames[frame_index].data_reference {
            Some(name) => match entity_named(entities, name.as_str()) {
                Some(data_index) => {
                    match push_edge(&mut edges, edge(frame_id(frame_index), data_id(data_index), "data", from_side, to_side)) {
                        Ok(()) => {},
                        Err(e) => return Err(e),
                    }
                    connected_data.set(data_index, true);
                },
                None => {},
            },
            None => {},
        }
        frame_index = frame_index + 1;
    }
    let mut data_index: usize = 0;
    while data_index < entities.len()
        invariant
            in_node_bounds(model),
            data_index <= entities@.len(),
            connected_data@.len() == entities@.len(),
        decreases entities@.len() - data_index,
    {
        if !connected_data[data_index] {
            let entity_name = entities[data_index].name.as_str();
            let mut source: Option<String> = None;
            let mut f: usize = frames.len();
            while f > 0
                invariant
                    in_node_bounds(model),
                    f <= frames@.len(),
                decreases f,
            {
                if str_eq(frames[f - 1].model_entity_type.as_str(), entity_name) {
                    source = Some(frame_id(f - 1));
                    break;
                }
                f = f - 1;
            }
            if source.is_none() {
                if data_index > 0 {
                    source = Some(data_id(data_index - 1));
                } else if frames.len() > 0 {
                    source = Some(frame_id(frames.len() - 1));
                }
            }
            match source {
                Some(from) => {
                    match push_edge(&mut edges, edge(from, data_id(data_index), "data", from_side, to_side)) {
                        Ok(()) => {},
                        Err(e) => return Err(e),
                    }
                },
                None => {},
            }
        }
        data_index = data_index + 1;
    }
    match ensure_limit("eventmodeling edges", edges.len(), MAX_EVENTMODELING_EDGES) {
        Ok(()) => {},
        Err(e) => return Err(e),
    }
    let ranks = directed_ranks(&nodes, &edges);
    let title = match &model.title {
        Some(title) => title.clone(),
        None => String::from_str("Event Modeling"),
    };
    let diagram = BoxDiagram {
        family: "eventmodeling",
        title: Some(title),
        nodes,
        groups: Vec::new(),
        spacers: Vec::new(),
        edges,
        columns: None,
        layout: BoxLayout::Layered { direction, ranks },
        edge_legend: EdgeLegend::Hidden,
    };
    box_geometry::render(&diagram, opts)
}

} // verus!
