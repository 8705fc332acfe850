//! C4 diagram terminal geometry.
//!
//! Boundaries are frames (the implicit global boundary is not drawn), elements are boxes with
//! their kind, technology and description, relationships are arrows (both ways for a
//! bidirectional one) labelled with their details.

use vstd::prelude::*;
use crate::adapters::box_geometry::{
    self, BoxDiagram, BoxEdge, BoxGroup, BoxLayout, BoxNode, EdgeLegend, EdgeMarker, EdgeStyle, collapse_words,
    collapsed, str_eq, MAX_BOX_EDGES, MAX_BOX_ITEMS,
};
use crate::adapters::architecture::{collapsed_option, separator_text};
use crate::adapters::detail_separator;
use crate::error::{MermansiError, Result};
use crate::options::{Charset, MermansiOptions};
use crate::text::chars_of;

verus! {

#[verifier::external_type_specification]
#[verifier::external_body]
pub struct ExC4DiagramRenderModel(merman_core::diagrams::c4::C4DiagramRenderModel);

#[verifier::external_type_specification]
#[verifier::external_body]
pub struct ExC4ShapeRenderModel(merman_core::diagrams::c4::C4ShapeRenderModel);

#[verifier::external_type_specification]
#[verifier::external_body]
pub struct ExC4BoundaryRenderModel(merman_core::diagrams::c4::C4BoundaryRenderModel);

#[verifier::external_type_specification]
#[verifier::external_body]
pub struct ExC4RelRenderModel(merman_core::diagrams::c4::C4RelRenderModel);

/// A person, system, container or component.
pub struct C4Shape {
    pub alias: String,
    pub parent_boundary: String,
    pub type_c4_shape: String,
    pub label: String,
    pub techn: Option<String>,
    pub descr: Option<String>,
}

/// An enterprise, system or container boundary.
pub struct C4Boundary {
    pub alias: String,
    pub parent_boundary: String,
    pub label: String,
    pub ty: Option<String>,
    pub descr: Option<String>,
    pub node_type: Option<String>,
}

/// A relationship between two elements.
pub struct C4Rel {
    pub from_alias: String,
    pub to_alias: String,
    pub rel_type: String,
    pub label: String,
    pub techn: Option<String>,
    pub descr: Option<String>,
}

/// A C4 diagram with its layout hints (elements and boundaries per row).
pub struct C4Diagram {
    pub c4_type: String,
    pub title: Option<String>,
    pub shape_in_row: i64,
    pub boundary_in_row: i64,
    pub shapes: Vec<C4Shape>,
    pub boundaries: Vec<C4Boundary>,
    pub rels: Vec<C4Rel>,
}

/// The C4 model of a parsed diagram, if it is one.
#[verifier::external_body]
pub(crate) fn parsed_c4(parsed: &merman_core::ParsedDiagramRender) -> (r: Option<&merman_core::diagrams::c4::C4DiagramRenderModel>)
{
    match parsed.model() {
        merman_core::diagram::RenderSemanticModel::C4(model) => Some(model),
        _ => None,
    }
}

/// The type, title and layout hints of a C4 model.
#[verifier::external_body]
fn model_header(model: &merman_core::diagrams::c4::C4DiagramRenderModel) -> (r: (String, Option<String>, i64, i64))
{
    (model.c4_type.clone(), model.title.clone(), model.layout.c4_shape_in_row, model.layout.c4_boundary_in_row)
}

/// The `shapes` field of a C4 model.
#[verifier::external_body]
fn model_shapes(model: &merman_core::diagrams::c4::C4DiagramRenderModel) -> (r: &Vec<merman_core::diagrams::c4::C4ShapeRenderModel>)
{
    &model.shapes
}

/// The `boundaries` field of a C4 model.
#[verifier::external_body]
fn model_boundaries(model: &merman_core::diagrams::c4::C4DiagramRenderModel)
    -> (r: &Vec<merman_core::diagrams::c4::C4BoundaryRenderModel>)
{
    &model.boundaries
}

/// The `rels` field of a C4 model.
#[verifier::external_body]
fn model_rels(model: &merman_core::diagrams::c4::C4DiagramRenderModel) -> (r: &Vec<merman_core::diagrams::c4::C4RelRenderModel>)
{
    &model.rels
}

/// A parsed element, its texts read with `C4Text::as_str`.
#[verifier::external_body]
fn shape_of(shape: &merman_core::diagrams::c4::C4ShapeRenderModel) -> (r: C4Shape)
{
    C4Shape {
        alias: shape.alias.clone(),
        parent_boundary: shape.parent_boundary.clone(),
        type_c4_shape: shape.type_c4_shape.as_str().to_owned(),
        label: shape.label.as_str().to_owned(),
        techn: match &shape.techn {
            Some(text) => Some(text.as_str().to_owned()),
            None => None,
        },
        descr: match &shape.descr {
            Some(text) => Some(text.as_str().to_owned()),
            None => None,
        },
    }
}

/// A parsed boundary, its texts read with `C4Text::as_str`.
#[verifier::external_body]
fn boundary_of(boundary: &merman_core::diagrams::c4::C4BoundaryRenderModel) -> (r: C4Boundary)
{
    C4Boundary {
        alias: boundary.alias.clone(),
        parent_boundary: boundary.parent_boundary.clone(),
        label: boundary.label.as_str().to_owned(),
        ty: match &boundary.ty {
            Some(text) => Some(text.as_str().to_owned()),
            None => None,
        },
        descr: match &boundary.descr {
            Some(text) => Some(text.as_str().to_owned()),
            None => None,
        },
        node_type: boundary.node_type.clone(),
    }
}

/// A parsed relationship, its texts read with `C4Text::as_str`.
#[verifier::external_body]
fn rel_of(rel: &merman_core::diagrams::c4::C4RelRenderModel) -> (r: C4Rel)
{
    C4Rel {
        from_alias: rel.from_alias.clone(),
        to_alias: rel.to_alias.clone(),
        rel_type: rel.rel_type.clone(),
        label: rel.label.as_str().to_owned(),
        techn: match &rel.techn {
            Some(text) => Some(text.as_str().to_owned()),
            None => None,
        },
        descr: match &rel.descr {
            Some(text) => Some(text.as_str().to_owned()),
            None => None,
        },
    }
}

/// The library's copy of a parsed C4 model.
pub(crate) fn diagram_of(model: &merman_core::diagrams::c4::C4DiagramRenderModel) -> (r: C4Diagram)
{
    let (c4_type, title, shape_in_row, boundary_in_row) = model_header(model);
    let parsed_shapes = model_shapes(model);
    let mut shapes: Vec<C4Shape> = Vec::new();
    let mut i: usize = 0;
    while i < parsed_shapes.len()
        invariant
            i <= parsed_shapes@.len(),
        decreases parsed_shapes@.len() - i,
    {
        shapes.push(shape_of(&parsed_shapes[i]));
        i = i + 1;
    }
    let parsed_boundaries = model_boundaries(model);
    let mut boundaries: Vec<C4Boundary> = Vec::new();
    let mut j: usize = 0;
    while j < parsed_boundaries.len()
        invariant
            j <= parsed_boundaries@.len(),
        decreases parsed_boundaries@.len() - j,
    {
        boundaries.push(boundary_of(&parsed_boundaries[j]));
        j = j + 1;
    }
    let parsed_rels = model_rels(model);
    let mut rels: Vec<C4Rel> = Vec::new();
    let mut k: usize = 0;
    while k < parsed_rels.len()
        invariant
            k <= parsed_rels@.len(),
        decreases parsed_rels@.len() - k,
    {
        rels.push(rel_of(&parsed_rels[k]));
        k = k + 1;
    }
    C4Diagram { c4_type, title, shape_in_row, boundary_in_row, shapes, boundaries, rels }
}

/// A layout hint as a count: the value where it is positive.
pub fn positive(value: i64) -> (r: Option<usize>)
    ensures
        r == (if 0 < value <= usize::MAX { Some(value as usize) } else { None::<usize> }),
{
    if value > 0 && (value as u64) <= (usize::MAX as u64) {
        Some(value as usize)
    } else {
        None
    }
}

/// The words of an optional text joined by single spaces; `None` where there are none.
fn words_of(value: &Option<String>) -> (r: Option<String>)
    ensures
        match collapsed_option(*value) {
            Some(t) => r matches Some(s) && s@ == t,
            None => r is None,
        },
{
    match value {
        Some(v) => {
            let words = collapse_words(v.as_str());
            if words.as_str().is_empty() { None } else { Some(words) }
        },
        None => None,
    }
}

/// The alias, followed by the label where there is one that differs from it.
fn display_identity(id: &str, label: &str, charset: Charset) -> (r: String)
    ensures
        r@ == if collapsed(label@).len() == 0 || collapsed(label@) == id@ { id@ }
            else { id@ + separator_text(charset) + collapsed(label@) },
{
    let label = collapse_words(label);
    if label.as_str().is_empty() || str_eq(label.as_str(), id) {
        String::from_str(id)
    } else {
        let mut out = String::from_str(id);
        out.append(detail_separator(charset));
        out.append(label.as_str());
        out
    }
}

/// The implicit top-level boundary, which is not drawn.
fn is_global(boundary: &C4Boundary) -> (r: bool)
    ensures
        r == (boundary.alias@ == "global"@ && boundary.parent_boundary@.len() == 0),
{
    str_eq(boundary.alias.as_str(), "global") && boundary.parent_boundary.as_str().is_empty()
}

/// The parent boundary to draw an element in: none for the top level.
fn visible_parent(parent: &str) -> (r: Option<String>)
    ensures
        if parent@.len() > 0 && parent@ != "global"@ { r matches Some(p) && p@ == parent@ } else { r is None },
{
    if !parent.is_empty() && !str_eq(parent, "global") {
        Some(String::from_str(parent))
    } else {
        None
    }
}

/// `[text]`.
fn bracketed(text: &str) -> (r: String)
{
    let mut out = String::from_str("[");
    out.append(text);
    out.append("]");
    out
}

fn boundary_group(boundary: &C4Boundary, shape_in_row: i64, order: usize, charset: Charset) -> (r: BoxGroup)
    ensures
        r.order == order,
{
    let mut lines: Vec<String> = Vec::new();
    lines.push(display_identity(boundary.alias.as_str(), boundary.label.as_str(), charset));
    let kind = match &boundary.node_type {
        Some(_) => words_of(&boundary.node_type),
        None => words_of(&boundary.ty),
    };
    match kind {
        Some(kind) => lines.push(bracketed(kind.as_str())),
        None => {},
    }
    match words_of(&boundary.descr) {
        Some(description) => lines.push(description),
        None => {},
    }
    BoxGroup {
        id: boundary.alias.clone(),
        lines,
        parent: visible_parent(boundary.parent_boundary.as_str()),
        columns: positive(shape_in_row),
        span: 1,
        order,
    }
}

fn shape_node(shape: &C4Shape, order: usize, charset: Charset) -> (r: BoxNode)
    ensures
        r.order == order,
{
    let mut lines: Vec<String> = Vec::new();
    lines.push(display_identity(shape.alias.as_str(), shape.label.as_str(), charset));
    let kind = collapse_words(shape.type_c4_shape.as_str());
    if kind.as_str().len() > 0 {
        lines.push(bracketed(kind.as_str()));
    }
    match words_of(&shape.techn) {
        Some(technology) => {
            let mut line = String::from_str("technology");
            line.append(detail_separator(charset));
            line.append(technology.as_str());
            lines.push(line);
        },
        None => {},
    }
    match words_of(&shape.descr) {
        Some(description) => lines.push(description),
        None => {},
    }
    BoxNode {
        id: shape.alias.clone(),
        lines,
        dividers: Vec::new(),
        parent: visible_parent(shape.parent_boundary.as_str()),
        span: 1,
        order,
    }
}

/// `c` in lower case, for an ASCII capital.
pub open spec fn ascii_lower(c: char) -> char {
    if 'A' <= c <= 'Z' { ((c as u32) + 32) as char } else { c }
}

/// Whether `birel`, in lower case, stands in `t` at `i`.
pub open spec fn birel_at(t: Seq<char>, i: int) -> bool {
    0 <= i && i + 5 <= t.len() && forall|j: int| 0 <= j < 5 ==> ascii_lower(#[trigger] t[i + j]) == "birel"@[j]
}

/// Whether `text`, in lower case, holds `birel`.
fn mentions_birel(text: &str) -> (r: bool)
    ensures
        r == exists|i: int| #[trigger] birel_at(text@, i),
{
    proof { reveal_strlit("birel"); }
    let t = chars_of(text);
    let word = ['b', 'i', 'r', 'e', 'l'];
    assert(word@ == "birel"@);
    if t.len() < 5 {
        assert forall|i: int| !#[trigger] birel_at(text@, i) by {}
        return false;
    }
    let last = t.len() - 5;
    let mut i: usize = 0;
    while i <= last
        invariant
            last == t@.len() - 5,
            t@.len() >= 5,
            t@.len() <= usize::MAX,
            i <= last + 1,
            t@ == text@,
            word@ == "birel"@,
            forall|p: int| 0 <= p < i ==> !#[trigger] birel_at(text@, p),
        decreases last + 1 - i,
    {
        let mut k: usize = 0;
        let mut same = true;
        while k < 5
            invariant
                k <= 5,
                i <= last,
                last == t@.len() - 5,
                t@.len() >= 5,
                t@.len() <= usize::MAX,
                word@ == "birel"@,
                same == forall|j: int| 0 <= j < k ==> ascii_lower(#[trigger] t@[i + j]) == "birel"@[j],
            decreases 5 - k,
        {
            let c = t[i + k];
            let lower = if 'A' <= c && c <= 'Z' { (((c as u32) + 32) as u8) as char } else { c };
            assert(lower == ascii_lower(t@[i + k]));
            if lower != word[k] {
                same = false;
            }
            k = k + 1;
        }
        if same {
            assert(birel_at(text@, i as int));
            return true;
        }
        assert(!birel_at(text@, i as int));
        i = i + 1;
    }
    assert forall|p: int| !#[trigger] birel_at(text@, p) by {
        if 0 <= p && p < i {
        }
    }
    false
}

/// `details`, then `more` after a separator where both are there.
pub open spec fn with_detail(details: Seq<char>, more: Option<Seq<char>>, charset: Charset) -> Seq<char> {
    match more {
        Some(m) => if details.len() > 0 { details + separator_text(charset) + m } else { m },
        None => details,
    }
}

fn relation_edge(relation: &C4Rel, charset: Charset) -> (r: BoxEdge)
    ensures
        r.from == relation.from_alias,
        r.to == relation.to_alias,
        r.label@ == with_detail(with_detail(collapsed(relation.label@), collapsed_option(relation.techn), charset),
            collapsed_option(relation.descr), charset),
        r.marker_start == if exists|i: int| #[trigger] birel_at(relation.rel_type@, i) { EdgeMarker::Arrow }
            else { EdgeMarker::Absent },
        r.marker_end == EdgeMarker::Arrow,
        r.style == EdgeStyle::Solid,
        r.from_side is None,
        r.to_side is None,
{
    let mut details = collapse_words(relation.label.as_str());
    match words_of(&relation.techn) {
        Some(technology) => {
            if !details.as_str().is_empty() {
                details.append(detail_separator(charset));
            }
            details.append(technology.as_str());
        },
        None => {},
    }
    assert(details@ =~= with_detail(collapsed(relation.label@), collapsed_option(relation.techn), charset));
    let ghost first = details@;
    match words_of(&relation.descr) {
        Some(description) => {
            if !details.as_str().is_empty() {
                details.append(detail_separator(charset));
            }
            details.append(description.as_str());
        },
        None => {},
    }
    assert(details@ =~= with_detail(first, collapsed_option(relation.descr), charset));
    let bidirectional = mentions_birel(relation.rel_type.as_str());
    BoxEdge {
        from: relation.from_alias.clone(),
        to: relation.to_alias.clone(),
        label: details,
        marker_start: if bidirectional { EdgeMarker::Arrow } else { EdgeMarker::Absent },
        marker_end: EdgeMarker::Arrow,
        style: EdgeStyle::Solid,
        from_side: None,
        to_side: None,
    }
}

/// Draws a C4 diagram: the diagram type and title as the heading, the visible boundaries as
/// frames, the elements as boxes, the relationships as arrows.
/// Whether a boundary is the implicit top-level one.
pub open spec fn global_boundary(boundary: C4Boundary) -> bool {
    boundary.alias@ == "global"@ && boundary.parent_boundary@.len() == 0
}

/// The number of drawn (not top-level) boundaries among the first `n`.
pub open spec fn drawn_boundaries(boundaries: Seq<C4Boundary>, n: int) -> nat
    decreases n,
{
    if n <= 0 { 0 } else { drawn_boundaries(boundaries, n - 1) + if global_boundary(boundaries[n - 1]) { 0nat } else { 1nat } }
}

pub fn render_c4(model: &C4Diagram, opts: &MermansiOptions) -> (r: Result<String>)
    ensures
        ({
            let items = drawn_boundaries(model.boundaries@, model.boundaries@.len() as int) + model.shapes@.len();
            let count = if items > usize::MAX { usize::MAX } else { items as usize };
            &&& count > MAX_BOX_ITEMS ==> r == Err::<String, MermansiError>(MermansiError::RenderLimit {
                context: "box geometry items", requested: count, limit: MAX_BOX_ITEMS })
            &&& count <= MAX_BOX_ITEMS && model.rels@.len() > MAX_BOX_EDGES ==> r == Err::<String, MermansiError>(
                MermansiError::RenderLimit { context: "box geometry edges", requested: model.rels@.len() as usize,
                limit: MAX_BOX_EDGES })
        }),
{
    let mut groups: Vec<BoxGroup> = Vec::new();
    let mut b: usize = 0;
    while b < model.boundaries.len()
        invariant
            b <= model.boundaries@.len(),
            groups@.len() <= b,
            groups@.len() == drawn_boundaries(model.boundaries@, b as int),
        decreases model.boundaries@.len() - b,
    {
        if !is_global(&model.boundaries[b]) {
            let order = groups.len();
            groups.push(boundary_group(&model.boundaries[b], model.shape_in_row, order, opts.charset));
        }
        b = b + 1;
    }
    let node_order = groups.len();
    let mut nodes: Vec<BoxNode> = Vec::new();
    let mut s: usize = 0;
    while s < model.shapes.len()
        invariant
            s <= model.shapes@.len(),
            node_order <= model.boundaries@.len(),
            nodes@.len() == s,
        decreases model.shapes@.len() - s,
    {
        let order = node_order.saturating_add(s);
        nodes.push(shape_node(&model.shapes[s], order, opts.charset));
        s = s + 1;
    }
    let mut title = if model.c4_type.as_str().is_empty() {
        String::from_str("C4")
    } else {
        model.c4_type.clone()
    };
    match words_of(&model.title) {
        Some(diagram_title) => {
            title.append(detail_separator(opts.charset));
            title.append(diagram_title.as_str());
        },
        None => {},
    }
    let mut edges: Vec<BoxEdge> = Vec::new();
    let mut e: usize = 0;
    while e < model.rels.len()
        invariant
            e <= model.rels@.len(),
            edges@.len() == e,
        decreases model.rels@.len() - e,
    {
        edges.push(relation_edge(&model.rels[e], opts.charset));
        e = e + 1;
    }
    let columns = match positive(model.boundary_in_row) {
        Some(c) => Some(c),
        None => positive(model.shape_in_row),
    };
    let diagram = BoxDiagram {
        family: "c4",
        title: Some(title),
        nodes,
        groups,
        spacers: Vec::new(),
        edges,
        columns,
        layout: BoxLayout::Packed,
        edge_legend: EdgeLegend::Hidden,
    };
    box_geometry::render(&diagram, opts)
}

} // verus!
