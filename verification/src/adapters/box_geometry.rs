//! Shared bounded routing geometry for node-and-relationship diagrams: grid points and
//! rectangles, the weighted edge router, path compression and the edge markers drawn at path
//! ends.

use vstd::prelude::*;
use crate::canvas::{
    Canvas, CanvasView, index_of, text_placed, cell_text, char_text, draw_box, draw_horizontal_line, draw_vertical_line,
};
use crate::error::{MermansiError, Result};
use crate::output::byte_len;
use crate::options::{Charset, MermansiOptions};
use crate::ansi::{sanitize_label_text, sanitized};
use crate::text::{chars_of, string_of, extend_chars, graphemes, str_width, is_white_space, char_is_whitespace};

verus! {

/// Maximum work the router may spend on one diagram.
pub const MAX_ROUTE_WORK: usize = 2_000_000;
/// Maximum number of boxes in one diagram.
pub const MAX_BOX_ITEMS: usize = 10_000;
/// Maximum number of edges in one diagram.
pub const MAX_BOX_EDGES: usize = 20_000;
/// The extra cost of routing through a cell that already shows something.
pub const OCCUPIED_ROUTE_PENALTY: usize = 12;

/// A grid cell.
#[derive(Clone, Copy, Debug, PartialEq, Eq, Structural)]
pub struct Point {
    pub x: usize,
    pub y: usize,
}

impl Point {
    pub fn new(x: usize, y: usize) -> (r: Self)
        ensures
            r == (Point { x, y }),
    {
        Point { x, y }
    }
}

/// A rectangle of grid cells.
#[derive(Clone, Copy, Debug, PartialEq, Eq, Structural)]
pub struct Rect {
    pub x: usize,
    pub y: usize,
    pub width: usize,
    pub height: usize,
}

impl Rect {
    /// The rightmost column.
    pub fn right(self) -> (r: usize)
        requires
            1 <= self.width,
            self.x + self.width <= usize::MAX,
        ensures
            r == self.x + self.width - 1,
    {
        self.x + self.width - 1
    }

    /// The bottom row.
    pub fn bottom(self) -> (r: usize)
        requires
            1 <= self.height,
            self.y + self.height <= usize::MAX,
        ensures
            r == self.y + self.height - 1,
    {
        self.y + self.height - 1
    }

    /// The middle cell, rounding towards the bottom right.
    pub fn center(self) -> (r: Point)
        requires
            self.x + self.width / 2 <= usize::MAX,
            self.y + self.height / 2 <= usize::MAX,
        ensures
            r == (Point { x: (self.x + self.width / 2) as usize, y: (self.y + self.height / 2) as usize }),
    {
        Point::new(self.x + self.width / 2, self.y + self.height / 2)
    }
}

/// A side of a box.
#[derive(Clone, Copy, Debug, PartialEq, Eq, Structural)]
pub enum Side {
    Left,
    Right,
    Top,
    Bottom,
}

/// The side a Mermaid port letter names, in either case.
pub open spec fn port_side(port: char) -> Option<Side> {
    if port == 'L' || port == 'l' {
        Some(Side::Left)
    } else if port == 'R' || port == 'r' {
        Some(Side::Right)
    } else if port == 'T' || port == 't' {
        Some(Side::Top)
    } else if port == 'B' || port == 'b' {
        Some(Side::Bottom)
    } else {
        None::<Side>
    }
}

impl Side {
    /// The side a Mermaid port letter names, in either case.
    pub fn from_port(port: char) -> (r: Option<Side>)
        ensures
            r == port_side(port),
    {
        if port == 'L' || port == 'l' {
            Some(Side::Left)
        } else if port == 'R' || port == 'r' {
            Some(Side::Right)
        } else if port == 'T' || port == 't' {
            Some(Side::Top)
        } else if port == 'B' || port == 'b' {
            Some(Side::Bottom)
        } else {
            None
        }
    }
}

/// The four sides in their fixed order.
pub open spec fn all_sides() -> Seq<Side> {
    seq![Side::Left, Side::Right, Side::Top, Side::Bottom]
}

fn side_list() -> (r: Vec<Side>)
    ensures
        r@ == all_sides(),
{
    let r = vec![Side::Left, Side::Right, Side::Top, Side::Bottom];
    proof {
        assert(r@ =~= all_sides());
    }
    r
}

/// The direction a layered diagram flows in.
#[derive(Clone, Copy, Debug, PartialEq, Eq, Structural)]
pub enum BoxDirection {
    Tb,
    Bt,
    Lr,
    Rl,
}

/// The ASCII upper case of a character.
pub open spec fn ascii_upper(c: char) -> char {
    if 'a' <= c <= 'z' { ((c as u8) - 32) as u8 as char } else { c }
}

pub open spec fn upper_is(s: Seq<char>, word: Seq<char>) -> bool {
    s.len() == word.len() && forall|i: int| 0 <= i < s.len() ==> ascii_upper(#[trigger] s[i]) == word[i]
}

fn upper_equals(s: &Vec<char>, a: char, b: char) -> (r: bool)
    ensures
        r == upper_is(s@, seq![a, b]),
{
    if s.len() != 2 {
        return false;
    }
    let c0 = if 'a' <= s[0] && s[0] <= 'z' { ((s[0] as u8) - 32) as char } else { s[0] };
    let c1 = if 'a' <= s[1] && s[1] <= 'z' { ((s[1] as u8) - 32) as char } else { s[1] };
    let r = c0 == a && c1 == b;
    proof {
        if r {
            assert forall|i: int| 0 <= i < s@.len() implies ascii_upper(#[trigger] s@[i]) == seq![a, b][i] by {
                if i == 0 {} else {}
            }
        } else {
            if c0 != a {
                assert(ascii_upper(s@[0]) != seq![a, b][0]);
            } else {
                assert(ascii_upper(s@[1]) != seq![a, b][1]);
            }
        }
    }
    r
}

impl BoxDirection {
    /// The direction a Mermaid direction keyword names, ignoring ASCII case; top-to-bottom
    /// for anything unknown.
    pub fn from_str(direction: &str) -> (r: BoxDirection)
        ensures
            r == (if upper_is(direction@, seq!['B', 'T']) {
                BoxDirection::Bt
            } else if upper_is(direction@, seq!['L', 'R']) {
                BoxDirection::Lr
            } else if upper_is(direction@, seq!['R', 'L']) {
                BoxDirection::Rl
            } else {
                BoxDirection::Tb
            }),
    {
        let chars = crate::text::chars_of(direction);
        if upper_equals(&chars, 'B', 'T') {
            BoxDirection::Bt
        } else if upper_equals(&chars, 'L', 'R') {
            BoxDirection::Lr
        } else if upper_equals(&chars, 'R', 'L') {
            BoxDirection::Rl
        } else {
            BoxDirection::Tb
        }
    }

    /// The sides an edge leaves its source by and enters its target by in this direction.
    pub open spec fn sides_of(self) -> (Side, Side) {
        match self {
            BoxDirection::Tb => (Side::Bottom, Side::Top),
            BoxDirection::Bt => (Side::Top, Side::Bottom),
            BoxDirection::Lr => (Side::Right, Side::Left),
            BoxDirection::Rl => (Side::Left, Side::Right),
        }
    }

    /// The sides an edge leaves its source by and enters its target by in this direction.
    pub fn edge_sides(self) -> (r: (Side, Side))
        ensures
            r == self.sides_of(),
    {
        match self {
            BoxDirection::Tb => (Side::Bottom, Side::Top),
            BoxDirection::Bt => (Side::Top, Side::Bottom),
            BoxDirection::Lr => (Side::Right, Side::Left),
            BoxDirection::Rl => (Side::Left, Side::Right),
        }
    }
}

/// The marker drawn at one end of an edge.
#[derive(Clone, Copy, Debug, PartialEq, Eq, Structural)]
pub enum EdgeMarker {
    Absent,
    Arrow,
    OpenTriangle,
    OpenDiamond,
    FilledDiamond,
    Circle,
    Cross,
}

/// How an edge's path is drawn.
#[derive(Clone, Copy, Debug, PartialEq, Eq, Structural)]
pub enum EdgeStyle {
    Solid,
    Dotted,
}

/// A relationship between two boxes.
#[derive(Clone, Debug)]
pub struct BoxEdge {
    pub from: String,
    pub to: String,
    pub label: String,
    pub marker_start: EdgeMarker,
    pub marker_end: EdgeMarker,
    pub style: EdgeStyle,
    pub from_side: Option<Side>,
    pub to_side: Option<Side>,
}

/// An edge as plain values.
pub struct EdgeView {
    pub from: Seq<char>,
    pub to: Seq<char>,
    pub label: Seq<char>,
    pub marker_start: EdgeMarker,
    pub marker_end: EdgeMarker,
    pub style: EdgeStyle,
    pub from_side: Option<Side>,
    pub to_side: Option<Side>,
}

impl View for BoxEdge {
    type V = EdgeView;

    open spec fn view(&self) -> EdgeView {
        EdgeView {
            from: self.from@,
            to: self.to@,
            label: self.label@,
            marker_start: self.marker_start,
            marker_end: self.marker_end,
            style: self.style,
            from_side: self.from_side,
            to_side: self.to_side,
        }
    }
}

impl BoxEdge {
    /// A copy with the same contents.
    pub fn duplicate(&self) -> (r: BoxEdge)
        ensures
            r@ == self@,
    {
        BoxEdge {
            from: self.from.clone(),
            to: self.to.clone(),
            label: self.label.clone(),
            marker_start: self.marker_start,
            marker_end: self.marker_end,
            style: self.style,
            from_side: self.from_side,
            to_side: self.to_side,
        }
    }
}

/// The work the router has spent.
#[derive(Debug)]
pub struct RouteWorkBudget {
    used: usize,
}

impl RouteWorkBudget {
    pub closed spec fn used(&self) -> usize {
        self.used
    }

    pub fn new() -> (r: Self)
        ensures
            r.used() == 0,
    {
        RouteWorkBudget { used: 0 }
    }

    /// Spends one unit of work; fails once more than [`MAX_ROUTE_WORK`] units are spent.
    pub fn consume(&mut self) -> (r: Result<()>)
        ensures
            final(self).used() == (if old(self).used() == usize::MAX { usize::MAX } else { (old(self).used() + 1) as usize }),
            final(self).used() > MAX_ROUTE_WORK ==> r == Err::<(), MermansiError>(MermansiError::RenderLimit {
                context: "route work",
                requested: final(self).used(),
                limit: MAX_ROUTE_WORK,
            }),
            final(self).used() <= MAX_ROUTE_WORK ==> r is Ok,
    {
        self.used = self.used.saturating_add(1);
        if self.used > MAX_ROUTE_WORK {
            return Err(MermansiError::RenderLimit { context: "route work", requested: self.used, limit: MAX_ROUTE_WORK });
        }
        Ok(())
    }
}

/// Refuses diagrams with more boxes or edges than the layout bounds allow (boxes first).
pub fn ensure_inventory(item_count: usize, edge_count: usize) -> (r: Result<()>)
    ensures
        item_count > MAX_BOX_ITEMS ==> r == Err::<(), MermansiError>(MermansiError::RenderLimit {
            context: "box geometry items",
            requested: item_count,
            limit: MAX_BOX_ITEMS,
        }),
        item_count <= MAX_BOX_ITEMS && edge_count > MAX_BOX_EDGES ==> r == Err::<(), MermansiError>(
            MermansiError::RenderLimit { context: "box geometry edges", requested: edge_count, limit: MAX_BOX_EDGES }),
        item_count <= MAX_BOX_ITEMS && edge_count <= MAX_BOX_EDGES ==> r is Ok,
{
    if item_count > MAX_BOX_ITEMS {
        return Err(MermansiError::RenderLimit {
            context: "box geometry items",
            requested: item_count,
            limit: MAX_BOX_ITEMS,
        });
    }
    if edge_count > MAX_BOX_EDGES {
        return Err(MermansiError::RenderLimit {
            context: "box geometry edges",
            requested: edge_count,
            limit: MAX_BOX_EDGES,
        });
    }
    Ok(())
}

/// The row-major index of `point` on a grid `width` cells wide.
pub fn grid_index(point: Point, width: usize) -> (r: usize)
    requires
        point.y * width + point.x <= usize::MAX,
    ensures
        r == point.y * width + point.x,
{
    point.y * width + point.x
}

/// The two values in ascending order.
pub fn ordered(first: usize, second: usize) -> (r: (usize, usize))
    ensures
        r == (if first <= second { (first, second) } else { (second, first) }),
{
    if first <= second { (first, second) } else { (second, first) }
}

/// Whether `b` continues the straight run from `a` to `c`... or rather whether the three
/// points share a column or a row.
pub open spec fn collinear(a: Point, b: Point, c: Point) -> bool {
    (a.x == b.x && b.x == c.x) || (a.y == b.y && b.y == c.y)
}

/// `out` with its trailing points removed while they would sit in line with `p`.
pub open spec fn trim_collinear(out: Seq<Point>, p: Point) -> Seq<Point>
    decreases out.len(),
{
    if out.len() >= 2 && collinear(out[out.len() - 2], out[out.len() - 1], p) {
        trim_collinear(out.drop_last(), p)
    } else {
        out
    }
}

/// One step of path compression: a repeated point is skipped, otherwise the point is appended
/// after the points it makes redundant are removed.
pub open spec fn compress_step(out: Seq<Point>, p: Point) -> Seq<Point> {
    if out.len() > 0 && out.last() == p {
        out
    } else {
        trim_collinear(out, p).push(p)
    }
}

/// The compression of the first `n` points.
pub open spec fn compressed(ps: Seq<Point>, n: int) -> Seq<Point>
    decreases n,
{
    if n <= 0 || n > ps.len() {
        seq![]
    } else {
        compress_step(compressed(ps, n - 1), ps[n - 1])
    }
}

/// No three consecutive points share a row or a column: every inner point is a turn.
pub open spec fn only_turns(out: Seq<Point>) -> bool {
    forall|i: int| 0 <= i && i + 2 < out.len() ==> !collinear(#[trigger] out[i], out[i + 1], out[i + 2])
}

proof fn lemma_trim_collinear(out: Seq<Point>, p: Point)
    requires
        only_turns(out),
    ensures
        ({
            let t = trim_collinear(out, p);
            &&& only_turns(t)
            &&& t.len() <= out.len()
            &&& t =~= out.subrange(0, t.len() as int)
            &&& out.len() >= 1 ==> t.len() >= 1
            &&& t.len() >= 2 ==> !collinear(t[t.len() - 2], t[t.len() - 1], p)
        }),
    decreases out.len(),
{
    if out.len() >= 2 && collinear(out[out.len() - 2], out[out.len() - 1], p) {
        let d = out.drop_last();
        assert forall|i: int| 0 <= i && i + 2 < d.len() implies !collinear(#[trigger] d[i], d[i + 1], d[i + 2]) by {
            assert(d[i] == out[i]);
            assert(!collinear(out[i], out[i + 1], out[i + 2]));
        }
        lemma_trim_collinear(d, p);
    }
}

/// Compression keeps the first and last points and leaves only turning points between them.
pub proof fn lemma_compressed_turns(ps: Seq<Point>, n: int)
    requires
        0 <= n <= ps.len(),
    ensures
        only_turns(compressed(ps, n)),
        n >= 1 ==> compressed(ps, n).len() >= 1 && compressed(ps, n)[0] == ps[0]
            && compressed(ps, n).last() == ps[n - 1],
        n == 0 ==> compressed(ps, n).len() == 0,
    decreases n,
{
    if n > 0 {
        lemma_compressed_turns(ps, n - 1);
        let out = compressed(ps, n - 1);
        let p = ps[n - 1];
        if !(out.len() > 0 && out.last() == p) {
            lemma_trim_collinear(out, p);
            let t = trim_collinear(out, p);
            let r = t.push(p);
            assert forall|i: int| 0 <= i && i + 2 < r.len() implies !collinear(#[trigger] r[i], r[i + 1], r[i + 2]) by {
                if i + 2 < t.len() {
                    assert(r[i] == t[i] && r[i + 1] == t[i + 1] && r[i + 2] == t[i + 2]);
                } else {
                    assert(r[i] == t[t.len() - 2] && r[i + 1] == t[t.len() - 1] && r[i + 2] == p);
                }
            }
            if n >= 2 {
                assert(t[0] == out[0]);
            }
        }
    }
}

/// The path with repeated points and points in the middle of straight runs removed.
pub fn compress_path(points: Vec<Point>) -> (r: Vec<Point>)
    ensures
        r@ == compressed(points@, points@.len() as int),
        only_turns(r@),
        points@.len() == 0 ==> r@.len() == 0,
        points@.len() > 0 ==> r@.len() > 0 && r@[0] == points@[0] && r@.last() == points@.last(),
{
    let mut normalized: Vec<Point> = Vec::new();
    let mut k: usize = 0;
    while k < points.len()
        invariant
            k <= points@.len(),
            normalized@ == compressed(points@, k as int),
        decreases points@.len() - k,
    {
        let point = points[k];
        let n = normalized.len();
        if n > 0 && normalized[n - 1] == point {
            k = k + 1;
            continue;
        }
        let ghost start = normalized@;
        proof {
            assert(!(start.len() > 0 && start.last() == point));
            assert(compressed(points@, k + 1) == trim_collinear(start, point).push(point));
        }
        let mut more = true;
        while more && normalized.len() >= 2
            invariant
                trim_collinear(start, point) == trim_collinear(normalized@, point),
                !more ==> trim_collinear(normalized@, point) == normalized@,
            decreases normalized@.len() + (if more { 1int } else { 0int }),
        {
            let previous = normalized[normalized.len() - 2];
            let current = normalized[normalized.len() - 1];
            if (previous.x == current.x && current.x == point.x) || (previous.y == current.y && current.y == point.y) {
                normalized.pop();
            } else {
                more = false;
            }
        }
        normalized.push(point);
        k = k + 1;
    }
    proof {
        lemma_compressed_turns(points@, points@.len() as int);
    }
    normalized
}

/// The points from `start` to `cur` along the predecessor links, in reverse (from `cur`);
/// `None` where a link is missing or leaves the grid.
pub open spec fn chain_back(preds: Seq<usize>, start: usize, width: usize, cur: usize, fuel: nat) -> Option<Seq<Point>>
    decreases fuel,
{
    let here = Point { x: (cur % width) as usize, y: (cur / width) as usize };
    if cur == start {
        Some(seq![here])
    } else if fuel == 0 || cur >= preds.len() || preds[cur as int] == usize::MAX {
        None
    } else {
        match chain_back(preds, start, width, preds[cur as int], (fuel - 1) as nat) {
            Some(rest) => Some(seq![here] + rest),
            None => None,
        }
    }
}

/// Following the links from `cur` reaches `start`, a missing link, or the edge of the grid
/// within `fuel` steps.
pub open spec fn chain_ends(preds: Seq<usize>, start: usize, cur: usize, fuel: nat) -> bool
    decreases fuel,
{
    cur == start || cur >= preds.len() || preds[cur as int] == usize::MAX
        || (fuel > 0 && chain_ends(preds, start, preds[cur as int], (fuel - 1) as nat))
}

/// The points from `start` to `target` along the links, in reverse, for links whose chain from
/// `target` ends.
pub open spec fn path_back(preds: Seq<usize>, start: usize, width: usize, target: usize) -> Option<Seq<Point>> {
    chain_back(preds, start, width, target, choose|f: nat| chain_ends(preds, start, target, f))
}

/// Arrows linking the items `prefix-0`, `prefix-1`, ... in a chain, each from one item to the
/// next, leaving and entering by the sides of `direction`.
pub fn directed_chain_edges(prefix: &str, count: usize, direction: BoxDirection) -> (r: Vec<BoxEdge>)
    ensures
        r@.len() == if count == 0 { 0 } else { count - 1 },
        forall|i: int| 0 <= i < r@.len() ==> (#[trigger] r@[i]).marker_end == EdgeMarker::Arrow
            && r@[i].marker_start == EdgeMarker::Absent && r@[i].from_side == Some(direction.sides_of().0)
            && r@[i].to_side == Some(direction.sides_of().1),
{
    let (from_side, to_side) = direction.edge_sides();
    let mut edges: Vec<BoxEdge> = Vec::new();
    let mut index: usize = 1;
    while index < count
        invariant
            1 <= index,
            index <= count || index == 1,
            edges@.len() == index - 1,
            (from_side, to_side) == direction.sides_of(),
            forall|i: int| 0 <= i < edges@.len() ==> (#[trigger] edges@[i]).marker_end == EdgeMarker::Arrow
                && edges@[i].marker_start == EdgeMarker::Absent && edges@[i].from_side == Some(from_side)
                && edges@[i].to_side == Some(to_side),
        decreases count - index,
    {
        let mut from = String::from_str(prefix);
        from.append("-");
        let previous = crate::adapters::json::decimal_text(index - 1);
        from.append(previous.as_str());
        let mut to = String::from_str(prefix);
        to.append("-");
        let current = crate::adapters::json::decimal_text(index);
        to.append(current.as_str());
        edges.push(BoxEdge {
            from,
            to,
            label: String::new(),
            marker_start: EdgeMarker::Absent,
            marker_end: EdgeMarker::Arrow,
            style: EdgeStyle::Solid,
            from_side: Some(from_side),
            to_side: Some(to_side),
        });
        index = index + 1;
    }
    edges
}

/// The path from `start` to `target` that the predecessor links describe, from `start`.
pub fn reconstruct_path(start: usize, target: usize, width: usize, predecessors: &Vec<usize>) -> (r: Option<Vec<Point>>)
    requires
        width > 0,
        chain_terminates(predecessors@, start, target),
    ensures
        match path_back(predecessors@, start, width, target) {
            Some(s) => r matches Some(v) && v@ == s.reverse(),
            None => r is None,
        },
{
    let ghost preds = predecessors@;
    let ghost mut fuel: nat = choose|f: nat| chain_ends(preds, start, target, f);
    let ghost total = chain_back(preds, start, width, target, fuel);
    let mut current = target;
    let mut reversed: Vec<Point> = Vec::new();
    while current != start
        invariant
            width > 0,
            preds == predecessors@,
            chain_ends(preds, start, current, fuel),
            total == path_back(preds, start, width, target),
            total == match chain_back(preds, start, width, current, fuel) {
                Some(rest) => Some(reversed@ + rest),
                None => None::<Seq<Point>>,
            },
        decreases fuel,
    {
        let ghost here = Point { x: (current % width) as usize, y: (current / width) as usize };
        reversed.push(Point::new(current % width, current / width));
        if current >= predecessors.len() {
            return None;
        }
        let next = predecessors[current];
        if next == usize::MAX {
            return None;
        }
        proof {
            assert(fuel > 0);
            match chain_back(preds, start, width, next, (fuel - 1) as nat) {
                Some(rest) => {
                    assert(reversed@ + rest =~= (reversed@.drop_last()) + (seq![here] + rest));
                },
                None => {},
            }
            fuel = (fuel - 1) as nat;
        }
        current = next;
    }
    reversed.push(Point::new(start % width, start / width));
    let mut forward: Vec<Point> = Vec::new();
    let mut i = reversed.len();
    while i > 0
        invariant
            i <= reversed@.len(),
            forward@ == reversed@.subrange(i as int, reversed@.len() as int).reverse(),
        decreases i,
    {
        i = i - 1;
        forward.push(reversed[i]);
        proof {
            assert(reversed@.subrange(i as int, reversed@.len() as int).reverse()
                =~= reversed@.subrange(i + 1, reversed@.len() as int).reverse().push(reversed@[i as int]));
        }
    }
    proof {
        assert(reversed@.subrange(0, reversed@.len() as int) =~= reversed@);
    }
    Some(forward)
}

/// The marker a merged edge keeps at one end: its own, else the reverse edge's.
pub open spec fn combined_marker(existing: EdgeMarker, reverse: EdgeMarker) -> EdgeMarker {
    if existing == EdgeMarker::Absent { reverse } else { existing }
}

pub fn combine_marker(existing: EdgeMarker, reverse: EdgeMarker) -> (r: EdgeMarker)
    ensures
        r == combined_marker(existing, reverse),
{
    match existing {
        EdgeMarker::Absent => reverse,
        _ => existing,
    }
}

/// Whether `f` runs opposite to `e` between the same boxes and sides.
pub open spec fn reverses(e: EdgeView, f: EdgeView) -> bool {
    f.from == e.to && f.to == e.from && f.from_side == e.to_side && f.to_side == e.from_side
}

/// The first edge at or after `j` that is not merged yet and runs opposite to edge `i`.
pub open spec fn reverse_partner(es: Seq<EdgeView>, merged: Seq<bool>, i: int, j: int) -> Option<int>
    decreases es.len() - j,
{
    if j < 0 || j >= es.len() {
        None
    } else if !merged[j] && reverses(es[i], es[j]) {
        Some(j)
    } else {
        reverse_partner(es, merged, i, j + 1)
    }
}

/// Edges from `i` on merged greedily in source order: each edge not merged yet absorbs the
/// first later opposite edge, taking its markers where it has none.
pub open spec fn coalesce_from(es: Seq<EdgeView>, merged: Seq<bool>, i: int, out: Seq<EdgeView>) -> Seq<EdgeView>
    decreases es.len() - i,
{
    if i < 0 || i >= es.len() {
        out
    } else if merged[i] {
        coalesce_from(es, merged, i + 1, out)
    } else {
        let e = es[i];
        let m1 = merged.update(i, true);
        match (if e.from != e.to { reverse_partner(es, m1, i, i + 1) } else { None }) {
            Some(j) => coalesce_from(es, m1.update(j, true), i + 1, out.push(EdgeView {
                marker_start: combined_marker(e.marker_start, es[j].marker_end),
                marker_end: combined_marker(e.marker_end, es[j].marker_start),
                ..e
            })),
            None => coalesce_from(es, m1, i + 1, out.push(e)),
        }
    }
}

/// The edges with each pair of opposite edges drawn once.
pub open spec fn coalesced(es: Seq<EdgeView>) -> Seq<EdgeView> {
    coalesce_from(es, Seq::new(es.len(), |k: int| false), 0, seq![])
}

pub open spec fn edge_views(edges: Seq<BoxEdge>) -> Seq<EdgeView> {
    edges.map_values(|e: BoxEdge| e@)
}

fn side_opt_eq(a: Option<Side>, b: Option<Side>) -> (r: bool)
    ensures
        r == (a == b),
{
    match (a, b) {
        (None, None) => true,
        (Some(x), Some(y)) => x == y,
        _ => false,
    }
}

fn is_reverse(e: &BoxEdge, f: &BoxEdge) -> (r: bool)
    ensures
        r == reverses(e@, f@),
{
    f.from == e.to && f.to == e.from && side_opt_eq(f.from_side, e.to_side) && side_opt_eq(f.to_side, e.from_side)
}

/// Merges each edge with the first later edge that runs opposite to it, so that the pair is
/// routed once with both ends' markers.
pub fn coalesced_geometry_edges(edges: &Vec<BoxEdge>) -> (r: Vec<BoxEdge>)
    ensures
        edge_views(r@) == coalesced(edge_views(edges@)),
{
    let ghost es = edge_views(edges@);
    let n = edges.len();
    let mut merged: Vec<bool> = Vec::new();
    let mut k: usize = 0;
    while k < n
        invariant
            k <= n,
            n == edges@.len(),
            merged@.len() == k,
            forall|t: int| 0 <= t < k ==> merged@[t] == false,
        decreases n - k,
    {
        merged.push(false);
        k = k + 1;
    }
    proof {
        assert(merged@ =~= Seq::new(es.len(), |t: int| false));
    }
    let mut geometry: Vec<BoxEdge> = Vec::new();
    proof {
        assert(edge_views(geometry@) =~= seq![]);
    }
    let mut i: usize = 0;
    while i < n
        invariant
            i <= n,
            n == edges@.len(),
            es == edge_views(edges@),
            merged@.len() == n,
            coalesced(es) == coalesce_from(es, merged@, i as int, edge_views(geometry@)),
        decreases n - i,
    {
        if merged[i] {
            i = i + 1;
            continue;
        }
        merged.set(i, true);
        let edge = &edges[i];
        let mut combined = edge.duplicate();
        let ghost m1 = merged@;
        let mut partner: Option<usize> = None;
        proof {
            assert(es[i as int] == edges@[i as int]@);
        }
        if edge.from != edge.to {
            let mut j = i + 1;
            while j < n
                invariant_except_break
                    partner is None,
                invariant
                    i < n,
                    i + 1 <= j <= n,
                    n == edges@.len(),
                    es == edge_views(edges@),
                    es[i as int] == edge@,
                    merged@ == m1,
                    m1.len() == n,
                    reverse_partner(es, m1, i as int, i + 1) == reverse_partner(es, m1, i as int, j as int),
                ensures
                    partner matches Some(p) ==> p < n && reverse_partner(es, m1, i as int, i + 1) == Some(p as int),
                    partner is None ==> reverse_partner(es, m1, i as int, i + 1) is None,
                decreases n - j,
            {
                proof {
                    assert(es[j as int] == edges@[j as int]@);
                }
                if !merged[j] && is_reverse(edge, &edges[j]) {
                    partner = Some(j);
                    break;
                }
                j = j + 1;
            }
        }
        let ghost before = edge_views(geometry@);
        match partner {
            Some(j) => {
                merged.set(j, true);
                let reverse = &edges[j];
                combined.marker_start = combine_marker(combined.marker_start, reverse.marker_end);
                combined.marker_end = combine_marker(combined.marker_end, reverse.marker_start);
            },
            None => {},
        }
        let ghost cv = combined@;
        geometry.push(combined);
        proof {
            assert(edge_views(geometry@) =~= before.push(cv));
            assert(es[i as int] == edges@[i as int]@);
        }
        i = i + 1;
    }
    geometry
}

/// Where an edge meets a box side: the border cell and the cell just outside it.
#[derive(Clone, Copy, Debug, PartialEq, Eq, Structural)]
pub struct Endpoint {
    pub border: Point,
    pub outside: Point,
}

/// A rectangle whose corners and middle can be computed without overflow.
pub open spec fn rect_ok(r: Rect) -> bool {
    &&& 1 <= r.width
    &&& 1 <= r.height
    &&& r.x + r.width <= usize::MAX
    &&& r.y + r.height <= usize::MAX
}

pub open spec fn center_of(r: Rect) -> Point {
    Point { x: (r.x + r.width / 2) as usize, y: (r.y + r.height / 2) as usize }
}

/// The border cell in the middle of `side`, the cell beyond it, if both lie on the grid.
pub open spec fn endpoint_of(r: Rect, side: Side, width: usize, height: usize) -> Option<Endpoint> {
    let c = center_of(r);
    let border = match side {
        Side::Left => Point { x: r.x, y: c.y },
        Side::Right => Point { x: (r.x + r.width - 1) as usize, y: c.y },
        Side::Top => Point { x: c.x, y: r.y },
        Side::Bottom => Point { x: c.x, y: (r.y + r.height - 1) as usize },
    };
    let outside: Option<Point> = match side {
        Side::Left => if border.x >= 1 { Some(Point { x: (border.x - 1) as usize, y: border.y }) } else { None },
        Side::Right => if border.x + 1 <= usize::MAX { Some(Point { x: (border.x + 1) as usize, y: border.y }) } else { None },
        Side::Top => if border.y >= 1 { Some(Point { x: border.x, y: (border.y - 1) as usize }) } else { None },
        Side::Bottom => if border.y + 1 <= usize::MAX { Some(Point { x: border.x, y: (border.y + 1) as usize }) } else { None },
    };
    match outside {
        Some(o) => if border.x < width && border.y < height && o.x < width && o.y < height {
            Some(Endpoint { border, outside: o })
        } else {
            None
        },
        None => None,
    }
}

/// The endpoint of `rect` on `side`, if it and the cell beyond it lie on the grid.
pub fn endpoint(rect: Rect, side: Side, width: usize, height: usize) -> (r: Option<Endpoint>)
    requires
        rect_ok(rect),
    ensures
        r == endpoint_of(rect, side, width, height),
{
    let c = rect.center();
    let border = match side {
        Side::Left => Point::new(rect.x, c.y),
        Side::Right => Point::new(rect.right(), c.y),
        Side::Top => Point::new(c.x, rect.y),
        Side::Bottom => Point::new(c.x, rect.bottom()),
    };
    let outside = match side {
        Side::Left => match border.x.checked_sub(1) {
            Some(x) => Point::new(x, border.y),
            None => return None,
        },
        Side::Right => match border.x.checked_add(1) {
            Some(x) => Point::new(x, border.y),
            None => return None,
        },
        Side::Top => match border.y.checked_sub(1) {
            Some(y) => Point::new(border.x, y),
            None => return None,
        },
        Side::Bottom => match border.y.checked_add(1) {
            Some(y) => Point::new(border.x, y),
            None => return None,
        },
    };
    if border.x < width && border.y < height && outside.x < width && outside.y < height {
        Some(Endpoint { border, outside })
    } else {
        None
    }
}

/// Every (source side, target side) pair, row by row over the fixed side order.
pub open spec fn all_side_pairs() -> Seq<(Side, Side)> {
    Seq::new(16, |k: int| (all_sides()[k / 4], all_sides()[k % 4]))
}

/// `pairs` followed by each of the pairs `k..` of [`all_side_pairs`] that it lacks.
pub open spec fn extend_pairs(pairs: Seq<(Side, Side)>, k: int) -> Seq<(Side, Side)>
    decreases 16 - k,
{
    if k < 0 || k >= 16 {
        pairs
    } else {
        let p = all_side_pairs()[k];
        extend_pairs(if pairs.contains(p) { pairs } else { pairs.push(p) }, k + 1)
    }
}

pub open spec fn abs_diff(a: int, b: int) -> int {
    if a <= b { b - a } else { a - b }
}

/// The side pairs to try for an edge from `source` to `target`: facing sides along the
/// dominant axis first, then along the other axis, then every other pair.
pub open spec fn side_preference(source: Rect, target: Rect) -> Seq<(Side, Side)> {
    let s = center_of(source);
    let t = center_of(target);
    let horizontal = if s.x <= t.x { (Side::Right, Side::Left) } else { (Side::Left, Side::Right) };
    let vertical = if s.y <= t.y { (Side::Bottom, Side::Top) } else { (Side::Top, Side::Bottom) };
    let first = if abs_diff(s.x as int, t.x as int) >= abs_diff(s.y as int, t.y as int) {
        seq![horizontal, vertical]
    } else {
        seq![vertical, horizontal]
    };
    extend_pairs(first, 0)
}

fn pair_list_contains(pairs: &Vec<(Side, Side)>, pair: (Side, Side)) -> (r: bool)
    ensures
        r == pairs@.contains(pair),
{
    let mut i: usize = 0;
    while i < pairs.len()
        invariant
            i <= pairs@.len(),
            forall|j: int| 0 <= j < i ==> pairs@[j] != pair,
        decreases pairs@.len() - i,
    {
        if pairs[i].0 == pair.0 && pairs[i].1 == pair.1 {
            assert(pairs@[i as int] == pair);
            return true;
        }
        i = i + 1;
    }
    false
}

/// The side pairs in the order the router tries them.
pub fn ordered_side_pairs(source: Rect, target: Rect) -> (r: Vec<(Side, Side)>)
    requires
        rect_ok(source),
        rect_ok(target),
    ensures
        r@ == side_preference(source, target),
{
    let sc = source.center();
    let tc = target.center();
    let horizontal = if sc.x <= tc.x { (Side::Right, Side::Left) } else { (Side::Left, Side::Right) };
    let vertical = if sc.y <= tc.y { (Side::Bottom, Side::Top) } else { (Side::Top, Side::Bottom) };
    let dx = if sc.x <= tc.x { tc.x - sc.x } else { sc.x - tc.x };
    let dy = if sc.y <= tc.y { tc.y - sc.y } else { sc.y - tc.y };
    let mut pairs = if dx >= dy { vec![horizontal, vertical] } else { vec![vertical, horizontal] };
    let ghost first = pairs@;
    proof {
        if dx >= dy {
            assert(first =~= seq![horizontal, vertical]);
        } else {
            assert(first =~= seq![vertical, horizontal]);
        }
    }
    let sides = side_list();
    let mut a: usize = 0;
    while a < 4
        invariant
            a <= 4,
            sides@ == all_sides(),
            extend_pairs(first, 0) == extend_pairs(pairs@, 4 * a),
        decreases 4 - a,
    {
        let mut b: usize = 0;
        while b < 4
            invariant
                a < 4,
                b <= 4,
                sides@ == all_sides(),
                extend_pairs(first, 0) == extend_pairs(pairs@, 4 * a + b),
            decreases 4 - b,
        {
            let pair = (sides[a], sides[b]);
            proof {
                assert(all_side_pairs()[4 * a + b] == pair);
            }
            if !pair_list_contains(&pairs, pair) {
                pairs.push(pair);
            }
            b = b + 1;
        }
        a = a + 1;
    }
    pairs
}

/// The glyph of `marker` at a path end whose next point is `neighbor`, with the cell it is
/// drawn in: the cell one step from the end towards the path.
pub open spec fn marker_at(end: Point, neighbor: Point, marker: EdgeMarker, charset: Charset) -> (Point, char) {
    let unicode = charset == Charset::Unicode;
    let dir = if end.x < neighbor.x { 0int } else if end.x > neighbor.x { 1int } else if end.y < neighbor.y { 2int } else { 3int };
    let pick = |l: char, r: char, u: char, d: char| if dir == 0 { l } else if dir == 1 { r } else if dir == 2 { u } else { d };
    let glyph = match marker {
        EdgeMarker::Absent => ' ',
        EdgeMarker::Arrow => if unicode { pick('◀', '▶', '▲', '▼') } else { pick('<', '>', '^', 'v') },
        EdgeMarker::OpenTriangle => if unicode { pick('◁', '▷', '△', '▽') } else { pick('<', '>', '^', 'v') },
        EdgeMarker::OpenDiamond => if unicode { '◇' } else { 'o' },
        EdgeMarker::FilledDiamond => if unicode { '◆' } else { '*' },
        EdgeMarker::Circle => if unicode { '○' } else { 'o' },
        EdgeMarker::Cross => 'x',
    };
    let cell = if dir == 0 {
        Point { x: if end.x == usize::MAX { end.x } else { (end.x + 1) as usize }, y: end.y }
    } else if dir == 1 {
        Point { x: if end.x == 0 { 0 } else { (end.x - 1) as usize }, y: end.y }
    } else if dir == 2 {
        Point { x: end.x, y: if end.y == usize::MAX { end.y } else { (end.y + 1) as usize } }
    } else {
        Point { x: end.x, y: if end.y == 0 { 0 } else { (end.y - 1) as usize } }
    };
    (cell, glyph)
}

fn directional(dir: u8, l: char, r: char, u: char, d: char) -> (c: char)
    ensures
        c == (if dir == 0 { l } else if dir == 1 { r } else if dir == 2 { u } else { d }),
{
    if dir == 0 { l } else if dir == 1 { r } else if dir == 2 { u } else { d }
}

/// The cell and glyph of the marker drawn at a path end.
pub fn endpoint_marker(endpoint: Point, neighbor: Point, marker_kind: EdgeMarker, charset: Charset) -> (r: (Point, char))
    ensures
        r == marker_at(endpoint, neighbor, marker_kind, charset),
{
    let unicode = charset == Charset::Unicode;
    let dir: u8 = if endpoint.x < neighbor.x { 0 } else if endpoint.x > neighbor.x { 1 } else if endpoint.y < neighbor.y { 2 } else { 3 };
    let glyph = match marker_kind {
        EdgeMarker::Absent => ' ',
        EdgeMarker::Arrow => if unicode { directional(dir, '◀', '▶', '▲', '▼') } else { directional(dir, '<', '>', '^', 'v') },
        EdgeMarker::OpenTriangle => if unicode { directional(dir, '◁', '▷', '△', '▽') } else { directional(dir, '<', '>', '^', 'v') },
        EdgeMarker::OpenDiamond => if unicode { '◇' } else { 'o' },
        EdgeMarker::FilledDiamond => if unicode { '◆' } else { '*' },
        EdgeMarker::Circle => if unicode { '○' } else { 'o' },
        EdgeMarker::Cross => 'x',
    };
    let marker = if dir == 0 {
        Point::new(endpoint.x.saturating_add(1), endpoint.y)
    } else if dir == 1 {
        Point::new(endpoint.x.saturating_sub(1), endpoint.y)
    } else if dir == 2 {
        Point::new(endpoint.x, endpoint.y.saturating_add(1))
    } else {
        Point::new(endpoint.x, endpoint.y.saturating_sub(1))
    };
    (marker, glyph)
}

/// The legend notation of a marker at the start or end of an edge.
pub open spec fn marker_notation(marker: EdgeMarker, start: bool) -> &'static str {
    match marker {
        EdgeMarker::Absent => "",
        EdgeMarker::Arrow => if start { "<" } else { ">" },
        EdgeMarker::OpenTriangle => if start { "<|" } else { "|>" },
        EdgeMarker::OpenDiamond => "o",
        EdgeMarker::FilledDiamond => "*",
        EdgeMarker::Circle => "()",
        EdgeMarker::Cross => "x",
    }
}

pub fn marker_legend(marker: EdgeMarker, start: bool) -> (r: &'static str)
    ensures
        r == marker_notation(marker, start),
{
    match marker {
        EdgeMarker::Absent => "",
        EdgeMarker::Arrow => if start { "<" } else { ">" },
        EdgeMarker::OpenTriangle => if start { "<|" } else { "|>" },
        EdgeMarker::OpenDiamond => "o",
        EdgeMarker::FilledDiamond => "*",
        EdgeMarker::Circle => "()",
        EdgeMarker::Cross => "x",
    }
}

/// Two row-major cells of a `w` by `h` grid that share a side.
pub open spec fn grid_adjacent(u: int, v: int, w: int, h: int) -> bool {
    &&& 0 <= u < w * h
    &&& 0 <= v < w * h
    &&& abs_diff(u % w, v % w) + abs_diff(u / w, v / w) == 1
}

/// Whether following the links from `cur` ends, for some number of steps.
pub open spec fn chain_terminates(preds: Seq<usize>, start: usize, cur: usize) -> bool {
    exists|f: nat| chain_ends(preds, start, cur, f)
}

/// A tree of predecessor links rooted at `root`: the root links to itself, every other linked
/// cell is open and links to a grid neighbour that is linked too, and every chain of links
/// ends (`usize::MAX` marks a cell without a link).
pub open spec fn predecessor_tree(p: Seq<usize>, root: int, blocked: Seq<bool>, w: int, h: int) -> bool {
    &&& p.len() == w * h
    &&& 0 <= root < p.len()
    &&& p[root] == root
    &&& forall|v: int| 0 <= v < p.len() && v != root && #[trigger] p[v] != usize::MAX ==> {
        &&& !blocked[v]
        &&& grid_adjacent(p[v] as int, v, w, h)
        &&& p[p[v] as int] != usize::MAX
    }
    &&& forall|v: int| 0 <= v < p.len() && #[trigger] p[v] != usize::MAX ==> chain_terminates(p, root as usize, v as usize)
}

pub open spec fn order_key(a: usize, b: usize) -> nat {
    (a as nat) * 0x1_0000_0000_0000_0000nat + (b as nat)
}

/// The sum of the order keys of `(d[i], p[i])` over the first `n` cells.
pub open spec fn potential(d: Seq<usize>, p: Seq<usize>, n: int) -> nat
    decreases n,
{
    if n <= 0 || n > d.len() || n > p.len() {
        0
    } else {
        potential(d, p, n - 1) + order_key(d[n - 1], p[n - 1])
    }
}

proof fn lemma_order_key(a: usize, b: usize, c: usize, e: usize)
    requires
        a < c || (a == c && b < e),
    ensures
        order_key(a, b) < order_key(c, e),
{
    assert((a as nat) * 0x1_0000_0000_0000_0000nat + (b as nat) < (c as nat) * 0x1_0000_0000_0000_0000nat + (e as nat)) by (nonlinear_arith)
        requires a < c || (a == c && b < e), b < 0x1_0000_0000_0000_0000nat, e < 0x1_0000_0000_0000_0000nat;
}

proof fn lemma_potential_update(d: Seq<usize>, p: Seq<usize>, n: int, k: int, a: usize, b: usize)
    requires
        0 <= k < n,
        n <= d.len(),
        n <= p.len(),
        order_key(a, b) < order_key(d[k], p[k]),
    ensures
        potential(d.update(k, a), p.update(k, b), n) < potential(d, p, n),
    decreases n,
{
    if n - 1 == k {
        if k > 0 {
            lemma_potential_same(d, p, k, k, a, b);
        } else {
            assert(potential(d.update(k, a), p.update(k, b), 0) == 0);
        }
    } else {
        lemma_potential_update(d, p, n - 1, k, a, b);
    }
}

proof fn lemma_potential_same(d: Seq<usize>, p: Seq<usize>, n: int, k: int, a: usize, b: usize)
    requires
        0 <= n <= k,
        k < d.len(),
        k < p.len(),
    ensures
        potential(d.update(k, a), p.update(k, b), n) == potential(d, p, n),
    decreases n,
{
    if n > 0 {
        lemma_potential_same(d, p, n - 1, k, a, b);
    }
}

proof fn lemma_chain_ends_more(preds: Seq<usize>, start: usize, cur: usize, f: nat, g: nat)
    requires
        chain_ends(preds, start, cur, f),
        f <= g,
    ensures
        chain_ends(preds, start, cur, g),
    decreases f,
{
    if !(cur == start || cur >= preds.len() || preds[cur as int] == usize::MAX) {
        lemma_chain_ends_more(preds, start, preds[cur as int], (f - 1) as nat, (g - 1) as nat);
    }
}

/// The state of the router: distances and links consistent, distances falling along links.
pub open spec fn router_state(p: Seq<usize>, d: Seq<usize>, q: Seq<(usize, usize)>, root: int, blocked: Seq<bool>,
    w: int, h: int, bound: int) -> bool {
    &&& w * h <= usize::MAX
    &&& p.len() == w * h
    &&& d.len() == w * h
    &&& blocked.len() == w * h
    &&& 0 <= root < w * h
    &&& p[root] == root
    &&& d[root] == 0
    &&& forall|v: int| 0 <= v < w * h ==> (#[trigger] p[v] == usize::MAX) == (d[v] == usize::MAX)
    &&& forall|v: int| 0 <= v < w * h && #[trigger] d[v] != usize::MAX ==> d[v] <= bound
    &&& forall|i: int| 0 <= i < q.len() ==> (#[trigger] q[i]).1 < w * h && q[i].0 <= bound
    &&& forall|v: int| 0 <= v < w * h && v != root && #[trigger] p[v] != usize::MAX ==> {
        &&& !blocked[v]
        &&& grid_adjacent(p[v] as int, v, w, h)
        &&& p[p[v] as int] != usize::MAX
        &&& d[p[v] as int] < d[v]
    }
}

proof fn lemma_router_tree(p: Seq<usize>, d: Seq<usize>, q: Seq<(usize, usize)>, root: int, blocked: Seq<bool>,
    w: int, h: int, bound: int)
    requires
        router_state(p, d, q, root, blocked, w, h, bound),
    ensures
        predecessor_tree(p, root, blocked, w, h),
{
    assert forall|v: int| 0 <= v < p.len() && #[trigger] p[v] != usize::MAX implies chain_terminates(p, root as usize, v as usize) by {
        lemma_router_chain(p, d, q, root, blocked, w, h, bound, v);
    }
}

proof fn lemma_router_chain(p: Seq<usize>, d: Seq<usize>, q: Seq<(usize, usize)>, root: int, blocked: Seq<bool>,
    w: int, h: int, bound: int, v: int)
    requires
        router_state(p, d, q, root, blocked, w, h, bound),
        0 <= v < w * h,
        p[v] != usize::MAX,
    ensures
        chain_ends(p, root as usize, v as usize, d[v] as nat),
    decreases d[v],
{
    if v != root {
        let u = p[v] as int;
        lemma_router_chain(p, d, q, root, blocked, w, h, bound, u);
        lemma_chain_ends_more(p, root as usize, u as usize, d[u] as nat, (d[v] - 1) as nat);
    }
}

fn filled(n: usize, value: usize) -> (r: Vec<usize>)
    ensures
        r@.len() == n,
        forall|i: int| 0 <= i < n ==> #[trigger] r@[i] == value,
{
    let mut r: Vec<usize> = Vec::new();
    let mut i: usize = 0;
    while i < n
        invariant
            i <= n,
            r@.len() == i,
            forall|j: int| 0 <= j < i ==> #[trigger] r@[j] == value,
        decreases n - i,
    {
        r.push(value);
        i = i + 1;
    }
    r
}

/// Offers the link `u -> v` at distance `distance` from the root.
#[verifier::spinoff_prover]
#[verifier::rlimit(60)]
fn relax(preds: &mut Vec<usize>, dist: &mut Vec<usize>, queue: &mut Vec<(usize, usize)>, u: usize, distance: usize,
    v: usize, vx: usize, vy: usize, blocked: &Vec<bool>, routed: &Vec<bool>, canvas: &Canvas,
    Ghost(root): Ghost<int>, Ghost(w): Ghost<int>, Ghost(h): Ghost<int>, Ghost(bound): Ghost<int>)
    requires
        router_state(old(preds)@, old(dist)@, old(queue)@, root, blocked@, w, h, bound),
        routed@.len() == w * h,
        canvas.wf(),
        0 <= u < w * h,
        0 <= v < w * h,
        grid_adjacent(u as int, v as int, w, h),
        old(dist)@[u as int] == distance,
        distance + 13 <= bound,
        bound < usize::MAX,
    ensures
        router_state(final(preds)@, final(dist)@, final(queue)@, root, blocked@, w, h, bound),
        final(dist)@[u as int] == old(dist)@[u as int],
        potential(final(dist)@, final(preds)@, w * h) < potential(old(dist)@, old(preds)@, w * h)
            || (final(dist)@ == old(dist)@ && final(preds)@ == old(preds)@ && final(queue)@ == old(queue)@),
        ({
            let shows = match index_of(canvas@, vx as int, vy as int) {
                Some(k) => cell_text(canvas@.cells[k as int]).len() > 0,
                None => false,
            };
            let candidate = distance + 1 + (if !routed@[v as int] && shows { OCCUPIED_ROUTE_PENALTY } else { 0 });
            let better = !blocked@[v as int] && (candidate < old(dist)@[v as int]
                || (candidate == old(dist)@[v as int] && u < old(preds)@[v as int]));
            &&& better ==> final(dist)@ == old(dist)@.update(v as int, candidate as usize)
                && final(preds)@ == old(preds)@.update(v as int, u)
                && final(queue)@ == old(queue)@.push((candidate as usize, v))
            &&& !better ==> final(dist)@ == old(dist)@ && final(preds)@ == old(preds)@ && final(queue)@ == old(queue)@
        }),
{
    if blocked[v] {
        return;
    }
    let shows = match canvas.get_cell(vx, vy) {
        Some(c) => !c.is_empty(),
        None => false,
    };
    let occupied = !routed[v] && shows;
    let candidate = distance + 1 + if occupied { OCCUPIED_ROUTE_PENALTY } else { 0 };
    if candidate < dist[v] || (candidate == dist[v] && u < preds[v]) {
        proof {
            lemma_order_key(candidate, u, dist@[v as int], preds@[v as int]);
            lemma_potential_update(dist@, preds@, w * h, v as int, candidate, u);
            assert(v != root);
        }
        let ghost p0 = preds@;
        let ghost d0 = dist@;
        let ghost q0 = queue@;
        dist.set(v, candidate);
        preds.set(v, u);
        queue.push((candidate, v));
        proof {
            let p1 = preds@;
            let d1 = dist@;
            let q1 = queue@;
            assert(u != v);
            assert forall|k: int| 0 <= k < w * h implies (#[trigger] p1[k] == usize::MAX) == (d1[k] == usize::MAX) by {
                if k != v { assert(p1[k] == p0[k] && d1[k] == d0[k]); }
            }
            assert forall|k: int| 0 <= k < w * h && #[trigger] d1[k] != usize::MAX implies d1[k] <= bound by {
                if k != v { assert(d1[k] == d0[k]); }
            }
            assert forall|i: int| 0 <= i < q1.len() implies (#[trigger] q1[i]).1 < w * h && q1[i].0 <= bound by {
                if i < q0.len() { assert(q1[i] == q0[i]); }
            }
            assert forall|k: int| 0 <= k < w * h && k != root && #[trigger] p1[k] != usize::MAX implies {
                &&& !blocked@[k]
                &&& grid_adjacent(p1[k] as int, k, w, h)
                &&& p1[p1[k] as int] != usize::MAX
                &&& d1[p1[k] as int] < d1[k]
            } by {
                if k == v {
                    assert(p1[k] == u);
                    assert(d0[u as int] != usize::MAX);
                    assert(p0[u as int] != usize::MAX);
                } else {
                    assert(p1[k] == p0[k]);
                    assert(d1[k] == d0[k]);
                    let pk = p0[k] as int;
                    assert(p0[pk] != usize::MAX);
                    if pk == v {
                        assert(p1[pk] == u);
                    } else {
                        assert(p1[pk] == p0[pk]);
                    }
                }
            }
        }
    }
}

/// The row-major index and coordinates of each grid neighbour of `u`, in the order right,
/// down, left, up, that lies on the grid.
proof fn lemma_neighbor(u: int, x: int, y: int, w: int, h: int, nx: int, ny: int)
    requires
        0 < w,
        0 < h,
        0 <= x < w,
        0 <= y < h,
        u == y * w + x,
        0 <= nx < w,
        0 <= ny < h,
        abs_diff(x, nx) + abs_diff(y, ny) == 1,
    ensures
        grid_adjacent(u, ny * w + nx, w, h),
        0 <= ny * w + nx < w * h,
        (ny * w + nx) % w == nx,
        (ny * w + nx) / w == ny,
{
    vstd::arithmetic::div_mod::lemma_fundamental_div_mod_converse(u, w, y, x);
    vstd::arithmetic::div_mod::lemma_fundamental_div_mod_converse(ny * w + nx, w, ny, nx);
    assert(0 <= ny * w + nx < w * h) by (nonlinear_arith)
        requires 0 <= nx < w, 0 <= ny < h;
    assert(0 <= u < w * h) by (nonlinear_arith)
        requires 0 <= x < w, 0 <= y < h, u == y * w + x;
}

/// What entering cell `v` costs: one step, plus [`OCCUPIED_ROUTE_PENALTY`] when the cell shows
/// something that no routed edge put there.
pub open spec fn step_cost(v: int, w: int, routed: Seq<bool>, cv: CanvasView) -> int {
    let shows = match index_of(cv, v % w, v / w) {
        Some(k) => cell_text(cv.cells[k as int]).len() > 0,
        None => false,
    };
    1 + if !routed[v] && shows { OCCUPIED_ROUTE_PENALTY as int } else { 0 }
}

/// Whether `(dx, x)` is waiting in the queue.
pub open spec fn queued(q: Seq<(usize, usize)>, x: int, dx: usize) -> bool {
    exists|i: int| 0 <= i < q.len() && #[trigger] q[i] == (dx, x as usize)
}

/// Whether the link from `x` offers `y` nothing better: `y` is already cheaper, or as cheap
/// and linked from a cell with an index no higher than `x`.
pub open spec fn link_settled(p: Seq<usize>, d: Seq<usize>, x: int, y: int, cost: int) -> bool {
    (d[y] as int) < d[x] + cost || (d[y] as int == d[x] + cost && p[y] as int <= x)
}

/// The state of the search: every reached cell whose links are not waiting in the queue offers
/// its open neighbours nothing better, every link costs at least its step, and every link from
/// a cell not waiting in the queue is tight. The links from `u` to the cells in `pending` are
/// still being offered.
#[verifier::opaque]
pub open spec fn settle_state(p: Seq<usize>, d: Seq<usize>, q: Seq<(usize, usize)>, root: int, blocked: Seq<bool>,
    routed: Seq<bool>, cv: CanvasView, w: int, h: int, u: int, pending: Set<int>) -> bool {
    &&& forall|x: int, y: int| #![trigger d[x], d[y]] 0 <= x < w * h && 0 <= y < w * h && d[x] != usize::MAX
        && grid_adjacent(x, y, w, h) && !blocked[y] && !(x == u && pending.contains(y))
        ==> queued(q, x, d[x]) || link_settled(p, d, x, y, step_cost(y, w, routed, cv))
    &&& forall|y: int| 0 <= y < w * h && y != root && #[trigger] p[y] != usize::MAX
        ==> d[y] >= d[p[y] as int] + step_cost(y, w, routed, cv)
    &&& forall|y: int| 0 <= y < w * h && y != root && #[trigger] p[y] != usize::MAX
        && !(p[y] as int == u && pending.contains(y))
        ==> queued(q, p[y] as int, d[p[y] as int]) || d[y] == d[p[y] as int] + step_cost(y, w, routed, cv)
}

/// Whether `d` gives a cheapest-route cost for every cell linked in `p`: the root costs nothing,
/// every link is tight (a cell costs its predecessor plus its step), and no open neighbour of a
/// reached cell could be reached more cheaply through it, nor as cheaply from a lower index.
pub open spec fn cheapest_links(p: Seq<usize>, d: Seq<usize>, root: int, blocked: Seq<bool>, routed: Seq<bool>,
    cv: CanvasView, w: int, h: int) -> bool {
    &&& d.len() == w * h
    &&& p.len() == w * h
    &&& d[root] == 0
    &&& forall|v: int| 0 <= v < w * h ==> (#[trigger] p[v] == usize::MAX) == (d[v] == usize::MAX)
    &&& forall|v: int| 0 <= v < w * h && v != root && #[trigger] p[v] != usize::MAX
        ==> d[v] == d[p[v] as int] + step_cost(v, w, routed, cv)
    &&& forall|x: int, y: int| #![trigger d[x], d[y]] 0 <= x < w * h && 0 <= y < w * h && d[x] != usize::MAX
        && grid_adjacent(x, y, w, h) && !blocked[y]
        ==> link_settled(p, d, x, y, step_cost(y, w, routed, cv))
}

/// Offering the link `u -> v` keeps the search state, with `v` no longer pending.
proof fn lemma_offer_settles(p0: Seq<usize>, d0: Seq<usize>, q0: Seq<(usize, usize)>, p1: Seq<usize>, d1: Seq<usize>,
    q1: Seq<(usize, usize)>, root: int, blocked: Seq<bool>, routed: Seq<bool>, cv: CanvasView, w: int, h: int,
    u: int, pending: Set<int>, v: int, bound: int)
    requires
        router_state(p0, d0, q0, root, blocked, w, h, bound),
        settle_state(p0, d0, q0, root, blocked, routed, cv, w, h, u, pending),
        routed.len() == w * h,
        0 <= u < w * h,
        grid_adjacent(u, v, w, h),
        d0[u] != usize::MAX,
        d1[u] == d0[u],
        ({
            let candidate = d0[u] + step_cost(v, w, routed, cv);
            let better = !blocked[v] && (candidate < d0[v] || (candidate == d0[v] && u < p0[v]));
            &&& better ==> d1 == d0.update(v, candidate as usize) && p1 == p0.update(v, u as usize)
                && q1 == q0.push((candidate as usize, v as usize))
            &&& !better ==> d1 == d0 && p1 == p0 && q1 == q0
        }),
    ensures
        settle_state(p1, d1, q1, root, blocked, routed, cv, w, h, u, pending.remove(v)),
{
    reveal(settle_state);
    let cost = step_cost(v, w, routed, cv);
    let candidate = d0[u] + cost;
    let better = !blocked[v] && (candidate < d0[v] || (candidate == d0[v] && u < p0[v]));
    let pend = pending.remove(v);
    assert(u != v);
    if better {
        assert forall|i: int| 0 <= i < q0.len() implies q1[i] == q0[i] by {}
        assert forall|x: int, y: int| #![trigger d1[x], d1[y]] 0 <= x < w * h && 0 <= y < w * h && d1[x] != usize::MAX
            && grid_adjacent(x, y, w, h) && !blocked[y] && !(x == u && pend.contains(y))
            implies queued(q1, x, d1[x]) || link_settled(p1, d1, x, y, step_cost(y, w, routed, cv)) by {
            if x == v {
                assert(q1[q0.len() as int] == (d1[x], x as usize));
            } else if x == u && y == v {
                assert(link_settled(p1, d1, x, y, step_cost(y, w, routed, cv)));
            } else {
                assert(d1[x] == d0[x]);
                if queued(q0, x, d0[x]) {
                    let i = choose|i: int| 0 <= i < q0.len() && #[trigger] q0[i] == (d0[x], x as usize);
                    assert(q1[i] == q0[i]);
                } else {
                    assert(d0[x] != usize::MAX && grid_adjacent(x, y, w, h) && !blocked[y]);
                    assert(link_settled(p0, d0, x, y, step_cost(y, w, routed, cv)));
                }
            }
        }
        assert forall|y: int| 0 <= y < w * h && y != root && #[trigger] p1[y] != usize::MAX
            implies d1[y] >= d1[p1[y] as int] + step_cost(y, w, routed, cv) by {
            if y == v {
            } else {
                assert(p1[y] == p0[y]);
                assert(p0[y] != usize::MAX);
                assert(d0[y] >= d0[p0[y] as int] + step_cost(y, w, routed, cv));
            }
        }
        assert forall|y: int| 0 <= y < w * h && y != root && #[trigger] p1[y] != usize::MAX
            && !(p1[y] as int == u && pend.contains(y))
            implies queued(q1, p1[y] as int, d1[p1[y] as int]) || d1[y] == d1[p1[y] as int] + step_cost(y, w, routed, cv) by {
            if y == v {
            } else {
                assert(p1[y] == p0[y]);
                let x = p0[y] as int;
                if x == v {
                    assert(q1[q0.len() as int] == (d1[x], x as usize));
                } else {
                    assert(d1[x] == d0[x]);
                    if queued(q0, x, d0[x]) {
                        let i = choose|i: int| 0 <= i < q0.len() && #[trigger] q0[i] == (d0[x], x as usize);
                        assert(q1[i] == q0[i]);
                    }
                }
            }
        }
    } else {
        assert forall|x: int, y: int| #![trigger d1[x], d1[y]] 0 <= x < w * h && 0 <= y < w * h && d1[x] != usize::MAX
            && grid_adjacent(x, y, w, h) && !blocked[y] && !(x == u && pend.contains(y))
            implies queued(q1, x, d1[x]) || link_settled(p1, d1, x, y, step_cost(y, w, routed, cv)) by {
            if x == u && y == v {
                assert(link_settled(p1, d1, x, y, step_cost(y, w, routed, cv)));
            }
        }
        assert forall|y: int| 0 <= y < w * h && y != root && #[trigger] p1[y] != usize::MAX
            && !(p1[y] as int == u && pend.contains(y))
            implies queued(q1, p1[y] as int, d1[p1[y] as int]) || d1[y] == d1[p1[y] as int] + step_cost(y, w, routed, cv) by {
            if y == v && p1[y] as int == u {
                assert(d0[v] >= d0[u] + cost);
            }
        }
    }
}

/// Taking one entry out of the queue keeps every other waiting entry.
proof fn lemma_taken_keeps_queued(q0: Seq<(usize, usize)>, q1: Seq<(usize, usize)>, m: int, x: int, dx: usize)
    requires
        0 <= m < q0.len(),
        q1 == q0.update(m, q0.last()).drop_last(),
        q0[m] != (dx, x as usize),
        queued(q0, x, dx),
    ensures
        queued(q1, x, dx),
{
    let i = choose|i: int| 0 <= i < q0.len() && #[trigger] q0[i] == (dx, x as usize);
    if i == q0.len() - 1 {
        assert(q1[m] == q0[i]);
    } else {
        assert(q1[i] == q0[i]);
    }
}

/// Taking the entry `(distance, u)` out of the queue keeps the search state: unchanged when the
/// entry is stale, and with the links from `u` pending when it is current.
proof fn lemma_take_settles(p: Seq<usize>, d: Seq<usize>, q0: Seq<(usize, usize)>, q1: Seq<(usize, usize)>, root: int,
    blocked: Seq<bool>, routed: Seq<bool>, cv: CanvasView, w: int, h: int, bound: int, m: int, any: int)
    requires
        router_state(p, d, q0, root, blocked, w, h, bound),
        settle_state(p, d, q0, root, blocked, routed, cv, w, h, any, Set::empty()),
        0 <= m < q0.len(),
        q1 == q0.update(m, q0.last()).drop_last(),
    ensures
        d[q0[m].1 as int] != q0[m].0 ==> settle_state(p, d, q1, root, blocked, routed, cv, w, h, any, Set::empty()),
        d[q0[m].1 as int] == q0[m].0 ==> settle_state(p, d, q1, root, blocked, routed, cv, w, h, q0[m].1 as int,
            Set::new(|y: int| grid_adjacent(q0[m].1 as int, y, w, h))),
{
    reveal(settle_state);
    let u = q0[m].1 as int;
    let stale = d[u] != q0[m].0;
    let pend: Set<int> = if stale { Set::empty() } else { Set::new(|y: int| grid_adjacent(u, y, w, h)) };
    let uu = if stale { any } else { u };
    assert forall|x: int, y: int| #![trigger d[x], d[y]] 0 <= x < w * h && 0 <= y < w * h && d[x] != usize::MAX
        && grid_adjacent(x, y, w, h) && !blocked[y] && !(x == uu && pend.contains(y))
        implies queued(q1, x, d[x]) || link_settled(p, d, x, y, step_cost(y, w, routed, cv)) by {
        if queued(q0, x, d[x]) {
            if x == u {
                assert(stale);
            }
            lemma_taken_keeps_queued(q0, q1, m, x, d[x]);
        }
    }
    assert forall|y: int| 0 <= y < w * h && y != root && #[trigger] p[y] != usize::MAX
        && !(p[y] as int == uu && pend.contains(y))
        implies queued(q1, p[y] as int, d[p[y] as int]) || d[y] == d[p[y] as int] + step_cost(y, w, routed, cv) by {
        let x = p[y] as int;
        if queued(q0, x, d[x]) {
            if x == u && !stale {
                assert(grid_adjacent(x, y, w, h));
                assert(pend.contains(y));
            }
            lemma_taken_keeps_queued(q0, q1, m, x, d[x]);
        }
    }
    if stale {
        assert(settle_state(p, d, q1, root, blocked, routed, cv, w, h, any, Set::empty()));
    } else {
        assert(settle_state(p, d, q1, root, blocked, routed, cv, w, h, u, pend));
    }
}

/// Every grid neighbour of cell `u = uy * w + ux` lies right, below, left or above it.
proof fn lemma_adjacent_cases(u: int, ux: int, uy: int, w: int, h: int, y: int)
    requires
        0 < w,
        0 < h,
        0 <= ux < w,
        0 <= uy < h,
        u == uy * w + ux,
        u % w == ux,
        u / w == uy,
        grid_adjacent(u, y, w, h),
    ensures
        (ux + 1 < w && y == uy * w + (ux + 1)) || (uy + 1 < h && y == (uy + 1) * w + ux)
            || (ux >= 1 && y == uy * w + (ux - 1)) || (uy >= 1 && y == (uy - 1) * w + ux),
{
    vstd::arithmetic::div_mod::lemma_fundamental_div_mod(y, w);
    let yx = y % w;
    let yy = y / w;
    assert(y == w * yy + yx);
    assert(0 <= yx < w);
    assert(0 <= yy < h) by (nonlinear_arith)
        requires 0 <= y < w * h, y == w * yy + yx, 0 <= yx < w, 0 < w;
    assert((uy + 1) * w == uy * w + w) by (nonlinear_arith);
    assert((uy - 1) * w == uy * w - w) by (nonlinear_arith);
    assert(w * yy == yy * w) by (nonlinear_arith);
}

/// With nothing pending, the cell whose links were being offered does not matter.
proof fn lemma_settled_any(p: Seq<usize>, d: Seq<usize>, q: Seq<(usize, usize)>, root: int, blocked: Seq<bool>,
    routed: Seq<bool>, cv: CanvasView, w: int, h: int, u: int, other: int)
    requires
        settle_state(p, d, q, root, blocked, routed, cv, w, h, u, Set::empty()),
    ensures
        settle_state(p, d, q, root, blocked, routed, cv, w, h, other, Set::empty()),
{
    reveal(settle_state);
}

/// A finished search (nothing waiting) gives a cheapest route to every reached cell.
proof fn lemma_settled_cheapest(p: Seq<usize>, d: Seq<usize>, root: int, blocked: Seq<bool>, routed: Seq<bool>,
    cv: CanvasView, w: int, h: int, bound: int, any: int)
    requires
        router_state(p, d, Seq::empty(), root, blocked, w, h, bound),
        settle_state(p, d, Seq::empty(), root, blocked, routed, cv, w, h, any, Set::empty()),
    ensures
        cheapest_links(p, d, root, blocked, routed, cv, w, h),
{
    reveal(settle_state);
}

/// Offers the link from `u` to its grid neighbour `v = vy * width + vx`, keeping the search
/// state with `v` no longer pending.
#[verifier::spinoff_prover]
#[verifier::rlimit(40)]
fn offer_link(preds: &mut Vec<usize>, dist: &mut Vec<usize>, queue: &mut Vec<(usize, usize)>, u: usize, distance: usize,
    v: usize, vx: usize, vy: usize, width: usize, height: usize, blocked: &Vec<bool>, routed: &Vec<bool>,
    canvas: &Canvas, Ghost(start): Ghost<int>, Ghost(bound): Ghost<int>, Ghost(pend): Ghost<Set<int>>)
    requires
        router_state(old(preds)@, old(dist)@, old(queue)@, start, blocked@, width as int, height as int, bound),
        settle_state(old(preds)@, old(dist)@, old(queue)@, start, blocked@, routed@, canvas@, width as int,
            height as int, u as int, pend),
        routed@.len() == width * height,
        canvas.wf(),
        0 <= u < width * height,
        grid_adjacent(u as int, v as int, width as int, height as int),
        0 <= v < width * height,
        (v as int) % (width as int) == vx,
        (v as int) / (width as int) == vy,
        old(dist)@[u as int] == distance,
        distance + 13 <= bound,
        bound < usize::MAX,
    ensures
        router_state(final(preds)@, final(dist)@, final(queue)@, start, blocked@, width as int, height as int, bound),
        settle_state(final(preds)@, final(dist)@, final(queue)@, start, blocked@, routed@, canvas@, width as int,
            height as int, u as int, pend.remove(v as int)),
        final(dist)@[u as int] == distance,
        potential(final(dist)@, final(preds)@, width * height) < potential(old(dist)@, old(preds)@, width * height)
            || (final(dist)@ == old(dist)@ && final(preds)@ == old(preds)@ && final(queue)@ == old(queue)@),
{
    let ghost (p0, d0, q0) = (preds@, dist@, queue@);
    relax(preds, dist, queue, u, distance, v, vx, vy, blocked, routed, canvas, Ghost(start), Ghost(width as int),
        Ghost(height as int), Ghost(bound));
    proof {
        lemma_offer_settles(p0, d0, q0, preds@, dist@, queue@, start, blocked@, routed@, canvas@, width as int,
            height as int, u as int, pend, v as int, bound);
    }
}

/// Offers the links from `u = y * width + x` to its grid neighbours (right, down, left, up).
#[verifier::spinoff_prover]
#[verifier::rlimit(60)]
fn offer_neighbours(preds: &mut Vec<usize>, dist: &mut Vec<usize>, queue: &mut Vec<(usize, usize)>, point_index: usize,
    distance: usize, x: usize, y: usize, width: usize, height: usize, blocked: &Vec<bool>, routed: &Vec<bool>,
    canvas: &Canvas, Ghost(start): Ghost<int>, Ghost(bound): Ghost<int>)
    requires
        0 < width,
        0 < height,
        width * height <= usize::MAX,
        x < width,
        y < height,
        point_index == y * width + x,
        (point_index as int) % (width as int) == x,
        (point_index as int) / (width as int) == y,
        router_state(old(preds)@, old(dist)@, old(queue)@, start, blocked@, width as int, height as int, bound),
        settle_state(old(preds)@, old(dist)@, old(queue)@, start, blocked@, routed@, canvas@, width as int,
            height as int, point_index as int, Set::new(|c: int| grid_adjacent(point_index as int, c, width as int, height as int))),
        routed@.len() == width * height,
        canvas.wf(),
        old(dist)@[point_index as int] == distance,
        distance + 13 <= bound,
        bound < usize::MAX,
    ensures
        router_state(final(preds)@, final(dist)@, final(queue)@, start, blocked@, width as int, height as int, bound),
        settle_state(final(preds)@, final(dist)@, final(queue)@, start, blocked@, routed@, canvas@, width as int,
            height as int, 0, Set::empty()),
        potential(final(dist)@, final(preds)@, width * height) < potential(old(dist)@, old(preds)@, width * height)
            || (final(dist)@ == old(dist)@ && final(preds)@ == old(preds)@ && final(queue)@ == old(queue)@),
{
    let ghost w = width as int;
    let ghost h = height as int;
    let ghost u = point_index as int;
    let ghost start_index = start;
    let ghost (p_in, d_in, q_in) = (preds@, dist@, queue@);
    let ghost mut pend: Set<int> = Set::new(|c: int| grid_adjacent(u, c, w, h));
    assert(distance != usize::MAX);
    if x + 1 < width {
        proof { lemma_neighbor(point_index as int, x as int, y as int, w, h, x + 1, y as int); }
        let v = y * width + (x + 1);
        offer_link(preds, dist, queue, point_index, distance, v, x + 1, y, width, height, blocked,
            routed, canvas, Ghost(start_index), Ghost(bound), Ghost(pend));
        proof {
            pend = pend.remove(v as int);
        }
    }
    if y + 1 < height {
        proof { lemma_neighbor(point_index as int, x as int, y as int, w, h, x as int, y + 1); }
        let v = (y + 1) * width + x;
        offer_link(preds, dist, queue, point_index, distance, v, x, y + 1, width, height, blocked,
            routed, canvas, Ghost(start_index), Ghost(bound), Ghost(pend));
        proof {
            pend = pend.remove(v as int);
        }
    }
    if x >= 1 {
        proof { lemma_neighbor(point_index as int, x as int, y as int, w, h, x - 1, y as int); }
        let v = y * width + (x - 1);
        offer_link(preds, dist, queue, point_index, distance, v, x - 1, y, width, height, blocked,
            routed, canvas, Ghost(start_index), Ghost(bound), Ghost(pend));
        proof {
            pend = pend.remove(v as int);
        }
    }
    if y >= 1 {
        proof { lemma_neighbor(point_index as int, x as int, y as int, w, h, x as int, y - 1); }
        let v = (y - 1) * width + x;
        offer_link(preds, dist, queue, point_index, distance, v, x, y - 1, width, height, blocked,
            routed, canvas, Ghost(start_index), Ghost(bound), Ghost(pend));
        proof {
            pend = pend.remove(v as int);
        }
    }
    proof {
        assert forall|c: int| !pend.contains(c) by {
            if pend.contains(c) {
                lemma_adjacent_cases(u, x as int, y as int, w, h, c);
            }
        }
        assert(pend =~= Set::<int>::empty());
    }
    proof {
        if !(dist@ == d_in && preds@ == p_in && queue@ == q_in) {
            assert(potential(dist@, preds@, w * h) < potential(d_in, p_in, w * h));
        }
        lemma_settled_any(preds@, dist@, queue@, start, blocked@, routed@, canvas@, w, h, u, 0);
    }
}

/// Whether `path` walks from `root` through open grid neighbours.
pub open spec fn open_walk(path: Seq<int>, root: int, blocked: Seq<bool>, w: int, h: int) -> bool {
    &&& path.len() >= 1
    &&& path[0] == root
    &&& forall|i: int| 0 <= i < path.len() - 1 ==> grid_adjacent(#[trigger] path[i], path[i + 1], w, h)
        && !blocked[path[i + 1]]
}

/// What the first `n` cells of a walk cost to enter, after its first.
pub open spec fn walk_cost(path: Seq<int>, w: int, routed: Seq<bool>, cv: CanvasView, n: int) -> int
    decreases n,
{
    if n <= 1 { 0 } else { walk_cost(path, w, routed, cv, n - 1) + step_cost(path[n - 1], w, routed, cv) }
}

proof fn lemma_walk_prefix(p: Seq<usize>, d: Seq<usize>, root: int, blocked: Seq<bool>, routed: Seq<bool>,
    cv: CanvasView, w: int, h: int, path: Seq<int>, k: int)
    requires
        cheapest_links(p, d, root, blocked, routed, cv, w, h),
        open_walk(path, root, blocked, w, h),
        0 <= k < path.len(),
        walk_cost(path, w, routed, cv, k + 1) < usize::MAX,
    ensures
        d[path[k]] <= walk_cost(path, w, routed, cv, k + 1),
    decreases k,
{
    if k > 0 {
        assert(step_cost(path[k], w, routed, cv) >= 1);
        lemma_walk_prefix(p, d, root, blocked, routed, cv, w, h, path, k - 1);
        let x = path[k - 1];
        let y = path[k];
        assert(grid_adjacent(path[k - 1], path[k], w, h) && !blocked[path[k]]);
        assert(d[x] != usize::MAX);
        assert(link_settled(p, d, x, y, step_cost(y, w, routed, cv)));
    }
}

/// Law: the search's costs are least. Every walk from the root through open neighbours costs
/// at least the cost the search gives its last cell.
pub proof fn lemma_cheapest_links_are_least(p: Seq<usize>, d: Seq<usize>, root: int, blocked: Seq<bool>,
    routed: Seq<bool>, cv: CanvasView, w: int, h: int, path: Seq<int>)
    requires
        cheapest_links(p, d, root, blocked, routed, cv, w, h),
        open_walk(path, root, blocked, w, h),
        walk_cost(path, w, routed, cv, path.len() as int) < usize::MAX,
    ensures
        d[path.last()] <= walk_cost(path, w, routed, cv, path.len() as int),
{
    lemma_walk_prefix(p, d, root, blocked, routed, cv, w, h, path, path.len() - 1);
}

/// The links of a cheapest-path search from `start` over the open cells of a `width` by
/// `height` grid. Each step costs one, plus [`OCCUPIED_ROUTE_PENALTY`] when the entered cell
/// shows something that no routed edge put there; among equally cheap links the one from the
/// lowest cell index is kept. Every settled cell spends one unit of `route_work`.
#[verifier::spinoff_prover]
#[verifier::rlimit(100)]
pub fn weighted_predecessors(start: Point, width: usize, height: usize, blocked: &Vec<bool>, routed: &Vec<bool>,
    canvas: &Canvas, route_work: &mut RouteWorkBudget) -> (r: Result<Vec<usize>>)
    requires
        start.x < width,
        start.y < height,
        width * height <= usize::MAX,
        blocked@.len() == width * height,
        routed@.len() == width * height,
        canvas.wf(),
    ensures
        final(route_work).used() >= old(route_work).used(),
        match r {
            Ok(p) => predecessor_tree(p@, start.y * width + start.x, blocked@, width as int, height as int)
                && exists|d: Seq<usize>| #[trigger] cheapest_links(p@, d, start.y * width + start.x, blocked@, routed@,
                    canvas@, width as int, height as int),
            Err(e) => final(route_work).used() > MAX_ROUTE_WORK && e == MermansiError::RenderLimit {
                context: "route work",
                requested: final(route_work).used(),
                limit: MAX_ROUTE_WORK,
            },
        },
{
    let ghost w = width as int;
    let ghost h = height as int;
    proof {
        assert(start.y * width + start.x < width * height) by (nonlinear_arith)
            requires start.x < width, start.y < height;
    }
    let n = width * height;
    let start_index = grid_index(start, width);
    let mut preds = filled(n, usize::MAX);
    let mut dist = filled(n, usize::MAX);
    preds.set(start_index, start_index);
    dist.set(start_index, 0);
    let mut queue: Vec<(usize, usize)> = Vec::new();
    queue.push((0, start_index));
    proof {
        assert(queue@[0] == (0usize, start_index));
        assert(queued(queue@, start_index as int, 0));
        reveal(settle_state);
        assert(settle_state(preds@, dist@, queue@, start_index as int, blocked@, routed@, canvas@, w, h, 0, Set::empty()));
    }
    let ghost used0 = route_work.used();
    loop
        invariant
            n == w * h,
            0 < w,
            0 < h,
            w == width,
            h == height,
            routed@.len() == w * h,
            canvas.wf(),
            start_index == start.y * width + start.x,
            route_work.used() >= used0,
            used0 == old(route_work).used(),
            route_work.used() <= MAX_ROUTE_WORK || route_work.used() == used0,
            router_state(preds@, dist@, queue@, start_index as int, blocked@, w, h,
                13 * (route_work.used() + 1)),
            settle_state(preds@, dist@, queue@, start_index as int, blocked@, routed@, canvas@, w, h, 0, Set::empty()),
        ensures
            queue@.len() == 0,
            router_state(preds@, dist@, queue@, start_index as int, blocked@, w, h,
                13 * (route_work.used() + 1)),
            settle_state(preds@, dist@, queue@, start_index as int, blocked@, routed@, canvas@, w, h, 0, Set::empty()),
            route_work.used() >= used0,
        decreases potential(dist@, preds@, w * h), queue@.len(),
    {
        if queue.len() == 0 {
            break;
        }
        let mut m: usize = 0;
        let mut j: usize = 1;
        while j < queue.len()
            invariant
                0 <= m < queue@.len(),
                1 <= j <= queue@.len(),
            decreases queue@.len() - j,
        {
            if queue[j].0 < queue[m].0 || (queue[j].0 == queue[m].0 && queue[j].1 < queue[m].1) {
                m = j;
            }
            j = j + 1;
        }
        let ghost q0 = queue@;
        let (distance, point_index) = queue.swap_remove(m);
        proof {
            lemma_take_settles(preds@, dist@, q0, queue@, start_index as int, blocked@, routed@, canvas@, w, h,
                13 * (route_work.used() + 1), m as int, 0);
            assert(q0[m as int] == (distance, point_index));
            assert forall|i: int| 0 <= i < queue@.len() implies (#[trigger] queue@[i]).1 < w * h
                && queue@[i].0 <= 13 * (route_work.used() + 1) by {
                if i == m {
                    assert(queue@[i] == q0.last());
                } else {
                    assert(queue@[i] == q0[i]);
                }
            }
        }
        if distance != dist[point_index] {
            continue;
        }
        let ghost used_before = route_work.used();
        match route_work.consume() {
            Ok(()) => {},
            Err(e) => {
                return Err(e);
            },
        }
        let ghost bound = 13 * (route_work.used() + 1);
        proof {
            assert(route_work.used() == used_before + 1);
            assert(forall|v: int| 0 <= v < w * h && #[trigger] dist@[v] != usize::MAX ==> dist@[v] <= bound);
            assert(forall|i: int| 0 <= i < queue@.len() ==> (#[trigger] queue@[i]).1 < w * h && queue@[i].0 <= bound);
            assert(distance + 13 <= bound);
        }
        let x = point_index % width;
        let y = point_index / width;
        proof {
            let pi = point_index as int;
            vstd::arithmetic::div_mod::lemma_fundamental_div_mod(pi, w);
            assert(pi == w * (pi / w) + pi % w);
            assert(x == pi % w && y == pi / w);
            assert(y < h) by (nonlinear_arith)
                requires pi < w * h, y == pi / w, 0 < w, pi == w * (pi / w) + pi % w, 0 <= pi % w;
            assert(pi == y * w + x) by (nonlinear_arith)
                requires pi == w * (pi / w) + pi % w, x == pi % w, y == pi / w;
        }
        offer_neighbours(&mut preds, &mut dist, &mut queue, point_index, distance, x, y, width, height, blocked, routed,
            canvas, Ghost(start_index as int), Ghost(bound));
    }
    proof {
        lemma_router_tree(preds@, dist@, queue@, start_index as int, blocked@, w, h, 13 * (route_work.used() + 1));
        assert(queue@ =~= Seq::<(usize, usize)>::empty());
        lemma_settled_cheapest(preds@, dist@, start_index as int, blocked@, routed@, canvas@, w, h,
            13 * (route_work.used() + 1), 0);
    }
    Ok(preds)
}



/// What a laid-out box is.
#[derive(Clone, Copy, Debug, PartialEq, Eq, Structural)]
pub enum ItemKind {
    Node,
    Group,
    Spacer,
}

/// A sized box, with the boxes placed inside it.
#[derive(Debug)]
pub struct Item {
    pub id: String,
    pub kind: ItemKind,
    pub lines: Vec<String>,
    pub dividers: Vec<usize>,
    pub width: usize,
    pub height: usize,
    pub span: usize,
    pub children: Vec<PlacedItem>,
}

/// A box at an offset from its container.
#[derive(Debug)]
pub struct PlacedItem {
    pub x: usize,
    pub y: usize,
    pub item: Item,
}

/// `s[i..]` with its whitespace runs collapsed: words separated by one space, no space at
/// either end. `started` says whether a word was already emitted, `pending` whether a
/// space is owed before the next one.
pub open spec fn collapse_from(s: Seq<char>, i: int, started: bool, pending: bool) -> Seq<char>
    decreases s.len() - i,
{
    if i < 0 || i >= s.len() {
        seq![]
    } else if is_white_space(s[i]) {
        collapse_from(s, i + 1, started, started)
    } else {
        (if pending { seq![' ', s[i]] } else { seq![s[i]] }) + collapse_from(s, i + 1, true, false)
    }
}

/// The words of `s` joined by single spaces.
pub open spec fn collapsed(s: Seq<char>) -> Seq<char> {
    collapse_from(s, 0, false, false)
}

/// The words of a sanitized label joined by single spaces.
pub fn normalized(value: &str) -> (r: String)
    ensures
        r@ == collapsed(sanitized(value@)),
{
    let clean = sanitize_label_text(value);
    collapse_words(clean.as_str())
}

/// The words of `value` (split at white space) joined by single spaces.
pub fn collapse_words(value: &str) -> (r: String)
    ensures
        r@ == collapsed(value@),
{
    let chars = chars_of(value);
    let mut out: Vec<char> = Vec::new();
    let mut started = false;
    let mut pending = false;
    let mut i: usize = 0;
    while i < chars.len()
        invariant
            i <= chars@.len(),
            chars@ == value@,
            collapsed(chars@) == out@ + collapse_from(chars@, i as int, started, pending),
        decreases chars@.len() - i,
    {
        let c = chars[i];
        if char_is_whitespace(c) {
            pending = started;
        } else {
            if pending {
                out.push(' ');
            }
            out.push(c);
            started = true;
            pending = false;
            proof {
                assert(collapsed(chars@) == out@ + collapse_from(chars@, i + 1, started, pending));
            }
        }
        i = i + 1;
    }
    proof {
        assert(out@ + collapse_from(chars@, i as int, started, pending) == out@ + seq![]);
        assert(out@ + seq![] =~= out@);
    }
    string_of(out.as_slice())
}

/// `s` without its trailing whitespace.
pub open spec fn trimmed_end(s: Seq<char>, n: int) -> Seq<char>
    decreases n,
{
    if n <= 0 || n > s.len() {
        seq![]
    } else if is_white_space(s[n - 1]) {
        trimmed_end(s, n - 1)
    } else {
        s.subrange(0, n)
    }
}

fn trim_end_chars(s: &Vec<char>) -> (r: String)
    ensures
        r@ == trimmed_end(s@, s@.len() as int),
{
    let mut n = s.len();
    while n > 0 && char_is_whitespace(s[n - 1])
        invariant
            n <= s@.len(),
            trimmed_end(s@, s@.len() as int) == trimmed_end(s@, n as int),
        decreases n,
    {
        n = n - 1;
    }
    let mut out: Vec<char> = Vec::new();
    let mut i: usize = 0;
    while i < n
        invariant
            i <= n <= s@.len(),
            out@ == s@.subrange(0, i as int),
        decreases n - i,
    {
        out.push(s[i]);
        i = i + 1;
    }
    string_of(out.as_slice())
}

fn all_whitespace(s: &Vec<char>) -> (r: bool)
    ensures
        r == forall|k: int| 0 <= k < s@.len() ==> is_white_space(#[trigger] s@[k]),
{
    let mut i: usize = 0;
    while i < s.len()
        invariant
            i <= s@.len(),
            forall|k: int| 0 <= k < i ==> is_white_space(#[trigger] s@[k]),
        decreases s@.len() - i,
    {
        if !char_is_whitespace(s[i]) {
            return false;
        }
        i = i + 1;
    }
    true
}

/// Wraps a sanitized label into lines of at most `max_width` columns (at least one), breaking
/// between graphemes; a newline grapheme ends a line, and whitespace is dropped at the start
/// of a line and trailing whitespace at its end.
pub fn wrap_display(text: &str, max_width: usize) -> (r: Vec<String>)
    ensures
        r@.len() >= 1,
{
    let max_width = if max_width < 1 { 1 } else { max_width };
    let clean = sanitize_label_text(text);
    let gs = graphemes(clean.as_str());
    let mut lines: Vec<String> = Vec::new();
    let mut line: Vec<char> = Vec::new();
    let mut width: usize = 0;
    let mut k: usize = 0;
    while k < gs.len()
        invariant
            k <= gs@.len(),
            width <= max_width || line@.len() > 0,
        decreases gs@.len() - k,
    {
        let g = gs[k].as_str();
        let gchars = chars_of(g);
        if gchars.len() == 1 && gchars[0] == '\n' {
            lines.push(trim_end_chars(&line));
            line = Vec::new();
            width = 0;
            k = k + 1;
            continue;
        }
        let w = str_width(g);
        let gw = if w < 1 { 1 } else { w };
        if width > 0 && width.saturating_add(gw) > max_width {
            lines.push(trim_end_chars(&line));
            line = Vec::new();
            width = 0;
        }
        if width == 0 && all_whitespace(&gchars) {
            k = k + 1;
            continue;
        }
        extend_chars(&mut line, gchars.as_slice());
        width = width.saturating_add(gw);
        k = k + 1;
    }
    if line.len() > 0 || lines.len() == 0 {
        lines.push(trim_end_chars(&line));
    }
    lines
}

/// Wraps a label into lines of at most `max_width` columns at word boundaries where the
/// label does not fit whole; a word wider than a line is broken with [`wrap_display`].
pub fn wrap_words(text: &str, max_width: usize) -> (r: Vec<String>)
    ensures
        r@.len() >= 1,
{
    let max_width = if max_width < 1 { 1 } else { max_width };
    let clean = sanitize_label_text(text);
    if str_width(clean.as_str()) <= max_width {
        let mut single: Vec<String> = Vec::new();
        single.push(clean);
        return single;
    }
    let text = normalized(clean.as_str());
    let chars = chars_of(text.as_str());
    let mut lines: Vec<String> = Vec::new();
    let mut line = String::new();
    let mut line_width: usize = 0;
    let mut i: usize = 0;
    while i < chars.len()
        invariant
            i <= chars@.len(),
        decreases chars@.len() - i,
    {
        if char_is_whitespace(chars[i]) {
            i = i + 1;
            continue;
        }
        let mut j = i;
        let mut word_chars: Vec<char> = Vec::new();
        while j < chars.len() && !char_is_whitespace(chars[j])
            invariant
                i <= j <= chars@.len(),
            decreases chars@.len() - j,
        {
            word_chars.push(chars[j]);
            j = j + 1;
        }
        i = j;
        let word = string_of(word_chars.as_slice());
        let word_width = str_width(word.as_str());
        if line.as_str().len() > 0 && line_width.saturating_add(1usize.saturating_add(word_width)) <= max_width {
            line.append(" ");
            line.append(word.as_str());
            line_width = line_width.saturating_add(1usize.saturating_add(word_width));
            continue;
        }
        if line.as_str().len() > 0 {
            lines.push(line);
            line = String::new();
            line_width = 0;
        }
        if word_width <= max_width {
            line = word;
            line_width = word_width;
            continue;
        }
        let mut fragments = wrap_display(word.as_str(), max_width);
        let last = fragments.pop();
        match last {
            Some(last) => {
                let mut f: usize = 0;
                while f < fragments.len()
                    invariant
                        f <= fragments@.len(),
                    decreases fragments@.len() - f,
                {
                    lines.push(fragments[f].clone());
                    f = f + 1;
                }
                line_width = str_width(last.as_str());
                line = last;
            },
            None => {},
        }
    }
    if line.as_str().len() > 0 {
        lines.push(line);
    }
    if lines.len() == 0 {
        lines.push(String::new());
    }
    lines
}

/// Columns a node's text may take at most.
pub const MAX_INNER_WIDTH: usize = 32;
/// Columns between a group's border and its content, on each side.
pub const GROUP_PADDING_X: usize = 3;
/// Rows between a group's label and its content, and below the content.
pub const GROUP_ROUTE_GAP_Y: usize = 1;
/// Columns between neighbouring boxes of a row.
pub const ITEM_GAP_X: usize = 4;
/// Rows between neighbouring rows of boxes.
pub const ITEM_GAP_Y: usize = 1;
/// Columns between neighbouring layers of a left-right diagram.
pub const LAYER_GAP_X: usize = 8;
/// Rows between neighbouring layers of a top-bottom diagram.
pub const LAYER_GAP_Y: usize = 2;
/// Columns kept free for routes on each side of the drawing.
pub const ROUTE_MARGIN: usize = 2;
/// Most route lanes kept free above and below a packed drawing.
pub const MAX_OUTER_ROUTE_LANES: usize = 8;
/// Most layout work (entries and text bytes) one diagram may take.
pub const MAX_LAYOUT_WORK: usize = 2_000_000;
/// Deepest group nesting.
pub const MAX_DEPTH: usize = 64;
/// Narrowest canvas a box diagram is drawn on.
pub const MIN_CANVAS_WIDTH: usize = 12;

/// A box with text lines.
#[derive(Debug)]
pub struct BoxNode {
    pub id: String,
    pub lines: Vec<String>,
    /// Line-row offsets that are painted as full-width compartment dividers.
    pub dividers: Vec<usize>,
    pub parent: Option<String>,
    pub span: usize,
    pub order: usize,
}

/// How a node's corners are drawn.
#[derive(Clone, Copy, Debug, PartialEq, Eq, Structural)]
pub enum BoxNodeShape {
    Rectangle,
    Rounded,
    Cylinder,
    Decision,
}

/// A box that holds other boxes under a label.
#[derive(Debug)]
pub struct BoxGroup {
    pub id: String,
    pub lines: Vec<String>,
    pub parent: Option<String>,
    pub columns: Option<usize>,
    pub span: usize,
    pub order: usize,
}

/// An empty slot that takes room in a row.
#[derive(Debug)]
pub struct BoxSpacer {
    pub parent: Option<String>,
    pub span: usize,
    pub order: usize,
}

/// Which edges are listed under the drawing.
#[derive(Clone, Copy, Debug, PartialEq, Eq, Structural)]
pub enum EdgeLegend {
    Hidden,
    Labeled,
    All,
}

/// How the top-level boxes are arranged: packed into rows, or in layers by rank.
#[derive(Debug)]
pub enum BoxLayout {
    Packed,
    Layered { direction: BoxDirection, ranks: Vec<(String, usize)> },
}

/// A node-and-relationship diagram as boxes and edges.
#[derive(Debug)]
pub struct BoxDiagram {
    pub family: &'static str,
    pub title: Option<String>,
    pub nodes: Vec<BoxNode>,
    pub groups: Vec<BoxGroup>,
    pub spacers: Vec<BoxSpacer>,
    pub edges: Vec<BoxEdge>,
    pub columns: Option<usize>,
    pub layout: BoxLayout,
    pub edge_legend: EdgeLegend,
}

/// A geometry error of `family`.
pub fn layout_error(family: &'static str, message: String) -> (r: MermansiError)
    ensures
        r == (MermansiError::GeometryLayout { family, message }),
{
    MermansiError::GeometryLayout { family, message }
}

pub(crate) fn sat_mul(a: usize, b: usize) -> (r: usize)
    ensures
        r == if a * b > usize::MAX { usize::MAX as int } else { a * b },
{
    match a.checked_mul(b) {
        Some(p) => p,
        None => usize::MAX,
    }
}

fn max_usize(a: usize, b: usize) -> (r: usize)
    ensures
        r == if a >= b { a } else { b },
{
    if a >= b { a } else { b }
}

fn min_usize(a: usize, b: usize) -> (r: usize)
    ensures
        r == if a <= b { a } else { b },
{
    if a <= b { a } else { b }
}

fn contains_index(v: &Vec<usize>, x: usize) -> (r: bool)
    ensures
        r == v@.contains(x),
{
    let mut i: usize = 0;
    while i < v.len()
        invariant
            i <= v@.len(),
            forall|j: int| 0 <= j < i ==> v@[j] != x,
        decreases v@.len() - i,
    {
        if v[i] == x {
            assert(v@[i as int] == x);
            return true;
        }
        i = i + 1;
    }
    false
}

fn text_width(s: &String) -> (r: usize)
    ensures
        r == crate::text::unicode_str_width(s@),
{
    str_width(s.as_str())
}

/// The widest display width among the first `n` lines (0 for none).
pub open spec fn widest_of(lines: Seq<String>, n: int) -> int
    decreases n,
{
    if n <= 0 {
        0
    } else {
        let w = crate::text::unicode_str_width(lines[n - 1]@) as int;
        if widest_of(lines, n - 1) >= w { widest_of(lines, n - 1) } else { w }
    }
}

fn widest(lines: &Vec<String>) -> (r: usize)
    ensures
        r == widest_of(lines@, lines@.len() as int),
{
    let mut w: usize = 0;
    let mut i: usize = 0;
    while i < lines.len()
        invariant
            i <= lines@.len(),
            w == widest_of(lines@, i as int),
        decreases lines@.len() - i,
    {
        w = max_usize(w, text_width(&lines[i]));
        i = i + 1;
    }
    w
}

fn append_lines(out: &mut Vec<String>, more: Vec<String>)
    ensures
        final(out)@.len() == old(out)@.len() + more@.len(),
{
    let mut more = more;
    let ghost n = more@.len();
    let ghost mut k: int = 0;
    while more.len() > 0
        invariant
            k + more@.len() == n,
            out@.len() == old(out)@.len() + k,
        decreases more@.len(),
    {
        let line = more.remove(0);
        out.push(line);
        proof {
            k = k + 1;
        }
    }
}

/// The lines of a label, each normalized and wrapped to `width` columns; at least one line.
fn wrapped_lines(lines: &Vec<String>, width: usize) -> (r: Vec<String>)
    ensures
        r@.len() >= 1,
{
    let mut wrapped: Vec<String> = Vec::new();
    let mut i: usize = 0;
    while i < lines.len()
        invariant
            i <= lines@.len(),
        decreases lines@.len() - i,
    {
        let line = normalized(lines[i].as_str());
        append_lines(&mut wrapped, wrap_words(line.as_str(), width));
        i = i + 1;
    }
    if wrapped.len() == 0 {
        wrapped.push(String::new());
    }
    wrapped
}

/// A node's box: its lines wrapped to at most [`MAX_INNER_WIDTH`] columns, at least seven
/// columns wide or ten per span, never wider than `max_width` (or seven).
fn build_node(node: &BoxNode, max_width: usize) -> (r: Item)
    ensures
        r.kind == ItemKind::Node,
        r.lines@.len() >= 1,
        r.children@.len() == 0,
        7 <= r.width <= max_usize_spec(max_width, 7),
{
    let inner = max_width.saturating_sub(2);
    let inner_limit = if inner < 1 { 1 } else if inner > MAX_INNER_WIDTH { MAX_INNER_WIDTH } else { inner };
    let mut lines: Vec<String> = Vec::new();
    let mut dividers: Vec<usize> = Vec::new();
    let mut index: usize = 0;
    while index < node.lines.len()
        invariant
            index <= node.lines@.len(),
        decreases node.lines@.len() - index,
    {
        if contains_index(&node.dividers, index) {
            dividers.push(lines.len());
        }
        let line = normalized(node.lines[index].as_str());
        append_lines(&mut lines, wrap_words(line.as_str(), inner_limit));
        index = index + 1;
    }
    if lines.len() == 0 {
        lines.push(String::new());
    }
    let natural = max_usize(widest(&lines).saturating_add(2), 7);
    let span = if node.span < 1 { 1 } else { node.span };
    let span_width = sat_mul(span, 10).saturating_add(2);
    let width = min_usize(max_usize(natural, span_width), max_usize(max_width, 7));
    let height = 2usize.saturating_add(lines.len());
    Item {
        id: node.id.clone(),
        kind: ItemKind::Node,
        lines,
        dividers,
        width,
        height,
        span,
        children: Vec::new(),
    }
}

pub open spec fn max_usize_spec(a: usize, b: usize) -> usize {
    if a >= b { a } else { b }
}

/// An empty slot ten columns per span wide (plus two), never wider than `max_width` (or one).
fn build_spacer(spacer: &BoxSpacer, max_width: usize) -> (r: Item)
    ensures
        r.kind == ItemKind::Spacer,
        r.height == 1,
        r.children@.len() == 0,
{
    let span = if spacer.span < 1 { 1 } else { spacer.span };
    Item {
        id: String::new(),
        kind: ItemKind::Spacer,
        lines: Vec::new(),
        dividers: Vec::new(),
        width: min_usize(sat_mul(span, 10).saturating_add(2), max_usize(max_width, 1)),
        height: 1,
        span,
        children: Vec::new(),
    }
}

/// Sorts entries by their order key, keeping entries with equal keys in the order they came.
fn sort_by_order(entries: &mut Vec<(usize, Item)>)
    ensures
        final(entries)@.len() == old(entries)@.len(),
        forall|i: int, j: int| 0 <= i <= j < final(entries)@.len() ==> #[trigger] final(entries)@[i].0 <= #[trigger] final(entries)@[j].0,
{
    let n = entries.len();
    let mut i: usize = 1;
    while i < n
        invariant
            entries@.len() == n,
            1 <= i || n == 0,
            i <= n || n == 0,
            forall|a: int, b: int| 0 <= a <= b < i && b < n ==> #[trigger] entries@[a].0 <= #[trigger] entries@[b].0,
        decreases n - i,
    {
        let key = entries[i].0;
        let mut j = i;
        while j > 0 && entries[j - 1].0 > key
            invariant
                j <= i < n,
                entries@.len() == n,
                key == entries@[i as int].0,
                forall|a: int| j <= a < i ==> #[trigger] entries@[a].0 > key,
            decreases j,
        {
            j = j - 1;
        }
        let ghost before = entries@;
        let entry = entries.remove(i);
        entries.insert(j, entry);
        proof {
            let after = entries@;
            assert forall|a: int| 0 <= a < j implies #[trigger] after[a] == before[a] by {}
            assert(after[j as int] == before[i as int]);
            assert forall|a: int| j < a <= i implies #[trigger] after[a] == before[a - 1] by {}
            assert forall|a: int| i < a < n implies #[trigger] after[a] == before[a] by {}
            assert forall|a: int, b: int| 0 <= a <= b < i + 1 && b < n implies #[trigger] after[a].0 <= #[trigger] after[b].0 by {
                let ka = if a < j { before[a].0 } else if a == j { key } else { before[a - 1].0 };
                let kb = if b < j { before[b].0 } else if b == j { key } else { before[b - 1].0 };
                assert(after[a].0 == ka);
                assert(after[b].0 == kb);
                if a < j && b == j {
                    assert(before[a].0 <= before[j - 1].0);
                }
                if a < j && b > j {
                    assert(before[a].0 <= before[b - 1].0);
                }
                if a == j && b > j {
                    assert(before[b - 1].0 > key);
                }
                if a > j {
                    assert(before[a - 1].0 <= before[b - 1].0);
                }
            }
        }
        i = i + 1;
    }
}

/// The first `n` parts, one after another.
pub open spec fn concat_parts(parts: Seq<&str>, n: int) -> Seq<char>
    decreases n,
{
    if n <= 0 { seq![] } else { concat_parts(parts, n - 1) + parts[n - 1]@ }
}

pub(crate) fn text_of(parts: &[&str]) -> (r: String)
    ensures
        r@ == concat_parts(parts@, parts@.len() as int),
{
    let mut out = String::new();
    let mut i: usize = 0;
    while i < parts.len()
        invariant
            i <= parts@.len(),
            out@ == concat_parts(parts@, i as int),
        decreases parts@.len() - i,
    {
        out.append(parts[i]);
        i = i + 1;
        assert(out@ =~= concat_parts(parts@, i as int));
    }
    out
}

pub(crate) fn opt_eq(a: &Option<String>, b: &str) -> (r: bool)
    ensures
        r == (a matches Some(s) && s@ == b@),
{
    match a {
        Some(s) => str_eq(s.as_str(), b),
        None => false,
    }
}

pub(crate) fn str_eq(a: &str, b: &str) -> (r: bool)
    ensures
        r == (a@ == b@),
{
    let x = chars_of(a);
    let y = chars_of(b);
    if x.len() != y.len() {
        return false;
    }
    let mut i: usize = 0;
    while i < x.len()
        invariant
            x@ == a@,
            y@ == b@,
            x@.len() == y@.len(),
            i <= x@.len(),
            forall|k: int| 0 <= k < i ==> x@[k] == y@[k],
        decreases x@.len() - i,
    {
        if x[i] != y[i] {
            assert(x@[i as int] != y@[i as int]);
            return false;
        }
        i = i + 1;
    }
    assert(x@ =~= y@);
    true
}

fn strings_contain(v: &Vec<String>, s: &str) -> (r: bool)
    ensures
        r == exists|i: int| 0 <= i < v@.len() && (#[trigger] v@[i])@ == s@,
{
    let mut i: usize = 0;
    while i < v.len()
        invariant
            i <= v@.len(),
            forall|k: int| 0 <= k < i ==> (#[trigger] v@[k])@ != s@,
        decreases v@.len() - i,
    {
        if str_eq(v[i].as_str(), s) {
            return true;
        }
        i = i + 1;
    }
    false
}

/// Packs boxes into rows left to right, starting a new row where the next box would pass
/// `max_width` or the row's column budget; rows are stacked with their boxes centred
/// vertically. Returns the placed boxes, the widest row and the total height.
fn pack_items(items: Vec<Item>, max_width: usize, columns: Option<usize>) -> (r: (Vec<PlacedItem>, usize, usize))
{
    let columns = match columns {
        Some(c) => if c > 0 { Some(c) } else { None },
        None => None,
    };
    let mut items = items;
    let mut rows: Vec<Vec<Item>> = Vec::new();
    let mut row: Vec<Item> = Vec::new();
    let mut row_width: usize = 0;
    let mut row_columns: usize = 0;
    while items.len() > 0
        decreases items@.len(),
    {
        let item = items.remove(0);
        let proposed = if row.len() == 0 { item.width } else { row_width.saturating_add(ITEM_GAP_X).saturating_add(item.width) };
        let item_columns = match columns {
            Some(c) => {
                let span = if item.span < c { item.span } else { c };
                if span < 1 { 1 } else { span }
            },
            None => 1,
        };
        let column_break = match columns {
            Some(c) => row_columns.saturating_add(item_columns) > c,
            None => false,
        };
        if row.len() > 0 && (column_break || proposed > max_width) {
            let full = row;
            rows.push(full);
            row = Vec::new();
            row_width = 0;
            row_columns = 0;
        }
        row_width = if row.len() == 0 { item.width } else { row_width.saturating_add(ITEM_GAP_X).saturating_add(item.width) };
        row_columns = row_columns.saturating_add(item_columns);
        row.push(item);
    }
    if row.len() > 0 {
        rows.push(row);
    }
    let mut placed: Vec<PlacedItem> = Vec::new();
    let mut y: usize = 0;
    let mut total_width: usize = 0;
    while rows.len() > 0
        decreases rows@.len(),
    {
        let mut row = rows.remove(0);
        let mut row_height: usize = 0;
        let mut width: usize = 0;
        let mut k: usize = 0;
        while k < row.len()
            invariant
                k <= row@.len(),
            decreases row@.len() - k,
        {
            row_height = max_usize(row_height, row[k].height);
            width = width.saturating_add(row[k].width);
            k = k + 1;
        }
        width = width.saturating_add(sat_mul(ITEM_GAP_X, row.len().saturating_sub(1)));
        let mut x: usize = 0;
        while row.len() > 0
            decreases row@.len(),
        {
            let item = row.remove(0);
            let item_width = item.width;
            let item_height = item.height;
            placed.push(PlacedItem { x, y: y.saturating_add(row_height.saturating_sub(item_height) / 2), item });
            x = x.saturating_add(item_width).saturating_add(ITEM_GAP_X);
        }
        total_width = max_usize(total_width, width);
        y = y.saturating_add(row_height).saturating_add(ITEM_GAP_Y);
    }
    (placed, total_width, y.saturating_sub(ITEM_GAP_Y))
}

/// The rank of box `id` in a layered layout (the last entry for it counts).
pub(crate) fn rank_of(ranks: &Vec<(String, usize)>, id: &str) -> (r: Option<usize>)
    ensures
        r is None <==> forall|i: int| 0 <= i < ranks@.len() ==> (#[trigger] ranks@[i]).0@ != id@,
        r matches Some(v) ==> exists|i: int| 0 <= i < ranks@.len() && (#[trigger] ranks@[i]).0@ == id@
            && ranks@[i].1 == v && forall|j: int| i < j < ranks@.len() ==> (#[trigger] ranks@[j]).0@ != id@,
{
    let mut found: Option<usize> = None;
    let mut i: usize = 0;
    while i < ranks.len()
        invariant
            i <= ranks@.len(),
            found is None <==> forall|k: int| 0 <= k < i ==> (#[trigger] ranks@[k]).0@ != id@,
            found matches Some(v) ==> exists|k: int| 0 <= k < i && (#[trigger] ranks@[k]).0@ == id@
                && ranks@[k].1 == v && forall|j: int| k < j < i ==> (#[trigger] ranks@[j]).0@ != id@,
        decreases ranks@.len() - i,
    {
        if str_eq(ranks[i].0.as_str(), id) {
            found = Some(ranks[i].1);
        }
        i = i + 1;
    }
    found
}

/// Groups boxes into layers by rank (ascending; reversed for bottom-up and right-to-left
/// diagrams) and packs the layers as rows or columns. A box without a rank is an error.
fn pack_layered_items(items: Vec<Item>, ranks: &Vec<(String, usize)>, direction: BoxDirection, family: &'static str)
    -> (r: Result<(Vec<PlacedItem>, usize, usize)>)
    ensures
        r matches Err(e) ==> e is GeometryLayout,
{
    let mut items = items;
    let mut keyed: Vec<(usize, Item)> = Vec::new();
    while items.len() > 0
        decreases items@.len(),
    {
        let item = items.remove(0);
        let rank = match rank_of(ranks, item.id.as_str()) {
            Some(rank) => rank,
            None => {
                let message = text_of(&["layer rank is missing for ", item.id.as_str()]);
                return Err(layout_error(family, message));
            },
        };
        keyed.push((rank, item));
    }
    sort_by_order(&mut keyed);
    let mut layers: Vec<Vec<Item>> = Vec::new();
    let mut current: Vec<Item> = Vec::new();
    let mut current_rank: usize = 0;
    while keyed.len() > 0
        decreases keyed@.len(),
    {
        let (rank, item) = keyed.remove(0);
        if current.len() > 0 && rank != current_rank {
            let layer = current;
            layers.push(layer);
            current = Vec::new();
        }
        current_rank = rank;
        current.push(item);
    }
    if current.len() > 0 {
        layers.push(current);
    }
    let reverse = match direction {
        BoxDirection::Bt | BoxDirection::Rl => true,
        _ => false,
    };
    if reverse {
        let mut reversed: Vec<Vec<Item>> = Vec::new();
        while layers.len() > 0
            decreases layers@.len(),
        {
            let layer = layers.pop().unwrap();
            reversed.push(layer);
        }
        layers = reversed;
    }
    match direction {
        BoxDirection::Tb | BoxDirection::Bt => Ok(pack_layer_rows(layers)),
        _ => Ok(pack_layer_columns(layers)),
    }
}

/// The sums (saturating at `usize::MAX`) and the largest of the widths and heights of the
/// first `n` items.
pub open spec fn layer_sums_of(layer: Seq<Item>, n: int) -> (int, int, int, int)
    decreases n,
{
    if n <= 0 {
        (0, 0, 0, 0)
    } else {
        let p = layer_sums_of(layer, n - 1);
        let w = layer[n - 1].width as int;
        let h = layer[n - 1].height as int;
        (if p.0 + w > usize::MAX { usize::MAX as int } else { p.0 + w },
         if p.1 + h > usize::MAX { usize::MAX as int } else { p.1 + h },
         if p.2 >= w { p.2 } else { w },
         if p.3 >= h { p.3 } else { h })
    }
}

fn layer_sums(layer: &Vec<Item>) -> (r: (usize, usize, usize, usize))
    ensures
        (r.0 as int, r.1 as int, r.2 as int, r.3 as int) == layer_sums_of(layer@, layer@.len() as int),
{
    let mut width_sum: usize = 0;
    let mut height_sum: usize = 0;
    let mut width_max: usize = 0;
    let mut height_max: usize = 0;
    let mut k: usize = 0;
    while k < layer.len()
        invariant
            k <= layer@.len(),
            (width_sum as int, height_sum as int, width_max as int, height_max as int)
                == layer_sums_of(layer@, k as int),
        decreases layer@.len() - k,
    {
        width_sum = width_sum.saturating_add(layer[k].width);
        height_sum = height_sum.saturating_add(layer[k].height);
        width_max = max_usize(width_max, layer[k].width);
        height_max = max_usize(height_max, layer[k].height);
        k = k + 1;
    }
    (width_sum, height_sum, width_max, height_max)
}

/// `a`, capped at `usize::MAX`.
pub open spec fn capped(a: int) -> int {
    if a > usize::MAX { usize::MAX as int } else { a }
}

/// The length of a layer along its run (across for rows, down for columns): its boxes and
/// the gaps between them.
pub open spec fn layer_span(layer: Seq<Item>, across: bool) -> int {
    let sums = layer_sums_of(layer, layer.len() as int);
    let gaps = if layer.len() >= 1 { layer.len() - 1 } else { 0 };
    let gap = if across { ITEM_GAP_X as int } else { ITEM_GAP_Y as int };
    capped((if across { sums.0 } else { sums.1 }) + capped(gap * gaps))
}

/// The longest span among the first `n` layers.
pub open spec fn widest_span(layers: Seq<Vec<Item>>, n: int, across: bool) -> int
    decreases n,
{
    if n <= 0 { 0 } else {
        let w = layer_span(layers[n - 1]@, across);
        if widest_span(layers, n - 1, across) >= w { widest_span(layers, n - 1, across) } else { w }
    }
}

/// Where the layer after the first `n` starts: each layer's depth (its tallest box for rows,
/// its widest for columns) and a layer gap, capped.
pub open spec fn stacked_extent(layers: Seq<Vec<Item>>, n: int, across: bool) -> int
    decreases n,
{
    if n <= 0 { 0 } else {
        let sums = layer_sums_of(layers[n - 1]@, layers[n - 1]@.len() as int);
        let depth = if across { sums.3 } else { sums.2 };
        let gap = if across { LAYER_GAP_Y as int } else { LAYER_GAP_X as int };
        capped(capped(stacked_extent(layers, n - 1, across) + depth) + gap)
    }
}

/// Stacks layers top to bottom, each centred horizontally.
fn pack_layer_rows(layers: Vec<Vec<Item>>) -> (r: (Vec<PlacedItem>, usize, usize))
    ensures
        r.1 == widest_span(layers@, layers@.len() as int, true),
        r.2 == (if stacked_extent(layers@, layers@.len() as int, true) >= LAYER_GAP_Y {
            stacked_extent(layers@, layers@.len() as int, true) - LAYER_GAP_Y } else { 0 }),
{
    let ghost orig = layers@;
    let mut layers = layers;
    let mut total_width: usize = 0;
    let mut i: usize = 0;
    while i < layers.len()
        invariant
            i <= layers@.len(),
            layers@ == orig,
            total_width == widest_span(orig, i as int, true),
        decreases layers@.len() - i,
    {
        let (width_sum, _, _, _) = layer_sums(&layers[i]);
        let w = width_sum.saturating_add(sat_mul(ITEM_GAP_X, layers[i].len().saturating_sub(1)));
        total_width = max_usize(total_width, w);
        i = i + 1;
    }
    let mut placed: Vec<PlacedItem> = Vec::new();
    let mut y: usize = 0;
    let ghost mut done: int = 0;
    while layers.len() > 0
        invariant
            0 <= done <= orig.len(),
            layers@ == orig.subrange(done, orig.len() as int),
            y == stacked_extent(orig, done, true),
            total_width == widest_span(orig, orig.len() as int, true),
        decreases layers@.len(),
    {
        let mut layer = layers.remove(0);
        assert(layer == orig[done]);
        let (width_sum, _, _, layer_height) = layer_sums(&layer);
        let layer_width = width_sum.saturating_add(sat_mul(ITEM_GAP_X, layer.len().saturating_sub(1)));
        let mut x = if layer.len() == 1 {
            (total_width / 2).saturating_sub(layer[0].width / 2)
        } else {
            total_width.saturating_sub(layer_width) / 2
        };
        while layer.len() > 0
            decreases layer@.len(),
        {
            let item = layer.remove(0);
            let item_width = item.width;
            let item_height = item.height;
            placed.push(PlacedItem { x, y: y.saturating_add(layer_height.saturating_sub(item_height) / 2), item });
            x = x.saturating_add(item_width).saturating_add(ITEM_GAP_X);
        }
        y = y.saturating_add(layer_height).saturating_add(LAYER_GAP_Y);
        proof {
            done = done + 1;
            assert(layers@ =~= orig.subrange(done, orig.len() as int));
        }
    }
    assert(done == orig.len());
    (placed, total_width, y.saturating_sub(LAYER_GAP_Y))
}

/// Places layers left to right, each centred vertically.
fn pack_layer_columns(layers: Vec<Vec<Item>>) -> (r: (Vec<PlacedItem>, usize, usize))
    ensures
        r.2 == widest_span(layers@, layers@.len() as int, false),
        r.1 == (if stacked_extent(layers@, layers@.len() as int, false) >= LAYER_GAP_X {
            stacked_extent(layers@, layers@.len() as int, false) - LAYER_GAP_X } else { 0 }),
{
    let ghost orig = layers@;
    let mut layers = layers;
    let mut total_height: usize = 0;
    let mut i: usize = 0;
    while i < layers.len()
        invariant
            i <= layers@.len(),
            layers@ == orig,
            total_height == widest_span(orig, i as int, false),
        decreases layers@.len() - i,
    {
        let (_, height_sum, _, _) = layer_sums(&layers[i]);
        let h = height_sum.saturating_add(sat_mul(ITEM_GAP_Y, layers[i].len().saturating_sub(1)));
        total_height = max_usize(total_height, h);
        i = i + 1;
    }
    let mut placed: Vec<PlacedItem> = Vec::new();
    let mut x: usize = 0;
    let ghost mut done: int = 0;
    while layers.len() > 0
        invariant
            0 <= done <= orig.len(),
            layers@ == orig.subrange(done, orig.len() as int),
            x == stacked_extent(orig, done, false),
            total_height == widest_span(orig, orig.len() as int, false),
        decreases layers@.len(),
    {
        let mut layer = layers.remove(0);
        assert(layer == orig[done]);
        let (_, height_sum, layer_width, _) = layer_sums(&layer);
        let layer_height = height_sum.saturating_add(sat_mul(ITEM_GAP_Y, layer.len().saturating_sub(1)));
        let mut y = if layer.len() == 1 {
            (total_height / 2).saturating_sub(layer[0].height / 2)
        } else {
            total_height.saturating_sub(layer_height) / 2
        };
        while layer.len() > 0
            decreases layer@.len(),
        {
            let item = layer.remove(0);
            let item_width = item.width;
            let item_height = item.height;
            placed.push(PlacedItem { x: x.saturating_add(layer_width.saturating_sub(item_width) / 2), y, item });
            y = y.saturating_add(item_height).saturating_add(ITEM_GAP_Y);
        }
        x = x.saturating_add(layer_width).saturating_add(LAYER_GAP_X);
        proof {
            done = done + 1;
            assert(layers@ =~= orig.subrange(done, orig.len() as int));
        }
    }
    assert(done == orig.len());
    (placed, x.saturating_sub(LAYER_GAP_X), total_height)
}

/// A group's box: its label wrapped to the group's width, its child groups, nodes and spacers
/// built and packed inside (ordered by their order keys), padded on each side. Nesting deeper
/// than [`MAX_DEPTH`] and a group that contains itself are errors.
fn build_group(diagram: &BoxDiagram, index: usize, max_width: usize, ancestry: &mut Vec<String>) -> (r: Result<Item>)
    requires
        index < diagram.groups@.len(),
        old(ancestry)@.len() <= MAX_DEPTH,
    ensures
        final(ancestry)@.len() == old(ancestry)@.len(),
        r matches Err(e) ==> e is GeometryLayout || (e matches MermansiError::RenderLimit { context, .. } && context == "box geometry depth"),
        r matches Ok(item) ==> item.kind == ItemKind::Group,
    decreases MAX_DEPTH - old(ancestry)@.len(),
{
    if ancestry.len() >= MAX_DEPTH {
        return Err(MermansiError::RenderLimit {
            context: "box geometry depth",
            requested: ancestry.len().saturating_add(1),
            limit: MAX_DEPTH,
        });
    }
    let group = &diagram.groups[index];
    if strings_contain(ancestry, group.id.as_str()) {
        let message = text_of(&["group cycle includes ", group.id.as_str()]);
        return Err(layout_error(diagram.family, message));
    }
    ancestry.push(group.id.clone());
    let inner_limit = max_usize(max_width.saturating_sub(GROUP_PADDING_X * 2), 5);
    let mut children: Vec<(usize, Item)> = Vec::new();
    let mut g: usize = 0;
    while g < diagram.groups.len()
        invariant
            g <= diagram.groups@.len(),
            ancestry@.len() == old(ancestry)@.len() + 1,
            ancestry@.len() <= MAX_DEPTH,
        decreases diagram.groups@.len() - g,
    {
        if opt_eq(&diagram.groups[g].parent, group.id.as_str()) {
            let child = match build_group(diagram, g, inner_limit, ancestry) {
                Ok(child) => child,
                Err(e) => {
                    ancestry.pop();
                    return Err(e);
                },
            };
            children.push((diagram.groups[g].order, child));
        }
        g = g + 1;
    }
    let mut n: usize = 0;
    while n < diagram.nodes.len()
        invariant
            n <= diagram.nodes@.len(),
        decreases diagram.nodes@.len() - n,
    {
        if opt_eq(&diagram.nodes[n].parent, group.id.as_str()) {
            children.push((diagram.nodes[n].order, build_node(&diagram.nodes[n], inner_limit)));
        }
        n = n + 1;
    }
    let mut s: usize = 0;
    while s < diagram.spacers.len()
        invariant
            s <= diagram.spacers@.len(),
        decreases diagram.spacers@.len() - s,
    {
        if opt_eq(&diagram.spacers[s].parent, group.id.as_str()) {
            children.push((diagram.spacers[s].order, build_spacer(&diagram.spacers[s], inner_limit)));
        }
        s = s + 1;
    }
    ancestry.pop();
    sort_by_order(&mut children);
    let mut ordered_children: Vec<Item> = Vec::new();
    while children.len() > 0
        decreases children@.len(),
    {
        let (_, item) = children.remove(0);
        ordered_children.push(item);
    }
    let lines = wrapped_lines(&group.lines, max_usize(max_width.saturating_sub(2), 1));
    let (mut placed, child_width, child_height) = pack_items(ordered_children, inner_limit, group.columns);
    let label_width = widest(&lines);
    let span = if group.span < 1 { 1 } else { group.span };
    let width = min_usize(
        max_usize(max_usize(max_usize(label_width.saturating_add(2), child_width.saturating_add(GROUP_PADDING_X * 2)),
            sat_mul(span, 10).saturating_add(2)), 8),
        max_usize(max_width, 8),
    );
    let gap = if placed.len() > 0 { GROUP_ROUTE_GAP_Y } else { 0 };
    let content_y = 1usize.saturating_add(lines.len()).saturating_add(gap);
    let content_x = GROUP_PADDING_X.saturating_add(width.saturating_sub((GROUP_PADDING_X * 2).saturating_add(child_width)) / 2);
    let mut k: usize = 0;
    while k < placed.len()
        invariant
            k <= placed@.len(),
        decreases placed@.len() - k,
    {
        let mut child = placed.remove(k);
        child.x = child.x.saturating_add(content_x);
        child.y = child.y.saturating_add(content_y);
        placed.insert(k, child);
        k = k + 1;
    }
    let height = if placed.len() == 0 {
        lines.len().saturating_add(3)
    } else {
        content_y.saturating_add(child_height).saturating_add(GROUP_ROUTE_GAP_Y).saturating_add(1)
    };
    Ok(Item {
        id: group.id.clone(),
        kind: ItemKind::Group,
        lines,
        dividers: Vec::new(),
        width,
        height,
        span,
        children: placed,
    })
}

/// `value`, saturated at `usize::MAX`.
pub open spec fn sat(value: int) -> int {
    if value > usize::MAX { usize::MAX as int } else { value }
}

/// The bytes of the first `n` lines.
pub open spec fn lines_bytes(lines: Seq<String>, n: int) -> int
    decreases n,
{
    if n <= 0 { 0 } else { lines_bytes(lines, n - 1) + byte_len(lines[n - 1]@) }
}

/// The bytes of an optional text (a parent reference or a title).
pub open spec fn parent_bytes(parent: Option<String>) -> int {
    match parent {
        Some(p) => byte_len(p@) as int,
        None => 0,
    }
}

/// The layout work of the first `n` nodes: their ids, parents, dividers and lines.
pub open spec fn nodes_work(nodes: Seq<BoxNode>, n: int) -> int
    decreases n,
{
    if n <= 0 {
        0
    } else {
        let node = nodes[n - 1];
        nodes_work(nodes, n - 1) + byte_len(node.id@) + parent_bytes(node.parent) + node.dividers@.len()
            + lines_bytes(node.lines@, node.lines@.len() as int)
    }
}

/// The layout work of the first `n` groups: their ids, parents and lines.
pub open spec fn groups_work(groups: Seq<BoxGroup>, n: int) -> int
    decreases n,
{
    if n <= 0 {
        0
    } else {
        let group = groups[n - 1];
        groups_work(groups, n - 1) + byte_len(group.id@) + parent_bytes(group.parent)
            + lines_bytes(group.lines@, group.lines@.len() as int)
    }
}

/// The layout work of the first `n` spacers: their parents.
pub open spec fn spacers_work(spacers: Seq<BoxSpacer>, n: int) -> int
    decreases n,
{
    if n <= 0 { 0 } else { spacers_work(spacers, n - 1) + parent_bytes(spacers[n - 1].parent) }
}

/// The layout work of the first `n` edges: their ends and labels.
pub open spec fn edges_work(edges: Seq<BoxEdge>, n: int) -> int
    decreases n,
{
    if n <= 0 {
        0
    } else {
        let edge = edges[n - 1];
        edges_work(edges, n - 1) + byte_len(edge.from@) + byte_len(edge.to@) + byte_len(edge.label@)
    }
}

/// The layout work of a diagram: one unit per item and edge, plus every byte of text it holds.
pub open spec fn layout_work(d: BoxDiagram) -> int {
    d.nodes@.len() + d.groups@.len() + d.spacers@.len() + d.edges@.len()
        + parent_bytes(d.title)
        + nodes_work(d.nodes@, d.nodes@.len() as int) + groups_work(d.groups@, d.groups@.len() as int)
        + spacers_work(d.spacers@, d.spacers@.len() as int) + edges_work(d.edges@, d.edges@.len() as int)
}

/// Refuses a diagram whose layout work exceeds [`MAX_LAYOUT_WORK`], before any text of it is
/// normalized.
fn ensure_layout_work(diagram: &BoxDiagram) -> (r: Result<()>)
    ensures
        r matches Err(e) ==> e matches MermansiError::RenderLimit { context, .. } && context == "box layout work",
        r is Ok <==> layout_work(*diagram) <= MAX_LAYOUT_WORK,
{
    let mut requested = diagram.nodes.len().saturating_add(diagram.groups.len()).saturating_add(diagram.spacers.len())
        .saturating_add(diagram.edges.len());
    let ghost counts = diagram.nodes@.len() + diagram.groups@.len() + diagram.spacers@.len() + diagram.edges@.len();
    let ghost title_part: int = parent_bytes(diagram.title);
    match &diagram.title {
        Some(title) => {
            requested = requested.saturating_add(title.as_str().len());
        },
        None => {},
    }
    assert(requested == sat(counts + title_part));
    let mut i: usize = 0;
    while i < diagram.nodes.len()
        invariant
            i <= diagram.nodes@.len(),
            requested == sat(counts + title_part + nodes_work(diagram.nodes@, i as int)),
        decreases diagram.nodes@.len() - i,
    {
        let node = &diagram.nodes[i];
        requested = requested.saturating_add(node.id.as_str().len()).saturating_add(parent_len(&node.parent))
            .saturating_add(node.dividers.len());
        let ghost base = counts + title_part + nodes_work(diagram.nodes@, i as int) + byte_len(node.id@)
            + parent_bytes(node.parent) + node.dividers@.len();
        assert(requested == sat(base));
        let mut l: usize = 0;
        while l < node.lines.len()
            invariant
                l <= node.lines@.len(),
                requested == sat(base + lines_bytes(node.lines@, l as int)),
            decreases node.lines@.len() - l,
        {
            requested = requested.saturating_add(node.lines[l].as_str().len());
            l = l + 1;
        }
        i = i + 1;
    }
    let ghost after_nodes = counts + title_part + nodes_work(diagram.nodes@, diagram.nodes@.len() as int);
    let mut g: usize = 0;
    while g < diagram.groups.len()
        invariant
            g <= diagram.groups@.len(),
            requested == sat(after_nodes + groups_work(diagram.groups@, g as int)),
        decreases diagram.groups@.len() - g,
    {
        let group = &diagram.groups[g];
        requested = requested.saturating_add(group.id.as_str().len()).saturating_add(parent_len(&group.parent));
        let ghost base = after_nodes + groups_work(diagram.groups@, g as int) + byte_len(group.id@)
            + parent_bytes(group.parent);
        let mut l: usize = 0;
        while l < group.lines.len()
            invariant
                l <= group.lines@.len(),
                requested == sat(base + lines_bytes(group.lines@, l as int)),
            decreases group.lines@.len() - l,
        {
            requested = requested.saturating_add(group.lines[l].as_str().len());
            l = l + 1;
        }
        g = g + 1;
    }
    let ghost after_groups = after_nodes + groups_work(diagram.groups@, diagram.groups@.len() as int);
    let mut s: usize = 0;
    while s < diagram.spacers.len()
        invariant
            s <= diagram.spacers@.len(),
            requested == sat(after_groups + spacers_work(diagram.spacers@, s as int)),
        decreases diagram.spacers@.len() - s,
    {
        requested = requested.saturating_add(parent_len(&diagram.spacers[s].parent));
        s = s + 1;
    }
    let ghost after_spacers = after_groups + spacers_work(diagram.spacers@, diagram.spacers@.len() as int);
    let mut e: usize = 0;
    while e < diagram.edges.len()
        invariant
            e <= diagram.edges@.len(),
            requested == sat(after_spacers + edges_work(diagram.edges@, e as int)),
        decreases diagram.edges@.len() - e,
    {
        let edge = &diagram.edges[e];
        requested = requested.saturating_add(edge.from.as_str().len()).saturating_add(edge.to.as_str().len())
            .saturating_add(edge.label.as_str().len());
        e = e + 1;
    }
    assert(requested == sat(layout_work(*diagram)));
    if requested > MAX_LAYOUT_WORK {
        return Err(MermansiError::RenderLimit { context: "box layout work", requested, limit: MAX_LAYOUT_WORK });
    }
    Ok(())
}

fn parent_len(parent: &Option<String>) -> (r: usize)
    ensures
        r == parent_bytes(*parent),
{
    match parent {
        Some(p) => p.as_str().len(),
        None => 0,
    }
}

fn group_index(diagram: &BoxDiagram, id: &str) -> (r: Option<usize>)
    ensures
        r matches Some(i) ==> i < diagram.groups@.len() && diagram.groups@[i as int].id@ == id@
            && forall|j: int| 0 <= j < i ==> (#[trigger] diagram.groups@[j]).id@ != id@,
        r is None ==> forall|j: int| 0 <= j < diagram.groups@.len() ==> (#[trigger] diagram.groups@[j]).id@ != id@,
{
    let mut i: usize = 0;
    while i < diagram.groups.len()
        invariant
            i <= diagram.groups@.len(),
            forall|j: int| 0 <= j < i ==> (#[trigger] diagram.groups@[j]).id@ != id@,
        decreases diagram.groups@.len() - i,
    {
        if str_eq(diagram.groups[i].id.as_str(), id) {
            return Some(i);
        }
        i = i + 1;
    }
    None
}

fn node_index(diagram: &BoxDiagram, id: &str) -> (r: Option<usize>)
    ensures
        r matches Some(i) ==> i < diagram.nodes@.len() && diagram.nodes@[i as int].id@ == id@
            && forall|j: int| 0 <= j < i ==> (#[trigger] diagram.nodes@[j]).id@ != id@,
        r is None ==> forall|j: int| 0 <= j < diagram.nodes@.len() ==> (#[trigger] diagram.nodes@[j]).id@ != id@,
{
    let mut i: usize = 0;
    while i < diagram.nodes.len()
        invariant
            i <= diagram.nodes@.len(),
            forall|j: int| 0 <= j < i ==> (#[trigger] diagram.nodes@[j]).id@ != id@,
        decreases diagram.nodes@.len() - i,
    {
        if str_eq(diagram.nodes[i].id.as_str(), id) {
            return Some(i);
        }
        i = i + 1;
    }
    None
}

fn depth_of(depths: &Vec<(String, usize)>, id: &str) -> (r: Option<usize>)
    ensures
        r matches Some(d) ==> exists|i: int| 0 <= i < depths@.len() && (#[trigger] depths@[i]).0@ == id@
            && depths@[i].1 == d && forall|j: int| 0 <= j < i ==> (#[trigger] depths@[j]).0@ != id@,
        r is None ==> forall|j: int| 0 <= j < depths@.len() ==> (#[trigger] depths@[j]).0@ != id@,
{
    let mut i: usize = 0;
    while i < depths.len()
        invariant
            i <= depths@.len(),
            forall|j: int| 0 <= j < i ==> (#[trigger] depths@[j]).0@ != id@,
        decreases depths@.len() - i,
    {
        if str_eq(depths[i].0.as_str(), id) {
            return Some(depths[i].1);
        }
        i = i + 1;
    }
    None
}

/// Whether every group has a parent (so no group is a root).
pub open spec fn all_parented(groups: Seq<BoxGroup>) -> bool {
    forall|k: int| 0 <= k < groups.len() ==> (#[trigger] groups[k]).parent is Some
}

/// Whether the parent named by each of the first `n` groups is the id of some group.
pub open spec fn parents_found(groups: Seq<BoxGroup>, n: int) -> bool {
    forall|k: int| 0 <= k < n ==> ((#[trigger] groups[k]).parent matches Some(p)
        ==> exists|j: int| 0 <= j < groups.len() && (#[trigger] groups[j]).id@ == p@)
}

/// Whether some group has the id `id`.
pub open spec fn names_group(groups: Seq<BoxGroup>, id: Seq<char>) -> bool {
    exists|j: int| 0 <= j < groups.len() && (#[trigger] groups[j]).id@ == id
}

/// Whether some node has the id `id`.
pub open spec fn names_node(nodes: Seq<BoxNode>, id: Seq<char>) -> bool {
    exists|j: int| 0 <= j < nodes.len() && (#[trigger] nodes[j]).id@ == id
}

/// Whether a diagram's references are sound: group ids are unique, node ids are unique and
/// differ from every group id, every parent names a group, and every edge end names a group
/// or a node.
pub open spec fn references_valid(d: BoxDiagram) -> bool {
    &&& forall|h: int, g: int| 0 <= h < g < d.groups@.len() ==> (#[trigger] d.groups@[h]).id@ != (#[trigger] d.groups@[g]).id@
    &&& forall|n: int| 0 <= n < d.nodes@.len() ==> !names_group(d.groups@, (#[trigger] d.nodes@[n]).id@)
    &&& forall|m: int, n: int| 0 <= m < n < d.nodes@.len() ==> (#[trigger] d.nodes@[m]).id@ != (#[trigger] d.nodes@[n]).id@
    &&& parents_found(d.groups@, d.groups@.len() as int)
    &&& forall|n: int| 0 <= n < d.nodes@.len() ==> ((#[trigger] d.nodes@[n]).parent matches Some(p) ==> names_group(d.groups@, p@))
    &&& forall|k: int| 0 <= k < d.spacers@.len() ==> ((#[trigger] d.spacers@[k]).parent matches Some(p) ==> names_group(d.groups@, p@))
    &&& forall|e: int| 0 <= e < d.edges@.len() ==> {
        let edge = #[trigger] d.edges@[e];
        &&& names_group(d.groups@, edge.from@) || names_node(d.nodes@, edge.from@)
        &&& names_group(d.groups@, edge.to@) || names_node(d.nodes@, edge.to@)
    }
}

/// Distinct indices below `n` number at most `n`.
proof fn lemma_distinct_indices_bound(visited: Seq<int>, n: int)
    requires
        0 <= n,
        forall|k: int| 0 <= k < visited.len() ==> 0 <= #[trigger] visited[k] < n,
        forall|a: int, b: int| 0 <= a < b < visited.len() ==> #[trigger] visited[a] != #[trigger] visited[b],
    ensures
        visited.len() <= n,
{
    assert(visited.no_duplicates());
    visited.unique_seq_to_set();
    vstd::set_lib::lemma_int_range(0, n);
    assert(visited.to_set().subset_of(vstd::set_lib::set_int_range(0, n)));
    vstd::set_lib::lemma_len_subset(visited.to_set(), vstd::set_lib::set_int_range(0, n));
}

/// Whether `e` reports a group cycle of the diagram's family.
pub open spec fn is_group_cycle_error(e: MermansiError, family: &'static str) -> bool {
    e matches MermansiError::GeometryLayout { family: f, message } && f == family
        && message@.len() >= 12 && message@.subrange(0, 11) == "group cycle"@
}

/// Checks the diagram's hierarchy: group ids unique, entity ids unique across groups and
/// nodes, every parent an existing group, every edge end an existing entity, no group cycle
/// and no nesting deeper than [`MAX_DEPTH`].
fn validate_hierarchy(diagram: &BoxDiagram) -> (r: Result<()>)
    ensures
        r matches Err(e) ==> e is GeometryLayout || (e matches MermansiError::RenderLimit { context, .. } && context == "box geometry depth"),
        r is Ok && diagram.groups@.len() > 0 ==> !all_parented(diagram.groups@),
        references_valid(*diagram) && 0 < diagram.groups@.len() <= MAX_DEPTH && all_parented(diagram.groups@)
            ==> (r matches Err(e) && is_group_cycle_error(e, diagram.family)),
        references_valid(*diagram) && diagram.groups@.len() == 0 ==> r is Ok,
{
    let family = diagram.family;
    let mut g: usize = 0;
    while g < diagram.groups.len()
        invariant
            g <= diagram.groups@.len(),
        decreases diagram.groups@.len() - g,
    {
        let mut h: usize = 0;
        while h < g
            invariant
                h <= g < diagram.groups@.len(),
            decreases g - h,
        {
            if str_eq(diagram.groups[h].id.as_str(), diagram.groups[g].id.as_str()) {
                return Err(layout_error(family, text_of(&["duplicate group id: ", diagram.groups[g].id.as_str()])));
            }
            h = h + 1;
        }
        g = g + 1;
    }
    let mut n: usize = 0;
    while n < diagram.nodes.len()
        invariant
            n <= diagram.nodes@.len(),
        decreases diagram.nodes@.len() - n,
    {
        let id = diagram.nodes[n].id.as_str();
        let mut duplicate = group_index(diagram, id).is_some();
        let mut m: usize = 0;
        while m < n
            invariant
                m <= n < diagram.nodes@.len(),
                id@ == diagram.nodes@[n as int].id@,
                duplicate ==> names_group(diagram.groups@, id@)
                    || exists|k: int| 0 <= k < m && (#[trigger] diagram.nodes@[k]).id@ == id@,
            decreases n - m,
        {
            if str_eq(diagram.nodes[m].id.as_str(), id) {
                duplicate = true;
            }
            m = m + 1;
        }
        if duplicate {
            return Err(layout_error(family, text_of(&["duplicate entity id: ", id])));
        }
        n = n + 1;
    }
    let mut g: usize = 0;
    while g < diagram.groups.len()
        invariant
            g <= diagram.groups@.len(),
            parents_found(diagram.groups@, g as int),
        decreases diagram.groups@.len() - g,
    {
        match &diagram.groups[g].parent {
            Some(parent) => {
                if group_index(diagram, parent.as_str()).is_none() {
                    return Err(layout_error(family, text_of(&["group ", diagram.groups[g].id.as_str(), " references missing parent ", parent.as_str()])));
                }
            },
            None => {},
        }
        g = g + 1;
    }
    let mut n: usize = 0;
    while n < diagram.nodes.len()
        invariant
            n <= diagram.nodes@.len(),
            parents_found(diagram.groups@, diagram.groups@.len() as int),
        decreases diagram.nodes@.len() - n,
    {
        match &diagram.nodes[n].parent {
            Some(parent) => {
                if group_index(diagram, parent.as_str()).is_none() {
                    return Err(layout_error(family, text_of(&["node ", diagram.nodes[n].id.as_str(), " references missing parent ", parent.as_str()])));
                }
            },
            None => {},
        }
        n = n + 1;
    }
    let mut s: usize = 0;
    while s < diagram.spacers.len()
        invariant
            s <= diagram.spacers@.len(),
            parents_found(diagram.groups@, diagram.groups@.len() as int),
        decreases diagram.spacers@.len() - s,
    {
        match &diagram.spacers[s].parent {
            Some(parent) => {
                if group_index(diagram, parent.as_str()).is_none() {
                    return Err(layout_error(family, text_of(&["spacer references missing parent ", parent.as_str()])));
                }
            },
            None => {},
        }
        s = s + 1;
    }
    let mut e: usize = 0;
    while e < diagram.edges.len()
        invariant
            e <= diagram.edges@.len(),
            parents_found(diagram.groups@, diagram.groups@.len() as int),
        decreases diagram.edges@.len() - e,
    {
        let edge = &diagram.edges[e];
        let from = edge.from.as_str();
        if group_index(diagram, from).is_none() && node_index(diagram, from).is_none() {
            return Err(layout_error(family, text_of(&["edge references missing endpoint ", from])));
        }
        let to = edge.to.as_str();
        if group_index(diagram, to).is_none() && node_index(diagram, to).is_none() {
            return Err(layout_error(family, text_of(&["edge references missing endpoint ", to])));
        }
        e = e + 1;
    }
    let mut depths: Vec<(String, usize)> = Vec::new();
    let mut g: usize = 0;
    while g < diagram.groups.len()
        invariant
            g <= diagram.groups@.len(),
            parents_found(diagram.groups@, diagram.groups@.len() as int),
            g == 0 ==> depths@.len() == 0,
            g > 0 ==> !all_parented(diagram.groups@),
        decreases diagram.groups@.len() - g,
    {
        let start = diagram.groups[g].id.as_str();
        if depth_of(&depths, start).is_some() {
            g = g + 1;
            continue;
        }
        let mut path: Vec<String> = Vec::new();
        let mut current = g;
        let base_depth: usize;
        let ghost mut visited: Seq<int> = Seq::empty();
        loop
            invariant
                current < diagram.groups@.len(),
                path@.len() <= MAX_DEPTH,
                parents_found(diagram.groups@, diagram.groups@.len() as int),
                g == 0 ==> depths@.len() == 0,
                visited.len() == path@.len(),
                forall|k: int| 0 <= k < visited.len() ==> 0 <= #[trigger] visited[k] < diagram.groups@.len()
                    && path@[k]@ == diagram.groups@[visited[k]].id@,
                forall|a: int, b: int| 0 <= a < b < visited.len() ==> #[trigger] visited[a] != #[trigger] visited[b],
            ensures
                !(g == 0 && all_parented(diagram.groups@)),
            decreases MAX_DEPTH - path@.len(),
        {
            let id = diagram.groups[current].id.as_str();
            match depth_of(&depths, id) {
                Some(depth) => {
                    base_depth = depth;
                    break;
                },
                None => {},
            }
            if strings_contain(&path, id) {
                let parts = ["group cycle includes ", id];
                let message = text_of(&parts);
                proof {
                    reveal_strlit("group cycle includes ");
                    reveal_strlit("group cycle");
                    reveal_with_fuel(concat_parts, 3);
                    assert(parts@.len() == 2);
                    assert(parts@[0] == "group cycle includes ");
                    assert(parts@[1] == id);
                    assert(message@ =~= "group cycle includes "@ + id@);
                    assert(message@.subrange(0, 11) =~= "group cycle"@);
                    assert(message@.len() >= 12);
                }
                let ghost text = message@;
                let e = layout_error(diagram.family, message);
                assert(is_group_cycle_error(e, diagram.family));
                return Err(e);
            }
            let ghost before_path = path@;
            let pushed = diagram.groups[current].id.clone();
            proof {
                assert forall|k: int| 0 <= k < visited.len() implies visited[k] != current as int by {
                    if visited[k] == current as int {
                        assert(path@[k]@ == id@);
                    }
                }
            }
            path.push(pushed);
            proof {
                visited = visited.push(current as int);
                assert forall|k: int| 0 <= k < visited.len() implies 0 <= #[trigger] visited[k] < diagram.groups@.len()
                    && path@[k]@ == diagram.groups@[visited[k]].id@ by {
                    if k < visited.len() - 1 {
                        assert(path@[k] == before_path[k]);
                    }
                }
                if references_valid(*diagram) && diagram.groups@.len() <= MAX_DEPTH {
                    lemma_distinct_indices_bound(visited, diagram.groups@.len() as int);
                }
            }
            if path.len() > MAX_DEPTH {
                return Err(MermansiError::RenderLimit { context: "box geometry depth", requested: path.len(), limit: MAX_DEPTH });
            }
            let parent = match &diagram.groups[current].parent {
                Some(parent) => {
                    let found = group_index(diagram, parent.as_str());
                    proof {
                        if found is None {
                            let j = choose|j: int| 0 <= j < diagram.groups@.len() && (#[trigger] diagram.groups@[j]).id@ == parent@;
                            assert(diagram.groups@[j].id@ != parent@);
                        }
                    }
                    found
                },
                None => None,
            };
            match parent {
                Some(p) => {
                    current = p;
                },
                None => {
                    base_depth = 0;
                    break;
                },
            }
        }
        let requested = base_depth.saturating_add(path.len());
        if requested > MAX_DEPTH {
            return Err(MermansiError::RenderLimit { context: "box geometry depth", requested, limit: MAX_DEPTH });
        }
        let mut depth = base_depth;
        while path.len() > 0
            decreases path@.len(),
        {
            let id = path.pop().unwrap();
            depth = depth.saturating_add(1);
            depths.push((id, depth));
        }
        g = g + 1;
    }
    Ok(())
}

/// The cells covered by the obstacles on a `width` by `height` grid.
fn blocked_cells(obstacles: &Vec<Rect>, width: usize, height: usize) -> (r: Vec<bool>)
    requires
        width * height <= usize::MAX,
    ensures
        r@.len() == width * height,
{
    let n = width * height;
    let mut blocked: Vec<bool> = Vec::new();
    let mut k: usize = 0;
    while k < n
        invariant
            k <= n,
            blocked@.len() == k,
        decreases n - k,
    {
        blocked.push(false);
        k = k + 1;
    }
    if width == 0 || height == 0 {
        return blocked;
    }
    let mut o: usize = 0;
    while o < obstacles.len()
        invariant
            o <= obstacles@.len(),
            blocked@.len() == n,
            n == width * height,
            0 < width,
            0 < height,
        decreases obstacles@.len() - o,
    {
        let obstacle = obstacles[o];
        let bottom = min_usize(obstacle.y.saturating_add(obstacle.height).saturating_sub(1), height - 1);
        let right = min_usize(obstacle.x.saturating_add(obstacle.width).saturating_sub(1), width - 1);
        let mut y = min_usize(obstacle.y, height);
        while y <= bottom
            invariant
                bottom < height,
                right < width,
                blocked@.len() == n,
                n == width * height,
            decreases bottom + 1 - y,
        {
            let mut x = min_usize(obstacle.x, width);
            while x <= right
                invariant
                    y <= bottom < height,
                    right < width,
                    blocked@.len() == n,
                    n == width * height,
                decreases right + 1 - x,
            {
                proof {
                    assert(y * width + x < width * height) by (nonlinear_arith)
                        requires y < height, x < width;
                }
                blocked.set(y * width + x, true);
                x = x + 1;
            }
            y = y + 1;
        }
        o = o + 1;
    }
    blocked
}

proof fn lemma_cell_index_unique(w: int, px: int, py: int, qx: int, qy: int)
    requires
        0 <= px < w,
        0 <= qx < w,
        0 <= py,
        0 <= qy,
    ensures
        (py * w + px == qy * w + qx) ==> (py == qy && px == qx),
{
    if py < qy {
        assert(py * w + px < qy * w + qx) by (nonlinear_arith)
            requires 0 <= px < w, 0 <= qx, py < qy, 0 <= py;
    } else if qy < py {
        assert(qy * w + qx < py * w + px) by (nonlinear_arith)
            requires 0 <= qx < w, 0 <= px, qy < py, 0 <= qy;
    }
}

/// Blocks the outermost rows and columns of the grid.
fn block_route_frame(blocked: &mut Vec<bool>, width: usize, height: usize)
    requires
        old(blocked)@.len() == width * height,
        width * height <= usize::MAX,
    ensures
        final(blocked)@.len() == old(blocked)@.len(),
        width == 0 || height == 0 ==> final(blocked)@ == old(blocked)@,
        forall|px: int, py: int| 0 <= px < width && 0 <= py < height
            ==> #[trigger] final(blocked)@[py * width + px] == (old(blocked)@[py * width + px]
                || px == 0 || py == 0 || px == width - 1 || py == height - 1),
{
    if width == 0 || height == 0 {
        return;
    }
    let mut x: usize = 0;
    while x < width
        invariant
            blocked@.len() == width * height,
            width * height <= usize::MAX,
            0 < height,
            0 < width,
            x <= width,
            forall|px: int, py: int| 0 <= px < width && 0 <= py < height
                ==> #[trigger] blocked@[py * width + px] == (old(blocked)@[py * width + px]
                    || (px < x && (py == 0 || py == height - 1))),
        decreases width - x,
    {
        proof {
            assert((height - 1) * width + x < width * height) by (nonlinear_arith)
                requires x < width, 0 < height;
            assert((height - 1) * width <= width * height) by (nonlinear_arith)
                requires 0 < height;
            assert(x < width * height) by (nonlinear_arith)
                requires x < width, 0 < height;
        }
        let ghost before = blocked@;
        blocked.set(x, true);
        blocked.set((height - 1) * width + x, true);
        proof {
            assert forall|px: int, py: int| 0 <= px < width && 0 <= py < height
                implies #[trigger] blocked@[py * width + px] == (old(blocked)@[py * width + px]
                    || (px < x + 1 && (py == 0 || py == height - 1))) by {
                lemma_cell_index_unique(width as int, px, py, x as int, 0);
                lemma_cell_index_unique(width as int, px, py, x as int, height - 1);
                assert(0 * width + x == x);
                assert(0 <= py * width + px < width * height) by (nonlinear_arith)
                    requires 0 <= px < width, 0 <= py < height;
            }
        }
        x = x + 1;
    }
    let mut y: usize = 0;
    while y < height
        invariant
            blocked@.len() == width * height,
            width * height <= usize::MAX,
            0 < width,
            0 < height,
            y <= height,
            forall|px: int, py: int| 0 <= px < width && 0 <= py < height
                ==> #[trigger] blocked@[py * width + px] == (old(blocked)@[py * width + px]
                    || py == 0 || py == height - 1 || (py < y && (px == 0 || px == width - 1))),
        decreases height - y,
    {
        proof {
            assert(y * width + width - 1 < width * height) by (nonlinear_arith)
                requires y < height, 0 < width;
            assert(y * width + width <= width * height) by (nonlinear_arith)
                requires y < height, 0 < width;
        }
        blocked.set(y * width, true);
        blocked.set(y * width + width - 1, true);
        proof {
            assert forall|px: int, py: int| 0 <= px < width && 0 <= py < height
                implies #[trigger] blocked@[py * width + px] == (old(blocked)@[py * width + px]
                    || py == 0 || py == height - 1 || (py < y + 1 && (px == 0 || px == width - 1))) by {
                lemma_cell_index_unique(width as int, px, py, 0, y as int);
                lemma_cell_index_unique(width as int, px, py, width - 1, y as int);
                assert(0 <= py * width + px < width * height) by (nonlinear_arith)
                    requires 0 <= px < width, 0 <= py < height;
            }
        }
        y = y + 1;
    }
}

fn point_before(a: Point, b: Point) -> (r: bool)
    ensures
        r == (a.y < b.y || (a.y == b.y && a.x < b.x)),
{
    a.y < b.y || (a.y == b.y && a.x < b.x)
}

/// Whether `p` lies on the straight segment from `a` to `b` (a column, else a row; a
/// diagonal segment holds no cell).
pub open spec fn on_segment(a: Point, b: Point, p: Point) -> bool {
    if a.x == b.x {
        p.x == a.x && (if a.y <= b.y { a.y <= p.y <= b.y } else { b.y <= p.y <= a.y })
    } else if a.y == b.y {
        p.y == a.y && (if a.x <= b.x { a.x <= p.x <= b.x } else { b.x <= p.x <= a.x })
    } else {
        false
    }
}

/// Whether `p` lies on one of the first `n` segments of the path.
pub open spec fn on_path(points: Seq<Point>, n: int, p: Point) -> bool {
    exists|k: int| 0 <= k < n && k + 1 < points.len() && #[trigger] on_segment(points[k], points[k + 1], p)
}

/// Adds the cells of the straight segment from `a` to `b`.
fn push_segment_cells(cells: &mut Vec<Point>, a: Point, b: Point)
    ensures
        forall|p: Point| #[trigger] final(cells)@.contains(p) <==> (old(cells)@.contains(p) || on_segment(a, b, p)),
{
    if a.x == b.x {
        let (start, end) = ordered(a.y, b.y);
        let mut y = start;
        loop
            invariant_except_break
                forall|p: Point| #[trigger] cells@.contains(p) <==> (old(cells)@.contains(p)
                    || (p.x == a.x && start <= p.y < y)),
            invariant
                start <= y <= end,
                start == (if a.y <= b.y { a.y } else { b.y }),
                end == (if a.y <= b.y { b.y } else { a.y }),
                a.x == b.x,
            ensures
                forall|p: Point| #[trigger] cells@.contains(p) <==> (old(cells)@.contains(p)
                    || (p.x == a.x && start <= p.y <= end)),
            decreases end - y,
        {
            let ghost before = cells@;
            let q = Point::new(a.x, y);
            cells.push(q);
            assert forall|p: Point| #[trigger] cells@.contains(p) <==> (before.contains(p) || p == q) by {
                if cells@.contains(p) {
                    let i = choose|i: int| 0 <= i < cells@.len() && cells@[i] == p;
                    if i < before.len() { assert(before[i] == p); }
                }
                if before.contains(p) {
                    let i = choose|i: int| 0 <= i < before.len() && before[i] == p;
                    assert(cells@[i] == p);
                }
                if p == q { assert(cells@[before.len() as int] == p); }
            }
            if y == end {
                break;
            }
            y = y + 1;
        }
    } else if a.y == b.y {
        let (start, end) = ordered(a.x, b.x);
        let mut x = start;
        loop
            invariant_except_break
                forall|p: Point| #[trigger] cells@.contains(p) <==> (old(cells)@.contains(p)
                    || (p.y == a.y && start <= p.x < x)),
            invariant
                start <= x <= end,
                start == (if a.x <= b.x { a.x } else { b.x }),
                end == (if a.x <= b.x { b.x } else { a.x }),
                a.y == b.y,
                a.x != b.x,
            ensures
                forall|p: Point| #[trigger] cells@.contains(p) <==> (old(cells)@.contains(p)
                    || (p.y == a.y && start <= p.x <= end)),
            decreases end - x,
        {
            let ghost before = cells@;
            let q = Point::new(x, a.y);
            cells.push(q);
            assert forall|p: Point| #[trigger] cells@.contains(p) <==> (before.contains(p) || p == q) by {
                if cells@.contains(p) {
                    let i = choose|i: int| 0 <= i < cells@.len() && cells@[i] == p;
                    if i < before.len() { assert(before[i] == p); }
                }
                if before.contains(p) {
                    let i = choose|i: int| 0 <= i < before.len() && before[i] == p;
                    assert(cells@[i] == p);
                }
                if p == q { assert(cells@[before.len() as int] == p); }
            }
            if x == end {
                break;
            }
            x = x + 1;
        }
    }
}

/// The cells of the path's straight segments, ordered by row then column, each once.
pub fn path_cells(points: &Vec<Point>) -> (r: Vec<Point>)
    ensures
        forall|i: int, j: int| 0 <= i < j < r@.len() ==> (#[trigger] r@[i]).y < (#[trigger] r@[j]).y
            || (r@[i].y == r@[j].y && r@[i].x < r@[j].x),
        forall|p: Point| #[trigger] r@.contains(p) <==> on_path(points@, points@.len() as int, p),
{
    let mut cells: Vec<Point> = Vec::new();
    let mut k: usize = 0;
    while k < points.len() && points.len() - k > 1
        invariant
            k <= points@.len(),
            forall|p: Point| #[trigger] cells@.contains(p) <==> on_path(points@, k as int, p),
        decreases points@.len() - k,
    {
        let a = points[k];
        let b = points[k + 1];
        push_segment_cells(&mut cells, a, b);
        k = k + 1;
        assert forall|p: Point| #[trigger] cells@.contains(p) <==> on_path(points@, k as int, p) by {
            if on_segment(a, b, p) {
                assert(on_segment(points@[k - 1], points@[k as int], p));
            }
            if on_path(points@, k as int, p) {
                let j = choose|j: int| 0 <= j < k && j + 1 < points@.len() && #[trigger] on_segment(points@[j], points@[j + 1], p);
                if j < k - 1 {
                    assert(on_path(points@, k - 1, p));
                }
            }
        }
    }
    assert forall|p: Point| #[trigger] cells@.contains(p) <==> on_path(points@, points@.len() as int, p) by {
        if on_path(points@, points@.len() as int, p) {
            let j = choose|j: int| 0 <= j < points@.len() && j + 1 < points@.len() && #[trigger] on_segment(points@[j], points@[j + 1], p);
            assert(on_path(points@, k as int, p));
        }
    }
    let mut sorted: Vec<Point> = Vec::new();
    while cells.len() > 0
        invariant
            forall|i: int, j: int| 0 <= i < j < sorted@.len() ==> (#[trigger] sorted@[i]).y < (#[trigger] sorted@[j]).y
                || (sorted@[i].y == sorted@[j].y && sorted@[i].x < sorted@[j].x),
            forall|p: Point| #![trigger sorted@.contains(p)] #![trigger cells@.contains(p)]
                (sorted@.contains(p) || cells@.contains(p)) <==> on_path(points@, points@.len() as int, p),
        decreases cells@.len(),
    {
        let ghost all = cells@;
        let ghost all_sorted = sorted@;
        let c = cells.pop().unwrap();
        assert forall|p: Point| #[trigger] all.contains(p) <==> (cells@.contains(p) || p == c) by {
            if all.contains(p) {
                let i = choose|i: int| 0 <= i < all.len() && all[i] == p;
                if i < all.len() - 1 { assert(cells@[i] == p); }
            }
            if cells@.contains(p) {
                let i = choose|i: int| 0 <= i < cells@.len() && cells@[i] == p;
                assert(all[i] == p);
            }
        }
        let mut pos: usize = 0;
        let mut duplicate = false;
        while pos < sorted.len()
            invariant_except_break
                !duplicate,
            invariant
                pos <= sorted@.len(),
                forall|i: int| 0 <= i < pos ==> point_lt(#[trigger] sorted@[i], c),
            ensures
                !duplicate ==> pos == sorted@.len() || (!point_lt(sorted@[pos as int], c) && sorted@[pos as int] != c),
                duplicate ==> pos < sorted@.len() && sorted@[pos as int] == c,
                pos <= sorted@.len(),
                forall|i: int| 0 <= i < pos ==> point_lt(#[trigger] sorted@[i], c),
            decreases sorted@.len() - pos,
        {
            if sorted[pos] == c {
                duplicate = true;
                assert(sorted@[pos as int] == c);
                break;
            }
            if !point_before(sorted[pos], c) {
                break;
            }
            pos = pos + 1;
        }
        if duplicate {
            assert(sorted@[pos as int] == c);
            assert(sorted@.contains(c));
        }
        if !duplicate {
            let ghost before = sorted@;
            sorted.insert(pos, c);
            assert forall|p: Point| #[trigger] sorted@.contains(p) <==> (before.contains(p) || p == c) by {
                if sorted@.contains(p) {
                    let i = choose|i: int| 0 <= i < sorted@.len() && sorted@[i] == p;
                    if i < pos { assert(before[i] == p); } else if i > pos { assert(before[i - 1] == p); }
                }
                if before.contains(p) {
                    let i = choose|i: int| 0 <= i < before.len() && before[i] == p;
                    if i < pos { assert(sorted@[i] == p); } else { assert(sorted@[i + 1] == p); }
                }
                if p == c { assert(sorted@[pos as int] == p); }
            }
            proof {
                let after = sorted@;
                assert forall|i: int, j: int| 0 <= i < j < after.len() implies (#[trigger] after[i]).y < (#[trigger] after[j]).y
                    || (after[i].y == after[j].y && after[i].x < after[j].x) by {
                    if pos < before.len() {
                        assert(!point_lt(before[pos as int], c) && before[pos as int] != c);
                    }
                    let bi = if i < pos { before[i] } else if i == pos { c } else { before[i - 1] };
                    let bj = if j < pos { before[j] } else if j == pos { c } else { before[j - 1] };
                    assert(after[i] == bi);
                    assert(after[j] == bj);
                    if i < pos && j > pos {
                        assert(point_lt(before[i], c));
                    }
                    if i == pos && j > pos + 1 {
                        assert(point_lt(before[pos as int], before[j - 1]) || pos as int == j - 1);
                    }
                }
            }
        }
        assert(forall|p: Point| #[trigger] sorted@.contains(p) <==> (all_sorted.contains(p) || p == c));
        assert forall|p: Point| #![trigger sorted@.contains(p)] #![trigger cells@.contains(p)]
            (sorted@.contains(p) || cells@.contains(p)) <==> on_path(points@, points@.len() as int, p) by {
            assert(all.contains(p) <==> (cells@.contains(p) || p == c));
            assert(sorted@.contains(p) <==> (all_sorted.contains(p) || p == c));
            assert((all_sorted.contains(p) || all.contains(p)) <==> on_path(points@, points@.len() as int, p));
        }
    }
    assert forall|p: Point| #[trigger] sorted@.contains(p) <==> on_path(points@, points@.len() as int, p) by {
        assert(!cells@.contains(p));
    }
    sorted
}

pub open spec fn point_lt(a: Point, b: Point) -> bool {
    a.y < b.y || (a.y == b.y && a.x < b.x)
}

/// Merges the stroke directions that the path's segments take at `point` into the canvas.
fn merge_path_cell(canvas: &mut Canvas, points: &Vec<Point>, point: Point, charset: Charset)
    requires
        old(canvas).wf(),
    ensures
        final(canvas).wf(),
        final(canvas)@.width == old(canvas)@.width,
        final(canvas)@.height == old(canvas)@.height,
{
    let mut connections = [false, false, false, false];
    let mut k: usize = 0;
    while k < points.len() && points.len() - k > 1
        invariant
            k <= points@.len(),
        decreases points@.len() - k,
    {
        let a = points[k];
        let b = points[k + 1];
        let (lo_y, hi_y) = ordered(a.y, b.y);
        let (lo_x, hi_x) = ordered(a.x, b.x);
        if a.x == b.x && point.x == a.x && point.y >= lo_y && point.y <= hi_y {
            if point.y > lo_y {
                connections.set(0, true);
            }
            if point.y < hi_y {
                connections.set(2, true);
            }
        } else if a.y == b.y && point.y == a.y && point.x >= lo_x && point.x <= hi_x {
            if point.x > lo_x {
                connections.set(3, true);
            }
            if point.x < hi_x {
                connections.set(1, true);
            }
        }
        k = k + 1;
    }
    proof {
        crate::canvas::lemma_merged_stroke_wf(canvas@, point.x as int, point.y as int,
            crate::canvas::connection_bits(connections), charset);
    }
    canvas.merge_stroke_connections(point.x, point.y, connections, charset);
}

/// Draws a path: solid paths as merged strokes along each segment, dotted paths as dots with
/// strokes at both ends and wherever the path crosses something already drawn.
fn draw_path(canvas: &mut Canvas, points: &Vec<Point>, charset: Charset, style: EdgeStyle) -> (r: Result<()>)
    requires
        old(canvas).wf(),
    ensures
        final(canvas).wf(),
        final(canvas)@.width == old(canvas)@.width,
        final(canvas)@.height == old(canvas)@.height,
{
    if style == EdgeStyle::Dotted {
        let cells = path_cells(points);
        let last = cells.len().saturating_sub(1);
        let glyph = if charset == Charset::Unicode { '·' } else { '.' };
        let mut index: usize = 0;
        while index < cells.len()
            invariant
                canvas.wf(),
                canvas@.width == old(canvas)@.width,
                canvas@.height == old(canvas)@.height,
                index <= cells@.len(),
            decreases cells@.len() - index,
        {
            let point = cells[index];
            let shows = match canvas.get_cell(point.x, point.y) {
                Some(cell) => !cell.is_empty(),
                None => false,
            };
            let occupied = shows || canvas.continuation_owner(point.x, point.y).is_some();
            if occupied || index == 0 || index == last {
                merge_path_cell(canvas, points, point, charset);
            } else {
                match canvas.set_char(point.x, point.y, glyph) {
                    Ok(()) => {},
                    Err(e) => return Err(e),
                }
            }
            index = index + 1;
        }
        return Ok(());
    }
    let mut k: usize = 0;
    while k < points.len() && points.len() - k > 1
        invariant
            canvas.wf(),
            canvas@.width == old(canvas)@.width,
            canvas@.height == old(canvas)@.height,
            k <= points@.len(),
        decreases points@.len() - k,
    {
        let a = points[k];
        let b = points[k + 1];
        if a.x == b.x {
            let (start, end) = ordered(a.y, b.y);
            match draw_vertical_line(canvas, a.x, start, end, charset) {
                Ok(()) => {},
                Err(e) => return Err(e),
            }
        } else if a.y == b.y {
            let (start, end) = ordered(a.x, b.x);
            match draw_horizontal_line(canvas, a.y, start, end, charset) {
                Ok(()) => {},
                Err(e) => return Err(e),
            }
        }
        k = k + 1;
    }
    Ok(())
}

/// Writes `text` centred in the `width` columns from `left` on row `y`.
fn write_centered(canvas: &mut Canvas, left: usize, y: usize, width: usize, text: &String) -> (r: Result<()>)
    requires
        old(canvas).wf(),
    ensures
        final(canvas).wf(),
        final(canvas)@.width == old(canvas)@.width,
        final(canvas)@.height == old(canvas)@.height,
        ({
            let tw = crate::text::unicode_str_width(text@) as int;
            let pad = (if width >= tw { width - tw } else { 0 }) / 2;
            let x = if left + pad > usize::MAX { usize::MAX as int } else { left + pad };
            match text_placed(old(canvas)@, x, y as int, text@) {
                Ok(v) => r is Ok && final(canvas)@ == v,
                Err(e) => r == Err::<(), MermansiError>(e) && final(canvas)@ == old(canvas)@,
            }
        }),
{
    let text_width = text_width(text);
    let x = left.saturating_add(width.saturating_sub(text_width) / 2);
    canvas.set_text(x, y, text.as_str())
}

fn shape_of(node_shapes: &Vec<(String, BoxNodeShape)>, id: &String) -> (r: BoxNodeShape)
    ensures
        (forall|j: int| 0 <= j < node_shapes@.len() ==> (#[trigger] node_shapes@[j]).0@ != id@)
            ==> r == BoxNodeShape::Rectangle,
        (exists|j: int| 0 <= j < node_shapes@.len() && (#[trigger] node_shapes@[j]).0@ == id@)
            ==> exists|i: int| 0 <= i < node_shapes@.len() && (#[trigger] node_shapes@[i]).0@ == id@
            && node_shapes@[i].1 == r && forall|j: int| i < j < node_shapes@.len() ==> (#[trigger] node_shapes@[j]).0@ != id@,
{
    let mut shape = BoxNodeShape::Rectangle;
    let mut i: usize = 0;
    while i < node_shapes.len()
        invariant
            i <= node_shapes@.len(),
            (forall|k: int| 0 <= k < i ==> (#[trigger] node_shapes@[k]).0@ != id@) ==> shape == BoxNodeShape::Rectangle,
            (exists|k: int| 0 <= k < i && (#[trigger] node_shapes@[k]).0@ == id@)
                ==> exists|k: int| 0 <= k < i && (#[trigger] node_shapes@[k]).0@ == id@
                && node_shapes@[k].1 == shape && forall|j: int| k < j < i ==> (#[trigger] node_shapes@[j]).0@ != id@,
        decreases node_shapes@.len() - i,
    {
        if node_shapes[i].0 == *id {
            shape = node_shapes[i].1;
        }
        i = i + 1;
    }
    shape
}

/// The canvas with the first `n` characters of `writes` written in turn, or the first error.
pub open spec fn chars_written(v: CanvasView, writes: Seq<(int, int, char)>, n: int) -> Result<CanvasView>
    decreases n,
{
    if n <= 0 {
        Ok(v)
    } else {
        match chars_written(v, writes, n - 1) {
            Ok(u) => text_placed(u, writes[n - 1].0, writes[n - 1].1, char_text(writes[n - 1].2)),
            Err(e) => Err(e),
        }
    }
}

proof fn lemma_chars_written_err(v: CanvasView, writes: Seq<(int, int, char)>, k: int, n: int)
    requires
        0 <= k <= n,
        chars_written(v, writes, k) is Err,
    ensures
        chars_written(v, writes, n) == chars_written(v, writes, k),
    decreases n - k,
{
    if k < n {
        lemma_chars_written_err(v, writes, k, n - 1);
    }
}

/// The characters that redraw a node's corners (and the middle of its sides) for its shape.
pub open spec fn shape_writes(rect: Rect, shape: BoxNodeShape, charset: Charset) -> Seq<(int, int, char)> {
    let right = if rect.x + rect.width >= 1 { (if rect.x + rect.width > usize::MAX { usize::MAX as int }
        else { rect.x + rect.width }) - 1 } else { 0 };
    let bottom = if rect.y + rect.height >= 1 { (if rect.y + rect.height > usize::MAX { usize::MAX as int }
        else { rect.y + rect.height }) - 1 } else { 0 };
    let middle = if rect.y + rect.height / 2 > usize::MAX { usize::MAX as int } else { rect.y + rect.height / 2 };
    let unicode = charset == Charset::Unicode;
    match shape {
        BoxNodeShape::Rectangle => seq![],
        BoxNodeShape::Rounded => seq![
            (rect.x as int, rect.y as int, if unicode { '╭' } else { '.' }),
            (right, rect.y as int, if unicode { '╮' } else { '.' }),
            (rect.x as int, bottom, if unicode { '╰' } else { '\'' }),
            (right, bottom, if unicode { '╯' } else { '\'' })],
        BoxNodeShape::Cylinder => seq![
            (rect.x as int, rect.y as int, if unicode { '╭' } else { '.' }),
            (right, rect.y as int, if unicode { '╮' } else { '.' }),
            (rect.x as int, bottom, if unicode { '╰' } else { '\'' }),
            (right, bottom, if unicode { '╯' } else { '\'' }),
            (rect.x as int, middle, '('), (right, middle, ')')],
        BoxNodeShape::Decision => seq![
            (rect.x as int, rect.y as int, if unicode { '╱' } else { '/' }),
            (right, rect.y as int, if unicode { '╲' } else { '\\' }),
            (rect.x as int, bottom, if unicode { '╲' } else { '\\' }),
            (right, bottom, if unicode { '╱' } else { '/' }),
            (rect.x as int, middle, '<'), (right, middle, '>')],
    }
}

/// The cells and characters of `writes`.
pub open spec fn write_views(writes: Seq<(usize, usize, char)>) -> Seq<(int, int, char)> {
    writes.map_values(|w: (usize, usize, char)| (w.0 as int, w.1 as int, w.2))
}

/// Writes each character of `writes` at its cell in turn, stopping at the first error.
fn write_chars(canvas: &mut Canvas, writes: &Vec<(usize, usize, char)>) -> (r: Result<()>)
    requires
        old(canvas).wf(),
    ensures
        final(canvas).wf(),
        final(canvas)@.width == old(canvas)@.width,
        final(canvas)@.height == old(canvas)@.height,
        match chars_written(old(canvas)@, write_views(writes@), writes@.len() as int) {
            Ok(v) => r is Ok && final(canvas)@ == v,
            Err(e) => r == Err::<(), MermansiError>(e),
        },
{
    let mut k: usize = 0;
    while k < writes.len()
        invariant
            k <= writes@.len(),
            canvas.wf(),
            canvas@.width == old(canvas)@.width,
            canvas@.height == old(canvas)@.height,
            chars_written(old(canvas)@, write_views(writes@), k as int) == Ok::<CanvasView, MermansiError>(canvas@),
        decreases writes@.len() - k,
    {
        let (x, y, c) = writes[k];
        match canvas.set_char(x, y, c) {
            Ok(()) => {},
            Err(e) => {
                proof {
                    lemma_chars_written_err(old(canvas)@, write_views(writes@), k + 1, writes@.len() as int);
                }
                return Err(e);
            },
        }
        k = k + 1;
    }
    Ok(())
}

/// Redraws a node's corners (and the middle of its sides) for its shape.
#[verifier::spinoff_prover]
#[verifier::rlimit(60)]
fn paint_node_shape(canvas: &mut Canvas, rect: Rect, shape: BoxNodeShape, charset: Charset) -> (r: Result<()>)
    requires
        old(canvas).wf(),
    ensures
        final(canvas).wf(),
        final(canvas)@.width == old(canvas)@.width,
        final(canvas)@.height == old(canvas)@.height,
        match chars_written(old(canvas)@, shape_writes(rect, shape, charset), shape_writes(rect, shape, charset).len() as int) {
            Ok(v) => r is Ok && final(canvas)@ == v,
            Err(e) => r == Err::<(), MermansiError>(e),
        },
{
    let (top_left, top_right, bottom_left, bottom_right) = match shape {
        BoxNodeShape::Rectangle => return Ok(()),
        BoxNodeShape::Rounded | BoxNodeShape::Cylinder => match charset {
            Charset::Unicode => ('╭', '╮', '╰', '╯'),
            Charset::Ascii => ('.', '.', '\'', '\''),
        },
        BoxNodeShape::Decision => match charset {
            Charset::Unicode => ('╱', '╲', '╲', '╱'),
            Charset::Ascii => ('/', '\\', '\\', '/'),
        },
    };
    let right = rect.x.saturating_add(rect.width).saturating_sub(1);
    let bottom = rect.y.saturating_add(rect.height).saturating_sub(1);
    let middle = rect.y.saturating_add(rect.height / 2);
    let mut writes: Vec<(usize, usize, char)> = Vec::new();
    writes.push((rect.x, rect.y, top_left));
    writes.push((right, rect.y, top_right));
    writes.push((rect.x, bottom, bottom_left));
    writes.push((right, bottom, bottom_right));
    match shape {
        BoxNodeShape::Cylinder => {
            writes.push((rect.x, middle, '('));
            writes.push((right, middle, ')'));
        },
        BoxNodeShape::Decision => {
            writes.push((rect.x, middle, '<'));
            writes.push((right, middle, '>'));
        },
        _ => {},
    }
    assert(write_views(writes@) =~= shape_writes(rect, shape, charset));
    write_chars(canvas, &writes)
}

/// Paints a placed box offset by its container's corner: its border, its shape, its lines,
/// its dividers, and (for a group) its children. Records where each box went, and the
/// rectangles that routes must avoid.
fn paint_item_at(canvas: &mut Canvas, placed: &PlacedItem, offset_x: usize, offset_y: usize,
    geometry: &mut Vec<(String, Rect)>, obstacles: &mut Vec<Rect>, node_shapes: &Vec<(String, BoxNodeShape)>,
    charset: Charset) -> (r: Result<()>)
    requires
        old(canvas).wf(),
    ensures
        final(canvas).wf(),
        final(canvas)@.width == old(canvas)@.width,
        final(canvas)@.height == old(canvas)@.height,
    decreases placed,
{
    if placed.item.kind == ItemKind::Spacer {
        return Ok(());
    }
    let rect = Rect {
        x: offset_x.saturating_add(placed.x),
        y: offset_y.saturating_add(placed.y),
        width: placed.item.width,
        height: placed.item.height,
    };
    match draw_box(canvas, rect.x, rect.y, rect.width, rect.height, charset) {
        Ok(()) => {},
        Err(e) => return Err(e),
    }
    proof {
        crate::canvas::lemma_boxed_dims(old(canvas)@, rect.x as int, rect.y as int, rect.width as int, rect.height as int, charset);
    }
    if placed.item.kind == ItemKind::Node {
        let shape = shape_of(node_shapes, &placed.item.id);
        match paint_node_shape(canvas, rect, shape, charset) {
            Ok(()) => {},
            Err(e) => return Err(e),
        }
    }
    geometry.push((placed.item.id.clone(), rect));
    let right = rect.x.saturating_add(rect.width).saturating_sub(1);
    let bottom = rect.y.saturating_add(rect.height).saturating_sub(1);
    if placed.item.kind == ItemKind::Node {
        obstacles.push(rect);
        let mut d: usize = 0;
        while d < placed.item.dividers.len()
            invariant
                canvas.wf(),
                canvas@.width == old(canvas)@.width,
                canvas@.height == old(canvas)@.height,
                d <= placed.item.dividers@.len(),
            decreases placed.item.dividers@.len() - d,
        {
            let row = rect.y.saturating_add(1).saturating_add(placed.item.dividers[d]);
            match draw_horizontal_line(canvas, row, rect.x, right, charset) {
                Ok(()) => {},
                Err(e) => return Err(e),
            }
            d = d + 1;
        }
        let mut offset: usize = 0;
        while offset < placed.item.lines.len()
            invariant
                canvas.wf(),
                canvas@.width == old(canvas)@.width,
                canvas@.height == old(canvas)@.height,
                offset <= placed.item.lines@.len(),
            decreases placed.item.lines@.len() - offset,
        {
            let row = rect.y.saturating_add(1).saturating_add(offset);
            match write_centered(canvas, rect.x.saturating_add(1), row, rect.width.saturating_sub(2), &placed.item.lines[offset]) {
                Ok(()) => {},
                Err(e) => return Err(e),
            }
            offset = offset + 1;
        }
    } else {
        obstacles.push(Rect { x: rect.x, y: rect.y, width: 1, height: 1 });
        obstacles.push(Rect { x: right, y: rect.y, width: 1, height: 1 });
        obstacles.push(Rect { x: rect.x, y: bottom, width: 1, height: 1 });
        obstacles.push(Rect { x: right, y: bottom, width: 1, height: 1 });
        let mut offset: usize = 0;
        while offset < placed.item.lines.len()
            invariant
                canvas.wf(),
                canvas@.width == old(canvas)@.width,
                canvas@.height == old(canvas)@.height,
                offset <= placed.item.lines@.len(),
            decreases placed.item.lines@.len() - offset,
        {
            let line = &placed.item.lines[offset];
            let line_width = text_width(line);
            let label_x = rect.x.saturating_add(1);
            let row = rect.y.saturating_add(1).saturating_add(offset);
            match canvas.set_text(label_x, row, line.as_str()) {
                Ok(()) => {},
                Err(e) => return Err(e),
            }
            if line_width > 0 {
                obstacles.push(Rect { x: label_x, y: row, width: line_width, height: 1 });
            }
            offset = offset + 1;
        }
        let mut c: usize = 0;
        while c < placed.item.children.len()
            invariant
                canvas.wf(),
                canvas@.width == old(canvas)@.width,
                canvas@.height == old(canvas)@.height,
                c <= placed.item.children@.len(),
            decreases placed.item.children@.len() - c,
        {
            match paint_item_at(canvas, &placed.item.children[c], rect.x, rect.y, geometry, obstacles, node_shapes, charset) {
                Ok(()) => {},
                Err(e) => return Err(e),
            }
            c = c + 1;
        }
    }
    Ok(())
}

/// Paints a top-level placed box.
fn paint_item(canvas: &mut Canvas, placed: &PlacedItem, geometry: &mut Vec<(String, Rect)>, obstacles: &mut Vec<Rect>,
    node_shapes: &Vec<(String, BoxNodeShape)>, charset: Charset) -> (r: Result<()>)
    requires
        old(canvas).wf(),
    ensures
        final(canvas).wf(),
        final(canvas)@.width == old(canvas)@.width,
        final(canvas)@.height == old(canvas)@.height,
{
    paint_item_at(canvas, placed, 0, 0, geometry, obstacles, node_shapes, charset)
}

fn side_list_of(side: Option<Side>) -> (r: Vec<Side>)
{
    match side {
        Some(s) => vec![s],
        None => side_list(),
    }
}

fn pair_position(pairs: &Vec<(Side, Side)>, a: Side, b: Side) -> (r: usize)
    ensures
        r <= pairs@.len(),
        r < pairs@.len() ==> pairs@[r as int] == (a, b),
        forall|j: int| 0 <= j < r ==> (#[trigger] pairs@[j]) != (a, b),
{
    let mut i: usize = 0;
    while i < pairs.len()
        invariant
            i <= pairs@.len(),
            forall|j: int| 0 <= j < i ==> (#[trigger] pairs@[j]) != (a, b),
        decreases pairs@.len() - i,
    {
        if pairs[i].0 == a && pairs[i].1 == b {
            return i;
        }
        i = i + 1;
    }
    pairs.len()
}

fn key_less(a: (usize, usize), b: (usize, usize)) -> (r: bool)
    ensures
        r == (a.0 < b.0 || (a.0 == b.0 && a.1 < b.1)),
{
    a.0 < b.0 || (a.0 == b.0 && a.1 < b.1)
}

/// The cheapest route between two boxes over the sides the edge allows, or `None`.
///
/// Every allowed (source side, target side) pair is searched from the cell outside the
/// source side with [`weighted_predecessors`]; each route found is scored by its length, its
/// turns, the drawn cells it crosses and how far its side pair is down the preference list,
/// and, when `avoid_routed`, first by how many routed cells it shares. The lowest score wins;
/// ties keep the earliest pair.
fn route_edge(canvas: &Canvas, source: Rect, target: Rect, edge: &BoxEdge, obstacles: &Vec<Rect>, routed: &Vec<bool>,
    height: usize, avoid_routed: bool, route_work: &mut RouteWorkBudget) -> (r: Result<Option<Vec<Point>>>)
    requires
        canvas.wf(),
        rect_ok(source),
        rect_ok(target),
        routed@.len() == canvas@.width * height,
        canvas@.width * height <= usize::MAX,
    ensures
        r matches Err(e) ==> e matches MermansiError::RenderLimit { context, .. } && context == "route work",
{
    let width = canvas.width();
    if width == 0 || height == 0 {
        return Ok(None);
    }
    let mut blocked = blocked_cells(obstacles, width, height);
    block_route_frame(&mut blocked, width, height);
    if avoid_routed {
        let mut i: usize = 0;
        while i < blocked.len() && i < routed.len()
            invariant
                blocked@.len() == width * height,
            decreases blocked@.len() - i,
        {
            if routed[i] {
                blocked.set(i, true);
            }
            i = i + 1;
        }
    }
    let sides = side_list();
    let rects = [source, target];
    let mut ri: usize = 0;
    while ri < 2
        invariant
            blocked@.len() == width * height,
            width * height <= usize::MAX,
            rect_ok(source),
            rect_ok(target),
            rects@ == seq![source, target],
            sides@ == all_sides(),
        decreases 2 - ri,
    {
        let rect = rects[ri];
        let mut si: usize = 0;
        while si < 4
            invariant
                blocked@.len() == width * height,
                width * height <= usize::MAX,
                rect_ok(rect),
                sides@ == all_sides(),
            decreases 4 - si,
        {
            match endpoint(rect, sides[si], width, height) {
                Some(ep) => {
                    proof {
                        assert(ep.border.y * width + ep.border.x < width * height) by (nonlinear_arith)
                            requires ep.border.x < width, ep.border.y < height;
                    }
                    let idx = grid_index(ep.border, width);
                    blocked.set(idx, true);
                },
                None => {},
            }
            si = si + 1;
        }
        ri = ri + 1;
    }
    let side_pairs = ordered_side_pairs(source, target);
    let source_sides = side_list_of(edge.from_side);
    let target_sides = side_list_of(edge.to_side);
    let mut best: Option<((usize, usize), Vec<Point>)> = None;
    let mut a: usize = 0;
    while a < source_sides.len()
        invariant
            canvas.wf(),
            width == canvas@.width,
            blocked@.len() == width * height,
            routed@.len() == width * height,
            width * height <= usize::MAX,
            0 < width,
            0 < height,
            rect_ok(source),
            rect_ok(target),
        decreases source_sides@.len() - a,
    {
        let source_side = source_sides[a];
        let source_endpoint = match endpoint(source, source_side, width, height) {
            Some(ep) => ep,
            None => {
                a = a + 1;
                continue;
            },
        };
        proof {
            assert(source_endpoint.outside.y * width + source_endpoint.outside.x < width * height) by (nonlinear_arith)
                requires source_endpoint.outside.x < width, source_endpoint.outside.y < height;
        }
        let source_index = grid_index(source_endpoint.outside, width);
        if blocked[source_index] {
            a = a + 1;
            continue;
        }
        let predecessors = match weighted_predecessors(source_endpoint.outside, width, height, &blocked, routed, canvas, route_work) {
            Ok(p) => p,
            Err(e) => return Err(e),
        };
        let mut b: usize = 0;
        while b < target_sides.len()
            invariant
                canvas.wf(),
                width == canvas@.width,
                blocked@.len() == width * height,
                routed@.len() == width * height,
                width * height <= usize::MAX,
                0 < width,
                0 < height,
                rect_ok(source),
                rect_ok(target),
                source_index < width * height,
                predecessor_tree(predecessors@, source_index as int, blocked@, width as int, height as int),
            decreases target_sides@.len() - b,
        {
            let target_side = target_sides[b];
            if source == target && source_side == target_side {
                b = b + 1;
                continue;
            }
            let target_endpoint = match endpoint(target, target_side, width, height) {
                Some(ep) => ep,
                None => {
                    b = b + 1;
                    continue;
                },
            };
            proof {
                assert(target_endpoint.outside.y * width + target_endpoint.outside.x < width * height) by (nonlinear_arith)
                    requires target_endpoint.outside.x < width, target_endpoint.outside.y < height;
            }
            let target_index = grid_index(target_endpoint.outside, width);
            if blocked[target_index] || predecessors[target_index] == usize::MAX {
                b = b + 1;
                continue;
            }
            let cells = match reconstruct_path(source_index, target_index, width, &predecessors) {
                Some(cells) => cells,
                None => {
                    b = b + 1;
                    continue;
                },
            };
            let mut points: Vec<Point> = Vec::new();
            points.push(source_endpoint.border);
            let mut c: usize = 0;
            while c < cells.len()
                invariant
                    c <= cells@.len(),
                decreases cells@.len() - c,
            {
                points.push(cells[c]);
                c = c + 1;
            }
            points.push(target_endpoint.border);
            let path = compress_path(points);
            let preference = pair_position(&side_pairs, source_side, target_side);
            let mut distance: usize = 0;
            let mut w: usize = 0;
            while w < path.len() && path.len() - w > 1
                invariant
                    w <= path@.len(),
                decreases path@.len() - w,
            {
                let p = path[w];
                let q = path[w + 1];
                let dx = if p.x <= q.x { q.x - p.x } else { p.x - q.x };
                let dy = if p.y <= q.y { q.y - p.y } else { p.y - q.y };
                distance = distance.saturating_add(dx.saturating_add(dy));
                w = w + 1;
            }
            let covered = path_cells(&path);
            let mut overlap: usize = 0;
            let mut occupied: usize = 0;
            let mut k: usize = 0;
            while k < covered.len()
                invariant
                    k <= covered@.len(),
                    overlap <= k,
                    occupied <= k,
                    canvas.wf(),
                    routed@.len() == width * height,
                    width * height <= usize::MAX,
                decreases covered@.len() - k,
            {
                let point = covered[k];
                if point.x < width && point.y < height {
                    proof {
                        assert(point.y * width + point.x < width * height) by (nonlinear_arith)
                            requires point.x < width, point.y < height;
                    }
                    let index = grid_index(point, width);
                    if routed[index] {
                        overlap = overlap + 1;
                    } else {
                        let shows = match canvas.get_cell(point.x, point.y) {
                            Some(cell) => !cell.is_empty(),
                            None => false,
                        };
                        if shows {
                            occupied = occupied + 1;
                        }
                    }
                }
                k = k + 1;
            }
            let score = distance.saturating_add(sat_mul(path.len().saturating_sub(2), 2))
                .saturating_add(sat_mul(occupied, 4)).saturating_add(sat_mul(preference, 2));
            let key = if avoid_routed { (overlap, score) } else { (0, score.saturating_add(overlap)) };
            let better = match &best {
                None => true,
                Some((best_key, _)) => key_less(key, *best_key),
            };
            if better {
                best = Some((key, path));
            }
            b = b + 1;
        }
        a = a + 1;
    }
    match best {
        Some((_, path)) => Ok(Some(path)),
        None => Ok(None),
    }
}

fn rect_of(geometry: &Vec<(String, Rect)>, id: &String) -> (r: Option<Rect>)
    ensures
        r is None <==> forall|j: int| 0 <= j < geometry@.len() ==> (#[trigger] geometry@[j]).0@ != id@,
        r matches Some(v) ==> exists|i: int| 0 <= i < geometry@.len() && (#[trigger] geometry@[i]).0@ == id@
            && geometry@[i].1 == v && forall|j: int| i < j < geometry@.len() ==> (#[trigger] geometry@[j]).0@ != id@,
{
    let mut found: Option<Rect> = None;
    let mut i: usize = 0;
    while i < geometry.len()
        invariant
            i <= geometry@.len(),
            found is None <==> forall|k: int| 0 <= k < i ==> (#[trigger] geometry@[k]).0@ != id@,
            found matches Some(v) ==> exists|k: int| 0 <= k < i && (#[trigger] geometry@[k]).0@ == id@
                && geometry@[k].1 == v && forall|j: int| k < j < i ==> (#[trigger] geometry@[j]).0@ != id@,
        decreases geometry@.len() - i,
    {
        if geometry[i].0 == *id {
            found = Some(geometry[i].1);
        }
        i = i + 1;
    }
    found
}

/// Routes an edge between the boxes it joins, draws the path and its end markers, and marks
/// the path's cells as routed. Edges without markers prefer shared routes; edges with markers
/// first try a route that avoids routed cells.
fn draw_edge(canvas: &mut Canvas, edge: &BoxEdge, geometry: &Vec<(String, Rect)>, obstacles: &Vec<Rect>,
    routed: &mut Vec<bool>, route_height: usize, charset: Charset, family: &'static str,
    route_work: &mut RouteWorkBudget) -> (r: Result<()>)
    requires
        old(canvas).wf(),
        old(routed)@.len() == old(canvas)@.width * route_height,
        old(canvas)@.width * route_height <= usize::MAX,
    ensures
        final(canvas).wf(),
        final(canvas)@.width == old(canvas)@.width,
        final(canvas)@.height == old(canvas)@.height,
        final(routed)@.len() == old(routed)@.len(),
{
    let source = match rect_of(geometry, &edge.from) {
        Some(rect) => rect,
        None => return Err(layout_error(family, text_of(&["edge source is missing: ", edge.from.as_str()]))),
    };
    let target = match rect_of(geometry, &edge.to) {
        Some(rect) => rect,
        None => return Err(layout_error(family, text_of(&["edge target is missing: ", edge.to.as_str()]))),
    };
    if !(1 <= source.width && 1 <= source.height && source.x <= usize::MAX - source.width && source.y <= usize::MAX - source.height
        && 1 <= target.width && 1 <= target.height && target.x <= usize::MAX - target.width && target.y <= usize::MAX - target.height) {
        return Err(layout_error(family, text_of(&["no route for ", edge.from.as_str(), " -> ", edge.to.as_str()])));
    }
    let width = canvas.width();
    let prefer_shared = edge.marker_start == EdgeMarker::Absent && edge.marker_end == EdgeMarker::Absent;
    let found = if prefer_shared {
        match route_edge(canvas, source, target, edge, obstacles, routed, route_height, false, route_work) {
            Ok(p) => p,
            Err(e) => return Err(e),
        }
    } else {
        let isolated = match route_edge(canvas, source, target, edge, obstacles, routed, route_height, true, route_work) {
            Ok(p) => p,
            Err(e) => return Err(e),
        };
        if isolated.is_some() {
            isolated
        } else {
            match route_edge(canvas, source, target, edge, obstacles, routed, route_height, false, route_work) {
                Ok(p) => p,
                Err(e) => return Err(e),
            }
        }
    };
    let path = match found {
        Some(path) => path,
        None => return Err(layout_error(family, text_of(&["no route for ", edge.from.as_str(), " -> ", edge.to.as_str()]))),
    };
    if path.len() < 2 {
        return Err(layout_error(family, text_of(&["no route for ", edge.from.as_str(), " -> ", edge.to.as_str()])));
    }
    match draw_path(canvas, &path, charset, edge.style) {
        Ok(()) => {},
        Err(e) => return Err(e),
    }
    let covered = path_cells(&path);
    let mut k: usize = 0;
    while k < covered.len()
        invariant
            k <= covered@.len(),
            routed@.len() == old(routed)@.len(),
            routed@.len() == width * route_height,
            width * route_height <= usize::MAX,
        decreases covered@.len() - k,
    {
        let point = covered[k];
        if point.x < width && point.y < route_height {
            proof {
                assert(point.y * width + point.x < width * route_height) by (nonlinear_arith)
                    requires point.x < width, point.y < route_height;
            }
            routed.set(grid_index(point, width), true);
        }
        k = k + 1;
    }
    let last = path.len() - 1;
    let (source_marker, source_arrow) = endpoint_marker(path[0], path[1], edge.marker_start, charset);
    let (target_marker, target_arrow) = endpoint_marker(path[last], path[last - 1], edge.marker_end, charset);
    if edge.marker_start != EdgeMarker::Absent {
        match canvas.set_char(source_marker.x, source_marker.y, source_arrow) {
            Ok(()) => {},
            Err(e) => return Err(e),
        }
    }
    if edge.marker_end != EdgeMarker::Absent {
        match canvas.set_char(target_marker.x, target_marker.y, target_arrow) {
            Ok(()) => {},
            Err(e) => return Err(e),
        }
    }
    Ok(())
}

/// An edge as a legend line: `from arrow to`, then two spaces and the label where it has one.
pub fn edge_legend_text(edge: &BoxEdge) -> (r: String)
    ensures
        ({
            let line = if edge.style == EdgeStyle::Dotted { ".."@ } else { "--"@ };
            let label = collapsed(sanitized(edge.label@));
            let head = edge.from@ + " "@ + marker_notation(edge.marker_start, true)@ + line
                + marker_notation(edge.marker_end, false)@ + " "@ + edge.to@;
            r@ == if label.len() > 0 { head + "  "@ + label } else { head }
        }),
{
    let line = if edge.style == EdgeStyle::Dotted { ".." } else { "--" };
    let label = normalized(edge.label.as_str());
    let mut out = String::new();
    out.append(edge.from.as_str());
    out.append(" ");
    out.append(marker_legend(edge.marker_start, true));
    out.append(line);
    out.append(marker_legend(edge.marker_end, false));
    out.append(" ");
    out.append(edge.to.as_str());
    if !label.as_str().is_empty() {
        out.append("  ");
        out.append(label.as_str());
    }
    out
}

/// Whether the legend lists `edge`.
/// Whether the legend under `policy` lists `edge`: never, where it has a label, or always.
pub open spec fn legend_lists(policy: EdgeLegend, edge: BoxEdge) -> bool {
    match policy {
        EdgeLegend::Hidden => false,
        EdgeLegend::Labeled => collapsed(sanitized(edge.label@)).len() > 0,
        EdgeLegend::All => true,
    }
}

/// Whether the legend lists `edge`.
fn include_legend_edge(policy: EdgeLegend, edge: &BoxEdge) -> (r: bool)
    ensures
        r == legend_lists(policy, *edge),
{
    match policy {
        EdgeLegend::Hidden => false,
        EdgeLegend::Labeled => !normalized(edge.label.as_str()).as_str().is_empty(),
        EdgeLegend::All => true,
    }
}

/// The legend lines of the edges the policy lists, each wrapped to `width` columns.
fn edge_legend(edges: &Vec<BoxEdge>, policy: EdgeLegend, width: usize) -> (r: Vec<String>)
    ensures
        r@.len() == 0 <==> forall|j: int| 0 <= j < edges@.len() ==> !legend_lists(policy, #[trigger] edges@[j]),
{
    let mut lines: Vec<String> = Vec::new();
    let mut i: usize = 0;
    while i < edges.len()
        invariant
            i <= edges@.len(),
            lines@.len() == 0 <==> forall|j: int| 0 <= j < i ==> !legend_lists(policy, #[trigger] edges@[j]),
        decreases edges@.len() - i,
    {
        if include_legend_edge(policy, &edges[i]) {
            let text = edge_legend_text(&edges[i]);
            append_lines(&mut lines, wrap_words(text.as_str(), width));
        }
        i = i + 1;
    }
    lines
}

fn strings_widest(lines: &Vec<String>) -> (r: usize)
{
    widest(lines)
}

/// Lays out and draws a box diagram: the title, the boxes (packed into rows or layered by
/// rank, with groups drawn around their children), the routed edges with their markers, and
/// the edge legend. Limits are checked in order: inventory, layout work, hierarchy, canvas
/// width, drawing width, and drawing height.
pub fn render_with_node_shapes(diagram: &BoxDiagram, opts: &MermansiOptions, node_shapes: &Vec<(String, BoxNodeShape)>)
    -> (r: Result<String>)
    ensures
        ({
            let items = diagram.nodes@.len() + diagram.groups@.len() + diagram.spacers@.len();
            let count = if items > usize::MAX { usize::MAX } else { items as usize };
            &&& count > MAX_BOX_ITEMS ==> r == Err::<String, MermansiError>(MermansiError::RenderLimit {
                context: "box geometry items",
                requested: count,
                limit: MAX_BOX_ITEMS,
            })
            &&& count <= MAX_BOX_ITEMS && diagram.edges@.len() > MAX_BOX_EDGES ==> r == Err::<String, MermansiError>(
                MermansiError::RenderLimit { context: "box geometry edges", requested: diagram.edges@.len() as usize, limit: MAX_BOX_EDGES })
            &&& count <= MAX_BOX_ITEMS && diagram.edges@.len() <= MAX_BOX_EDGES ==> refuses_early(*diagram, *opts, r)
        }),
{
    let item_count = diagram.nodes.len().saturating_add(diagram.groups.len()).saturating_add(diagram.spacers.len());
    proof {
        let items = diagram.nodes@.len() + diagram.groups@.len() + diagram.spacers@.len();
        assert(item_count == if items > usize::MAX { usize::MAX } else { items as usize });
    }
    match ensure_inventory(item_count, diagram.edges.len()) {
        Ok(()) => {},
        Err(e) => return Err(e),
    }
    layout_and_draw(diagram, opts, node_shapes)
}

/// Whether `e` is one of the refusals that come before any box is laid out: too much layout
/// work, an invalid or too deep hierarchy, or a canvas narrower than [`MIN_CANVAS_WIDTH`].
pub open spec fn early_refusal(e: MermansiError, opts: MermansiOptions) -> bool {
    ||| e is GeometryLayout
    ||| (e matches MermansiError::RenderLimit { context, .. }
        && (context == "box layout work" || context == "box geometry depth"))
    ||| (e matches MermansiError::RenderLimit { context, requested, limit }
        && context == "box geometry columns" && requested == MIN_CANVAS_WIDTH && limit == opts.max_width)
}

/// What every box drawing owes before it lays anything out: a hierarchy in which every
/// group has a parent (a cycle, with no root group) is refused, and so is a canvas narrower
/// than [`MIN_CANVAS_WIDTH`]. Where the layout work is within [`MAX_LAYOUT_WORK`] and the
/// references are sound, the cycle is reported as such (for at most [`MAX_DEPTH`] groups),
/// and a diagram without groups on too narrow a canvas gets exactly the column limit.
pub open spec fn refuses_early(diagram: BoxDiagram, opts: MermansiOptions, r: Result<String>) -> bool {
    &&& diagram.groups@.len() > 0 && all_parented(diagram.groups@) ==> (r matches Err(e) && early_refusal(e, opts))
    &&& opts.max_width < MIN_CANVAS_WIDTH ==> (r matches Err(e) && early_refusal(e, opts))
    &&& layout_work(diagram) <= MAX_LAYOUT_WORK && references_valid(diagram) && 0 < diagram.groups@.len() <= MAX_DEPTH
        && all_parented(diagram.groups@) ==> (r matches Err(e) && is_group_cycle_error(e, diagram.family))
    &&& layout_work(diagram) <= MAX_LAYOUT_WORK && references_valid(diagram) && diagram.groups@.len() == 0
        && opts.max_width < MIN_CANVAS_WIDTH ==> r == Err::<String, MermansiError>(MermansiError::RenderLimit {
            context: "box geometry columns", requested: MIN_CANVAS_WIDTH, limit: opts.max_width })
}

/// The layout and drawing of a box diagram whose inventory is within bounds.
fn layout_and_draw(diagram: &BoxDiagram, opts: &MermansiOptions, node_shapes: &Vec<(String, BoxNodeShape)>)
    -> (r: Result<String>)
    ensures
        refuses_early(*diagram, *opts, r),
{
    match ensure_layout_work(diagram) {
        Ok(()) => {},
        Err(e) => return Err(e),
    }
    match validate_hierarchy(diagram) {
        Ok(()) => {},
        Err(e) => return Err(e),
    }
    if opts.max_width < MIN_CANVAS_WIDTH {
        return Err(MermansiError::RenderLimit { context: "box geometry columns", requested: MIN_CANVAS_WIDTH, limit: opts.max_width });
    }
    place_and_draw(diagram, opts, node_shapes)
}

/// The placement and drawing of a box diagram whose hierarchy is valid, on a canvas at least
/// [`MIN_CANVAS_WIDTH`] columns wide.
fn place_and_draw(diagram: &BoxDiagram, opts: &MermansiOptions, node_shapes: &Vec<(String, BoxNodeShape)>)
    -> (r: Result<String>)
    requires
        opts.max_width >= MIN_CANVAS_WIDTH,
{
    let content_limit = opts.max_width - ROUTE_MARGIN * 2;
    let mut ancestry: Vec<String> = Vec::new();
    let mut root: Vec<(usize, Item)> = Vec::new();
    let mut g: usize = 0;
    while g < diagram.groups.len()
        invariant
            g <= diagram.groups@.len(),
            ancestry@.len() == 0,
        decreases diagram.groups@.len() - g,
    {
        if diagram.groups[g].parent.is_none() {
            let item = match build_group(diagram, g, content_limit, &mut ancestry) {
                Ok(item) => item,
                Err(e) => return Err(e),
            };
            root.push((diagram.groups[g].order, item));
        }
        g = g + 1;
    }
    let mut n: usize = 0;
    while n < diagram.nodes.len()
        invariant
            n <= diagram.nodes@.len(),
        decreases diagram.nodes@.len() - n,
    {
        if diagram.nodes[n].parent.is_none() {
            root.push((diagram.nodes[n].order, build_node(&diagram.nodes[n], content_limit)));
        }
        n = n + 1;
    }
    let mut s: usize = 0;
    while s < diagram.spacers.len()
        invariant
            s <= diagram.spacers@.len(),
        decreases diagram.spacers@.len() - s,
    {
        if diagram.spacers[s].parent.is_none() {
            root.push((diagram.spacers[s].order, build_spacer(&diagram.spacers[s], content_limit)));
        }
        s = s + 1;
    }
    sort_by_order(&mut root);
    let mut items: Vec<Item> = Vec::new();
    while root.len() > 0
        decreases root@.len(),
    {
        let (_, item) = root.remove(0);
        items.push(item);
    }
    if items.len() == 0 {
        return match &diagram.title {
            Some(title) => Ok(title.clone()),
            None => Ok(String::new()),
        };
    }
    let (mut placed, diagram_width, diagram_height) = match &diagram.layout {
        BoxLayout::Packed => pack_items(items, content_limit, diagram.columns),
        BoxLayout::Layered { direction, ranks } => match pack_layered_items(items, ranks, *direction, diagram.family) {
            Ok(packed) => packed,
            Err(e) => return Err(e),
        },
    };
    if diagram_width > content_limit {
        return Err(MermansiError::RenderLimit {
            context: "box geometry columns",
            requested: diagram_width.saturating_add(ROUTE_MARGIN * 2),
            limit: opts.max_width,
        });
    }
    let title_lines = match &diagram.title {
        Some(title) => {
            let t = normalized(title.as_str());
            if t.as_str().len() > 0 { wrap_display(t.as_str(), content_limit) } else { Vec::new() }
        },
        None => Vec::new(),
    };
    let title_width = strings_widest(&title_lines);
    let content_width = max_usize(max_usize(diagram_width, title_width), 1);
    let legend_width = if diagram.edge_legend != EdgeLegend::Hidden {
        let mut widest_legend: usize = 0;
        let mut e: usize = 0;
        while e < diagram.edges.len()
            invariant
                e <= diagram.edges@.len(),
            decreases diagram.edges@.len() - e,
        {
            if include_legend_edge(diagram.edge_legend, &diagram.edges[e]) {
                let text = edge_legend_text(&diagram.edges[e]);
                widest_legend = max_usize(widest_legend, text_width(&text));
            }
            e = e + 1;
        }
        min_usize(widest_legend, opts.max_width.saturating_sub(2))
    } else {
        0
    };
    let width = min_usize(max_usize(content_width.saturating_add(ROUTE_MARGIN * 2), legend_width.saturating_add(2)), opts.max_width);
    let drawing_width = width.saturating_sub(ROUTE_MARGIN * 2);
    let diagram_x = ROUTE_MARGIN.saturating_add(drawing_width.saturating_sub(diagram_width) / 2);
    let title_y: usize = 1;
    let geometry_edges = coalesced_geometry_edges(&diagram.edges);
    let layered = match &diagram.layout {
        BoxLayout::Layered { .. } => true,
        BoxLayout::Packed => false,
    };
    let (mut top_route_lanes, mut bottom_route_lanes) = if geometry_edges.len() == 0 {
        (0usize, 0usize)
    } else if layered {
        (1usize, 1usize)
    } else {
        let lanes = min_usize(geometry_edges.len(), MAX_OUTER_ROUTE_LANES);
        ((lanes + 1) / 2, lanes / 2)
    };
    let mut e: usize = 0;
    while e < geometry_edges.len()
        invariant
            e <= geometry_edges@.len(),
        decreases geometry_edges@.len() - e,
    {
        let ge = &geometry_edges[e];
        if ge.from_side == Some(Side::Top) || ge.to_side == Some(Side::Top) {
            top_route_lanes = max_usize(top_route_lanes, 2);
        }
        if ge.from_side == Some(Side::Bottom) || ge.to_side == Some(Side::Bottom) {
            bottom_route_lanes = max_usize(bottom_route_lanes, 2);
        }
        e = e + 1;
    }
    let title_gap: usize = if title_lines.len() > 0 { 1 } else { 0 };
    let diagram_y = title_y.saturating_add(title_lines.len()).saturating_add(title_gap).saturating_add(top_route_lanes);
    let mut k: usize = 0;
    while k < placed.len()
        invariant
            k <= placed@.len(),
        decreases placed@.len() - k,
    {
        let mut item = placed.remove(k);
        item.x = item.x.saturating_add(diagram_x);
        item.y = item.y.saturating_add(diagram_y);
        placed.insert(k, item);
        k = k + 1;
    }
    let legend = if diagram.edge_legend != EdgeLegend::Hidden {
        edge_legend(&diagram.edges, diagram.edge_legend, width.saturating_sub(2))
    } else {
        Vec::new()
    };
    let legend_gap: usize = if legend.len() > 0 { 1 } else { 0 };
    let legend_y = diagram_y.saturating_add(diagram_height).saturating_add(bottom_route_lanes).saturating_add(legend_gap);
    let height = legend_y.saturating_add(legend.len()).saturating_add(1);
    if height > opts.max_height {
        return Err(MermansiError::RenderLimit { context: "box geometry rows", requested: height, limit: opts.max_height });
    }
    let mut canvas = match Canvas::new(width, height) {
        Ok(c) => c,
        Err(e) => return Err(e),
    };
    let mut t: usize = 0;
    while t < title_lines.len()
        invariant
            canvas.wf(),
            canvas@.width == width,
            canvas@.height == height,
            t <= title_lines@.len(),
        decreases title_lines@.len() - t,
    {
        match write_centered(&mut canvas, ROUTE_MARGIN, title_y.saturating_add(t), drawing_width, &title_lines[t]) {
            Ok(()) => {},
            Err(e) => return Err(e),
        }
        t = t + 1;
    }
    let mut geometry: Vec<(String, Rect)> = Vec::new();
    let mut obstacles: Vec<Rect> = Vec::new();
    if title_lines.len() > 0 {
        obstacles.push(Rect { x: ROUTE_MARGIN, y: title_y, width: drawing_width, height: title_lines.len() });
    }
    let mut p: usize = 0;
    while p < placed.len()
        invariant
            canvas.wf(),
            canvas@.width == width,
            canvas@.height == height,
            p <= placed@.len(),
        decreases placed@.len() - p,
    {
        match paint_item(&mut canvas, &placed[p], &mut geometry, &mut obstacles, node_shapes, opts.charset) {
            Ok(()) => {},
            Err(e) => return Err(e),
        }
        p = p + 1;
    }
    if geometry.len() != diagram.nodes.len().saturating_add(diagram.groups.len()) {
        return Err(layout_error(diagram.family, text_of(&["hierarchy contains unreachable entities"])));
    }
    proof {
        assert(canvas@.cells.len() == width * height);
        assert(width >= 1);
        assert(height <= 250_000) by (nonlinear_arith)
            requires width * height <= 250_000, width >= 1;
        assert(legend_y < height);
        assert(width * legend_y <= width * height) by (nonlinear_arith)
            requires legend_y < height, width >= 1;
    }
    let cells = width * legend_y;
    let mut routed: Vec<bool> = Vec::new();
    let mut c: usize = 0;
    while c < cells
        invariant
            c <= cells,
            routed@.len() == c,
        decreases cells - c,
    {
        routed.push(false);
        c = c + 1;
    }
    let mut route_work = RouteWorkBudget::new();
    let mut e: usize = 0;
    while e < geometry_edges.len()
        invariant
            canvas.wf(),
            canvas@.width == width,
            canvas@.height == height,
            routed@.len() == width * legend_y,
            width * legend_y <= usize::MAX,
            e <= geometry_edges@.len(),
        decreases geometry_edges@.len() - e,
    {
        match draw_edge(&mut canvas, &geometry_edges[e], &geometry, &obstacles, &mut routed, legend_y, opts.charset,
            diagram.family, &mut route_work) {
            Ok(()) => {},
            Err(e) => return Err(e),
        }
        e = e + 1;
    }
    let mut l: usize = 0;
    while l < legend.len()
        invariant
            canvas.wf(),
            l <= legend@.len(),
        decreases legend@.len() - l,
    {
        match canvas.set_text(1, legend_y.saturating_add(l), legend[l].as_str()) {
            Ok(()) => {},
            Err(e) => return Err(e),
        }
        l = l + 1;
    }
    let rendered = canvas.render();
    let chars = chars_of(rendered.as_str());
    let mut first: usize = 0;
    while first < chars.len() && chars[first] == '\n'
        invariant
            first <= chars@.len(),
        decreases chars@.len() - first,
    {
        first = first + 1;
    }
    let mut end = chars.len();
    while end > first && chars[end - 1] == '\n'
        invariant
            first <= end <= chars@.len(),
        decreases end,
    {
        end = end - 1;
    }
    if end == first {
        return Ok(String::new());
    }
    let mut out: Vec<char> = Vec::new();
    let mut i = first;
    while i < end
        invariant
            first <= i <= end <= chars@.len(),
        decreases end - i,
    {
        out.push(chars[i]);
        i = i + 1;
    }
    out.push('\n');
    Ok(string_of(out.as_slice()))
}

/// Draws a box diagram with every node a plain rectangle.
pub fn render(diagram: &BoxDiagram, opts: &MermansiOptions) -> (r: Result<String>)
    ensures
        ({
            let items = diagram.nodes@.len() + diagram.groups@.len() + diagram.spacers@.len();
            let count = if items > usize::MAX { usize::MAX } else { items as usize };
            &&& count > MAX_BOX_ITEMS ==> r == Err::<String, MermansiError>(MermansiError::RenderLimit {
                context: "box geometry items",
                requested: count,
                limit: MAX_BOX_ITEMS,
            })
            &&& count <= MAX_BOX_ITEMS && diagram.edges@.len() > MAX_BOX_EDGES ==> r == Err::<String, MermansiError>(
                MermansiError::RenderLimit { context: "box geometry edges", requested: diagram.edges@.len() as usize, limit: MAX_BOX_EDGES })
            &&& count <= MAX_BOX_ITEMS && diagram.edges@.len() <= MAX_BOX_EDGES ==> refuses_early(*diagram, *opts, r)
        }),
{
    render_with_node_shapes(diagram, opts, &Vec::new())
}

/// The number of set flags among the first `n`.
pub open spec fn count_set(s: Seq<bool>, n: int) -> nat
    decreases n,
{
    if n <= 0 || n > s.len() { 0 } else { count_set(s, n - 1) + if s[n - 1] { 1nat } else { 0nat } }
}

proof fn lemma_count_set_bound(s: Seq<bool>, n: int)
    requires
        0 <= n <= s.len(),
    ensures
        count_set(s, n) <= n,
    decreases n,
{
    if n > 0 {
        lemma_count_set_bound(s, n - 1);
    }
}

proof fn lemma_count_set_update(s: Seq<bool>, n: int, k: int)
    requires
        0 <= k < n <= s.len(),
        !s[k],
    ensures
        count_set(s.update(k, true), n) == count_set(s, n) + 1,
    decreases n,
{
    if n - 1 > k {
        lemma_count_set_update(s, n - 1, k);
    } else {
        lemma_count_set_same(s, k, k);
    }
}

proof fn lemma_count_set_same(s: Seq<bool>, n: int, k: int)
    requires
        0 <= n <= k < s.len(),
    ensures
        count_set(s.update(k, true), n) == count_set(s, n),
    decreases n,
{
    if n > 0 {
        lemma_count_set_same(s, n - 1, k);
    }
}

proof fn lemma_count_set_agree(s: Seq<bool>, t: Seq<bool>, n: int)
    requires
        0 <= n <= s.len(),
        n <= t.len(),
        forall|i: int| 0 <= i < n ==> s[i] == t[i],
    ensures
        count_set(s, n) == count_set(t, n),
    decreases n,
{
    if n > 0 {
        lemma_count_set_agree(s, t, n - 1);
    }
}

fn last_index_of(nodes: &Vec<BoxNode>, id: &String) -> (r: Option<usize>)
    ensures
        r matches Some(i) ==> i < nodes@.len() && nodes@[i as int].id@ == id@
            && forall|j: int| i < j < nodes@.len() ==> (#[trigger] nodes@[j]).id@ != id@,
        r is None ==> forall|j: int| 0 <= j < nodes@.len() ==> (#[trigger] nodes@[j]).id@ != id@,
{
    let mut found: Option<usize> = None;
    let mut i: usize = 0;
    while i < nodes.len()
        invariant
            i <= nodes@.len(),
            found matches Some(f) ==> f < i && nodes@[f as int].id@ == id@
                && forall|j: int| f < j < i ==> (#[trigger] nodes@[j]).id@ != id@,
            found is None ==> forall|j: int| 0 <= j < i ==> (#[trigger] nodes@[j]).id@ != id@,
        decreases nodes@.len() - i,
    {
        if nodes[i].id == *id {
            found = Some(i);
        }
        i = i + 1;
    }
    found
}

fn pair_seen(seen: &Vec<(usize, usize)>, a: usize, b: usize) -> (r: bool)
    ensures
        r == seen@.contains((a, b)),
{
    let mut i: usize = 0;
    while i < seen.len()
        invariant
            i <= seen@.len(),
            forall|j: int| 0 <= j < i ==> (#[trigger] seen@[j]) != (a, b),
        decreases seen@.len() - i,
    {
        if seen[i].0 == a && seen[i].1 == b {
            assert(seen@[i as int] == (a, b));
            return true;
        }
        i = i + 1;
    }
    false
}

/// The layer of each node for a layered layout: the longest chain of distinct edges leading to
/// it (edges whose ends are not both nodes, and self-loops, are ignored). Nodes that a cycle
/// leaves unranked are put on consecutive layers after the deepest ranked node, in node order.
/// The result pairs each node's id with its rank, in node order.
pub fn directed_ranks(nodes: &Vec<BoxNode>, edges: &Vec<BoxEdge>) -> (r: Vec<(String, usize)>)
    ensures
        r@.len() == nodes@.len(),
        forall|i: int| 0 <= i < nodes@.len() ==> (#[trigger] r@[i]).0@ == nodes@[i].id@,
{
    let n = nodes.len();
    let mut adjacency: Vec<Vec<usize>> = Vec::new();
    let mut indegree: Vec<usize> = Vec::new();
    let mut k: usize = 0;
    while k < n
        invariant
            k <= n,
            n == nodes@.len(),
            adjacency@.len() == k,
            indegree@.len() == k,
            forall|j: int| 0 <= j < k ==> (#[trigger] adjacency@[j])@.len() == 0,
            forall|j: int| 0 <= j < k ==> #[trigger] indegree@[j] == 0,
        decreases n - k,
    {
        adjacency.push(Vec::new());
        indegree.push(0);
        k = k + 1;
    }
    let mut seen: Vec<(usize, usize)> = Vec::new();
    let mut e: usize = 0;
    while e < edges.len()
        invariant
            n == nodes@.len(),
            adjacency@.len() == n,
            indegree@.len() == n,
            forall|j: int| 0 <= j < n ==> forall|t: int| 0 <= t < (#[trigger] adjacency@[j])@.len() ==> adjacency@[j]@[t] < n,
        decreases edges@.len() - e,
    {
        let source = last_index_of(nodes, &edges[e].from);
        let target = last_index_of(nodes, &edges[e].to);
        match (source, target) {
            (Some(s), Some(t)) => {
                if s != t && !pair_seen(&seen, s, t) {
                    seen.push((s, t));
                    let mut list = adjacency.remove(s);
                    list.push(t);
                    adjacency.insert(s, list);
                    indegree.set(t, indegree[t].saturating_add(1));
                }
            },
            _ => {},
        }
        e = e + 1;
    }
    let mut ranks: Vec<usize> = Vec::new();
    let mut queue: Vec<usize> = Vec::new();
    let mut pushed: Vec<bool> = Vec::new();
    let mut k: usize = 0;
    while k < n
        invariant
            k <= n,
            n == nodes@.len(),
            indegree@.len() == n,
            ranks@.len() == k,
            pushed@.len() == k,
            forall|j: int| 0 <= j < k ==> (#[trigger] pushed@[j]) == (indegree@[j] == 0),
            forall|i: int| 0 <= i < queue@.len() ==> (#[trigger] queue@[i]) < n,
            queue@.len() == count_set(pushed@, k as int),
        decreases n - k,
    {
        ranks.push(0);
        let zero = indegree[k] == 0;
        let ghost p0 = pushed@;
        let ghost q0 = queue@.len();
        pushed.push(zero);
        if zero {
            queue.push(k);
        }
        proof {
            assert(pushed@ == p0.push(zero));
            lemma_count_set_agree(pushed@, p0, k as int);
            assert(count_set(pushed@, k + 1) == count_set(pushed@, k as int) + if zero { 1nat } else { 0nat });
            assert(queue@.len() == q0 + if zero { 1int } else { 0int });
        }
        k = k + 1;
    }
    let mut head: usize = 0;
    proof {
        lemma_count_set_bound(pushed@, n as int);
    }
    while head < queue.len()
        invariant
            n == nodes@.len(),
            adjacency@.len() == n,
            indegree@.len() == n,
            ranks@.len() == n,
            pushed@.len() == n,
            head <= queue@.len(),
            forall|j: int| 0 <= j < n ==> (#[trigger] pushed@[j]) == (indegree@[j] == 0),
            forall|i: int| 0 <= i < queue@.len() ==> (#[trigger] queue@[i]) < n,
            forall|j: int| 0 <= j < n ==> forall|t: int| 0 <= t < (#[trigger] adjacency@[j])@.len() ==> adjacency@[j]@[t] < n,
            queue@.len() == count_set(pushed@, n as int),
            count_set(pushed@, n as int) <= n,
        decreases 2 * (n - count_set(pushed@, n as int)) + (queue@.len() - head),
    {
        let source = queue[head];
        head = head + 1;
        let ghost bound = 2 * (n - count_set(pushed@, n as int)) + (queue@.len() - head);
        let out_len = adjacency[source].len();
        let mut a: usize = 0;
        while a < out_len
            invariant
                n == nodes@.len(),
                source < n,
                adjacency@.len() == n,
                out_len == adjacency@[source as int]@.len(),
                indegree@.len() == n,
                ranks@.len() == n,
                pushed@.len() == n,
                head <= queue@.len(),
                forall|j: int| 0 <= j < n ==> (#[trigger] pushed@[j]) == (indegree@[j] == 0),
                forall|i: int| 0 <= i < queue@.len() ==> (#[trigger] queue@[i]) < n,
                forall|j: int| 0 <= j < n ==> forall|t: int| 0 <= t < (#[trigger] adjacency@[j])@.len() ==> adjacency@[j]@[t] < n,
                queue@.len() == count_set(pushed@, n as int),
                count_set(pushed@, n as int) <= n,
                2 * (n - count_set(pushed@, n as int)) + (queue@.len() - head) <= bound,
            decreases out_len - a,
        {
            let target = adjacency[source][a];
            let raised = ranks[source].saturating_add(1);
            if raised > ranks[target] {
                ranks.set(target, raised);
            }
            if indegree[target] > 0 {
                indegree.set(target, indegree[target] - 1);
                if indegree[target] == 0 {
                    proof {
                        lemma_count_set_update(pushed@, n as int, target as int);
                        lemma_count_set_bound(pushed@.update(target as int, true), n as int);
                    }
                    pushed.set(target, true);
                    queue.push(target);
                }
            }
            a = a + 1;
        }
    }
    let mut cycle_rank: usize = 0;
    let mut i: usize = 0;
    while i < n
        invariant
            i <= n,
            ranks@.len() == n,
        decreases n - i,
    {
        cycle_rank = max_usize(cycle_rank, ranks[i]);
        i = i + 1;
    }
    let mut i: usize = 0;
    while i < n
        invariant
            i <= n,
            ranks@.len() == n,
            indegree@.len() == n,
        decreases n - i,
    {
        if indegree[i] > 0 {
            ranks.set(i, max_usize(ranks[i], cycle_rank));
            cycle_rank = cycle_rank.saturating_add(1);
        }
        i = i + 1;
    }
    let mut out: Vec<(String, usize)> = Vec::new();
    let mut i: usize = 0;
    while i < n
        invariant
            i <= n,
            n == nodes@.len(),
            ranks@.len() == n,
            out@.len() == i,
            forall|j: int| 0 <= j < i ==> (#[trigger] out@[j]).0@ == nodes@[j].id@,
        decreases n - i,
    {
        out.push((nodes[i].id.clone(), ranks[i]));
        i = i + 1;
    }
    out
}

} // verus!
