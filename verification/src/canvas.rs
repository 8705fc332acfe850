//! Display-column-aware bounded canvas with Unicode width support.
//!
//! The canvas tracks terminal display columns (not byte counts or scalar-value counts) so that
//! wide characters (CJK), combining marks, and emoji are positioned correctly. All allocations
//! are bounded; overflows return [`MermansiError::CanvasOverflow`].

use vstd::prelude::*;
use crate::error::{MermansiError, Result};
use crate::options::Charset;
use crate::text::{
    graphemes, str_width, char_width, grapheme_clusters, unicode_str_width, unicode_char_width,
    string_of, chars_of, extend_chars, char_is_whitespace, is_white_space, push_char,
};

verus! {

/// Returns the terminal display width of a character (0, 1, or 2 columns).
pub fn char_display_width(ch: char) -> (r: usize)
    ensures
        r == match unicode_char_width(ch) {
            Some(w) => w,
            None => 0,
        },
{
    match char_width(ch) {
        Some(w) => w,
        None => 0,
    }
}

/// Returns the terminal display width of a string, accounting for wide characters.
pub fn str_display_width(s: &str) -> (r: usize)
    ensures
        r == unicode_str_width(s@),
{
    str_width(s)
}

/// Returns the terminal display width of a label, handling combining marks correctly.
///
/// Combining marks have width 0 and attach to the preceding base character. Emoji and CJK
/// characters have width 2.
pub fn label_display_width(s: &str) -> (r: usize)
    ensures
        r == unicode_str_width(s@),
{
    str_display_width(s)
}

/// Maximum number of canvas cells.
pub const MAX_CELLS: usize = 250_000;

/// One terminal cell.
#[derive(Debug)]
enum Cell {
    Empty,
    Grapheme { text: String, width: usize },
    Continuation { owner: usize },
    Stroke { directions: u8, glyph: &'static str, charset: Charset },
}

/// What a cell holds, as plain values.
pub enum CellView {
    Empty,
    Grapheme { text: Seq<char>, width: usize },
    Continuation { owner: usize },
    Stroke { directions: u8, glyph: Seq<char>, charset: Charset },
}

impl View for Cell {
    type V = CellView;

    closed spec fn view(&self) -> CellView {
        match self {
            Cell::Empty => CellView::Empty,
            Cell::Grapheme { text, width } => CellView::Grapheme { text: text@, width: *width },
            Cell::Continuation { owner } => CellView::Continuation { owner: *owner },
            Cell::Stroke { directions, glyph, charset } => CellView::Stroke {
                directions: *directions,
                glyph: glyph@,
                charset: *charset,
            },
        }
    }
}

/// The text a cell shows: a grapheme's text, a stroke's glyph, nothing otherwise.
pub open spec fn cell_text(c: CellView) -> Seq<char> {
    match c {
        CellView::Grapheme { text, .. } => text,
        CellView::Stroke { glyph, .. } => glyph,
        _ => seq![],
    }
}

impl Cell {
    fn text(&self) -> (r: &str)
        ensures
            r@ == cell_text(self@),
    {
        proof {
            reveal_strlit("");
        }
        match self {
            Cell::Grapheme { text, .. } => text.as_str(),
            Cell::Stroke { glyph, .. } => glyph,
            Cell::Empty | Cell::Continuation { .. } => "",
        }
    }
}

/// A canvas as plain values: its size, its cells in row-major order, and the style prefix and
/// suffix written around each cell.
pub struct CanvasView {
    pub width: usize,
    pub height: usize,
    pub cells: Seq<CellView>,
    pub prefix: Seq<Seq<char>>,
    pub suffix: Seq<Seq<char>>,
}

/// The grapheme that owns cell `i`: itself for a grapheme, its owner for a continuation.
pub open spec fn owner_of(cs: Seq<CellView>, i: int) -> Option<usize> {
    if 0 <= i < cs.len() {
        match cs[i] {
            CellView::Grapheme { .. } => Some(i as usize),
            CellView::Continuation { owner } => Some(owner),
            _ => None,
        }
    } else {
        None
    }
}

/// Every wide grapheme is followed by continuation cells that point back to it, and every
/// continuation cell points back to a grapheme that covers it.
#[verifier::opaque]
pub open spec fn cells_wf(cs: Seq<CellView>) -> bool {
    &&& forall|i: int| #![trigger cs[i]] 0 <= i < cs.len() && cs[i] is Grapheme ==> {
        &&& 1 <= cs[i]->Grapheme_width
        &&& i + cs[i]->Grapheme_width <= cs.len()
    }
    &&& forall|i: int, j: int| #![trigger cs[i], cs[j]] 0 <= i < j < cs.len() && cs[i] is Grapheme
        && j < i + cs[i]->Grapheme_width ==> cs[j] == (CellView::Continuation { owner: i as usize })
    &&& forall|j: int| #![trigger cs[j]] 0 <= j < cs.len() && cs[j] is Continuation ==> {
        let o = cs[j]->owner as int;
        &&& 0 <= o < j
        &&& cs[o] is Grapheme
        &&& j < o + cs[o]->Grapheme_width
    }
}

/// A `width` by `height` canvas with every cell empty and unstyled.
pub open spec fn is_blank(v: CanvasView, width: usize, height: usize) -> bool {
    &&& v.width == width
    &&& v.height == height
    &&& forall|i: int| 0 <= i < v.cells.len() ==> #[trigger] v.cells[i] == CellView::Empty
    &&& forall|i: int| 0 <= i < v.cells.len() ==> #[trigger] v.prefix[i] == Seq::<char>::empty()
    &&& forall|i: int| 0 <= i < v.cells.len() ==> #[trigger] v.suffix[i] == Seq::<char>::empty()
}

pub open spec fn view_wf(v: CanvasView) -> bool {
    &&& v.cells.len() == v.width * v.height
    &&& v.width * v.height <= MAX_CELLS
    &&& v.prefix.len() == v.cells.len()
    &&& v.suffix.len() == v.cells.len()
    &&& cells_wf(v.cells)
}

/// The row-major index of `(x, y)`, when it lies on the canvas.
pub open spec fn index_of(v: CanvasView, x: int, y: int) -> Option<usize> {
    if 0 <= x < v.width && 0 <= y < v.height {
        Some((y * v.width + x) as usize)
    } else {
        None
    }
}

/// `y * width + x`, or `usize::MAX` when that overflows.
pub open spec fn requested_index(v: CanvasView, x: int, y: int) -> usize {
    if y * v.width + x <= usize::MAX { (y * v.width + x) as usize } else { usize::MAX }
}

/// The error reported for a write that does not fit at `(x, y)`.
pub open spec fn bounds_error(v: CanvasView, x: int, y: int) -> MermansiError {
    MermansiError::CanvasOverflow { requested: requested_index(v, x, y), max: v.cells.len() as usize }
}

/// The canvas with cell `k` replaced and its styles cleared.
pub open spec fn with_cell(v: CanvasView, k: int, c: CellView) -> CanvasView {
    CanvasView {
        cells: v.cells.update(k, c),
        prefix: v.prefix.update(k, seq![]),
        suffix: v.suffix.update(k, seq![]),
        ..v
    }
}

// ---------------------------------------------------------------------------------------------
// Strokes
// ---------------------------------------------------------------------------------------------

pub const NORTH: u8 = 1;
pub const EAST: u8 = 2;
pub const SOUTH: u8 = 4;
pub const WEST: u8 = 8;

/// The glyph that draws the stroke directions `d` in `charset`.
#[verifier::opaque]
pub open spec fn stroke_glyph_of(d: u8, charset: Charset) -> &'static str {
    let horizontal = d & (EAST | WEST) != 0;
    let vertical = d & (NORTH | SOUTH) != 0;
    if charset == Charset::Ascii {
        if horizontal && vertical { "+" } else if horizontal { "-" } else if vertical { "|" } else { "+" }
    } else if d == (EAST | WEST) {
        "─"
    } else if d == (NORTH | SOUTH) {
        "│"
    } else if d == (EAST | SOUTH) {
        "┌"
    } else if d == (SOUTH | WEST) {
        "┐"
    } else if d == (NORTH | EAST) {
        "└"
    } else if d == (NORTH | WEST) {
        "┘"
    } else if d == (EAST | SOUTH | WEST) {
        "┬"
    } else if d == (NORTH | EAST | WEST) {
        "┴"
    } else if d == (NORTH | EAST | SOUTH) {
        "├"
    } else if d == (NORTH | SOUTH | WEST) {
        "┤"
    } else if d == (NORTH | EAST | SOUTH | WEST) {
        "┼"
    } else if horizontal {
        "─"
    } else if vertical {
        "│"
    } else {
        "┼"
    }
}

fn stroke_glyph(directions: u8, charset: Charset) -> (r: &'static str)
    ensures
        r == stroke_glyph_of(directions, charset),
{
    proof {
        reveal(stroke_glyph_of);
    }
    let horizontal = directions & (EAST | WEST) != 0;
    let vertical = directions & (NORTH | SOUTH) != 0;
    if charset == Charset::Ascii {
        if horizontal && vertical { "+" } else if horizontal { "-" } else if vertical { "|" } else { "+" }
    } else if directions == (EAST | WEST) {
        "─"
    } else if directions == (NORTH | SOUTH) {
        "│"
    } else if directions == (EAST | SOUTH) {
        "┌"
    } else if directions == (SOUTH | WEST) {
        "┐"
    } else if directions == (NORTH | EAST) {
        "└"
    } else if directions == (NORTH | WEST) {
        "┘"
    } else if directions == (EAST | SOUTH | WEST) {
        "┬"
    } else if directions == (NORTH | EAST | WEST) {
        "┴"
    } else if directions == (NORTH | EAST | SOUTH) {
        "├"
    } else if directions == (NORTH | SOUTH | WEST) {
        "┤"
    } else if directions == (NORTH | EAST | SOUTH | WEST) {
        "┼"
    } else if horizontal {
        "─"
    } else if vertical {
        "│"
    } else {
        "┼"
    }
}

/// The canvas after stroke directions `d` are merged into cell `(x, y)`: strokes of the same
/// charset combine their directions, an empty cell or a stroke of another charset takes `d`,
/// and text cells are left alone.
#[verifier::opaque]
pub open spec fn merged_stroke(v: CanvasView, x: int, y: int, d: u8, charset: Charset) -> CanvasView {
    match index_of(v, x, y) {
        None => v,
        Some(k) => {
            let merged: Option<u8> = match v.cells[k as int] {
                CellView::Empty => Some(d),
                CellView::Stroke { directions, charset: existing, .. } =>
                    if existing == charset { Some(directions | d) } else { Some(d) },
                _ => None,
            };
            match merged {
                None => v,
                Some(m) => with_cell(v, k as int, CellView::Stroke {
                    directions: m,
                    glyph: stroke_glyph_of(m, charset)@,
                    charset,
                }),
            }
        },
    }
}

/// The directions a straight run from `a` to `b` (`a <= b`) takes at position `p`.
pub open spec fn run_directions(p: int, a: int, b: int, low: u8, high: u8) -> u8 {
    if a == b {
        high | low
    } else {
        (if p > a { low } else { 0u8 }) | (if p < b { high } else { 0u8 })
    }
}

/// The canvas after strokes of a horizontal run on row `y` from `x1` through `x`-1 are merged.
pub open spec fn hline_upto(v: CanvasView, y: int, x1: int, x2: int, x: int, charset: Charset) -> CanvasView
    decreases x - x1,
{
    if x <= x1 {
        v
    } else {
        merged_stroke(hline_upto(v, y, x1, x2, x - 1, charset), x - 1, y,
            run_directions(x - 1, x1, x2, WEST, EAST), charset)
    }
}

/// The canvas after strokes of a vertical run on column `x` from `y1` through `y`-1 are merged.
pub open spec fn vline_upto(v: CanvasView, x: int, y1: int, y2: int, y: int, charset: Charset) -> CanvasView
    decreases y - y1,
{
    if y <= y1 {
        v
    } else {
        merged_stroke(vline_upto(v, x, y1, y2, y - 1, charset), x, y - 1,
            run_directions(y - 1, y1, y2, NORTH, SOUTH), charset)
    }
}

/// The result of drawing a horizontal line on row `y` from `x1` to `x2`.
pub open spec fn hline(v: CanvasView, y: int, x1: int, x2: int, charset: Charset) -> Result<CanvasView> {
    if x1 > x2 {
        Ok(v)
    } else if index_of(v, x1, y) is None {
        Err(bounds_error(v, x1, y))
    } else if index_of(v, x2, y) is None {
        Err(bounds_error(v, x2, y))
    } else {
        Ok(hline_upto(v, y, x1, x2, x2 + 1, charset))
    }
}

/// The result of drawing a vertical line on column `x` from `y1` to `y2`.
pub open spec fn vline(v: CanvasView, x: int, y1: int, y2: int, charset: Charset) -> Result<CanvasView> {
    if y1 > y2 {
        Ok(v)
    } else if index_of(v, x, y1) is None {
        Err(bounds_error(v, x, y1))
    } else if index_of(v, x, y2) is None {
        Err(bounds_error(v, x, y2))
    } else {
        Ok(vline_upto(v, x, y1, y2, y2 + 1, charset))
    }
}

pub proof fn lemma_merged_stroke_wf(v: CanvasView, x: int, y: int, d: u8, charset: Charset)
    requires
        view_wf(v),
    ensures
        view_wf(merged_stroke(v, x, y, d, charset)),
        merged_stroke(v, x, y, d, charset).width == v.width,
        merged_stroke(v, x, y, d, charset).height == v.height,
{
    reveal(merged_stroke);
    reveal(cells_wf);
    match index_of(v, x, y) {
        None => {},
        Some(k) => {
            let r = merged_stroke(v, x, y, d, charset);
            assert(y * v.width + x < v.width * v.height) by (nonlinear_arith)
                requires 0 <= x < v.width, 0 <= y < v.height;
            let cs = v.cells;
            let ns = r.cells;
            if !(cs[k as int] is Empty || cs[k as int] is Stroke) {
                return;
            }
            assert forall|i: int| 0 <= i < ns.len() && ns[i] is Grapheme implies
                1 <= ns[i]->Grapheme_width && i + ns[i]->Grapheme_width <= ns.len() by {
                assert(cs[i] == ns[i]);
            }
            assert forall|i: int, j: int| 0 <= i < j < ns.len() && ns[i] is Grapheme
                && j < i + ns[i]->Grapheme_width implies ns[j] == (CellView::Continuation { owner: i as usize }) by {
                assert(cs[i] == ns[i]);
                if j == k {
                    assert(cs[j] == (CellView::Continuation { owner: i as usize }));
                }
            }
            assert forall|j: int| 0 <= j < ns.len() && ns[j] is Continuation implies {
                let o = ns[j]->owner as int;
                &&& 0 <= o < j
                &&& ns[o] is Grapheme
                &&& j < o + ns[o]->Grapheme_width
            } by {
                assert(cs[j] == ns[j]);
                let o = cs[j]->owner as int;
                assert(cs[o] is Grapheme);
                assert(o != k);
            }
        },
    }
}

pub struct Canvas {
    width: usize,
    height: usize,
    cells: Vec<Cell>,
    style_prefix: Vec<String>,
    style_suffix: Vec<String>,
}

impl View for Canvas {
    type V = CanvasView;

    closed spec fn view(&self) -> CanvasView {
        CanvasView {
            width: self.width,
            height: self.height,
            cells: self.cells@.map_values(|c: Cell| c@),
            prefix: self.style_prefix@.map_values(|s: String| s@),
            suffix: self.style_suffix@.map_values(|s: String| s@),
        }
    }
}

impl Canvas {
    /// The canvas invariant.
    pub open spec fn wf(&self) -> bool {
        view_wf(self@)
    }

    closed spec fn lens_match(&self) -> bool {
        &&& self.cells@.len() == self@.cells.len()
        &&& self.style_prefix@.len() == self@.prefix.len()
        &&& self.style_suffix@.len() == self@.suffix.len()
    }

    proof fn lemma_lens(&self)
        ensures
            self.lens_match(),
            self@.width == self.width,
            self@.height == self.height,
            forall|i: int| 0 <= i < self.cells@.len() ==> #[trigger] self@.cells[i] == self.cells@[i]@,
            forall|i: int| 0 <= i < self.style_prefix@.len() ==> #[trigger] self@.prefix[i] == self.style_prefix@[i]@,
            forall|i: int| 0 <= i < self.style_suffix@.len() ==> #[trigger] self@.suffix[i] == self.style_suffix@[i]@,
    {
    }

    /// A blank canvas of `width` by `height` cells; refused above [`MAX_CELLS`] cells.
    pub fn new(width: usize, height: usize) -> (r: Result<Self>)
        ensures
            width * height > usize::MAX ==> r == Err::<Canvas, MermansiError>(
                MermansiError::CanvasOverflow { requested: usize::MAX, max: MAX_CELLS }),
            width * height <= usize::MAX && width * height > MAX_CELLS ==> r == Err::<Canvas, MermansiError>(
                MermansiError::CanvasOverflow { requested: (width * height) as usize, max: MAX_CELLS }),
            width * height <= MAX_CELLS ==> (r matches Ok(c) && c.wf() && is_blank(c@, width, height)),
    {
        let cells = match width.checked_mul(height) {
            Some(cells) => cells,
            None => {
                return Err(MermansiError::CanvasOverflow { requested: usize::MAX, max: MAX_CELLS });
            },
        };
        if cells > MAX_CELLS {
            return Err(MermansiError::CanvasOverflow { requested: cells, max: MAX_CELLS });
        }
        let mut cell_vec: Vec<Cell> = Vec::new();
        let mut prefix: Vec<String> = Vec::new();
        let mut suffix: Vec<String> = Vec::new();
        let mut i: usize = 0;
        while i < cells
            invariant
                i <= cells,
                cell_vec@.len() == i,
                prefix@.len() == i,
                suffix@.len() == i,
                forall|k: int| 0 <= k < i ==> #[trigger] cell_vec@[k]@ == CellView::Empty,
                forall|k: int| 0 <= k < i ==> #[trigger] prefix@[k]@ == Seq::<char>::empty(),
                forall|k: int| 0 <= k < i ==> #[trigger] suffix@[k]@ == Seq::<char>::empty(),
            decreases cells - i,
        {
            cell_vec.push(Cell::Empty);
            prefix.push(String::new());
            suffix.push(String::new());
            i = i + 1;
        }
        let canvas = Canvas { width, height, cells: cell_vec, style_prefix: prefix, style_suffix: suffix };
        proof {
            canvas.lemma_lens();
            reveal(cells_wf);
            assert(forall|i: int| 0 <= i < canvas@.cells.len() ==> #[trigger] canvas@.cells[i] == CellView::Empty);
        }
        Ok(canvas)
    }

    pub fn width(&self) -> (r: usize)
        ensures
            r == self@.width,
    {
        self.width
    }

    pub fn height(&self) -> (r: usize)
        ensures
            r == self@.height,
    {
        self.height
    }

    fn index(&self, x: usize, y: usize) -> (r: Option<usize>)
        requires
            self.wf(),
        ensures
            r == index_of(self@, x as int, y as int),
            r matches Some(k) ==> k < self@.cells.len(),
    {
        proof {
            self.lemma_lens();
        }
        if x < self.width && y < self.height {
            proof {
                assert(y * self.width + x < self.width * self.height) by (nonlinear_arith)
                    requires x < self.width, y < self.height;
            }
            Some(y * self.width + x)
        } else {
            None
        }
    }

    fn requested_index(&self, x: usize, y: usize) -> (r: usize)
        ensures
            r == requested_index(self@, x as int, y as int),
    {
        proof {
            self.lemma_lens();
        }
        match y.checked_mul(self.width) {
            Some(offset) => match offset.checked_add(x) {
                Some(index) => index,
                None => usize::MAX,
            },
            None => {
                proof {
                    assert(y * self.width + x > usize::MAX) by (nonlinear_arith)
                        requires y * self.width > usize::MAX, x >= 0;
                }
                usize::MAX
            },
        }
    }

    fn bounds_error(&self, x: usize, y: usize) -> (r: MermansiError)
        ensures
            r == bounds_error(self@, x as int, y as int),
    {
        proof {
            self.lemma_lens();
        }
        MermansiError::CanvasOverflow { requested: self.requested_index(x, y), max: self.cells.len() }
    }

    fn owner_for_index(&self, index: usize) -> (r: Option<usize>)
        ensures
            r == owner_of(self@.cells, index as int),
    {
        proof {
            self.lemma_lens();
        }
        if index >= self.cells.len() {
            return None;
        }
        match &self.cells[index] {
            Cell::Grapheme { .. } => Some(index),
            Cell::Continuation { owner } => Some(*owner),
            Cell::Empty | Cell::Stroke { .. } => None,
        }
    }

    /// Replaces cell `index` and clears its styles.
    fn put_cell(&mut self, index: usize, cell: Cell)
        requires
            index < old(self)@.cells.len(),
            old(self)@.prefix.len() == old(self)@.cells.len(),
            old(self)@.suffix.len() == old(self)@.cells.len(),
            old(self).lens_match(),
        ensures
            final(self)@ == with_cell(old(self)@, index as int, cell@),
            final(self).lens_match(),
    {
        proof {
            self.lemma_lens();
        }
        let ghost before = self@;
        let ghost cv = cell@;
        self.cells.set(index, cell);
        self.style_prefix.set(index, String::new());
        self.style_suffix.set(index, String::new());
        proof {
            self.lemma_lens();
            assert(self@.cells =~= before.cells.update(index as int, cv));
            assert(self@.prefix =~= before.prefix.update(index as int, seq![]));
            assert(self@.suffix =~= before.suffix.update(index as int, seq![]));
        }
    }

    fn merge_stroke(&mut self, x: usize, y: usize, directions: u8, charset: Charset)
        requires
            old(self).wf(),
        ensures
            final(self)@ == merged_stroke(old(self)@, x as int, y as int, directions, charset),
            final(self)@.width == old(self)@.width,
            final(self)@.height == old(self)@.height,
            final(self).wf(),
    {
        proof {
            self.lemma_lens();
            lemma_merged_stroke_wf(self@, x as int, y as int, directions, charset);
            reveal(merged_stroke);
        }
        let index = match self.index(x, y) {
            Some(index) => index,
            None => return,
        };
        let merged = match &self.cells[index] {
            Cell::Empty => directions,
            Cell::Stroke { directions: existing, charset: existing_charset, .. } => {
                if *existing_charset == charset {
                    *existing | directions
                } else {
                    directions
                }
            },
            Cell::Grapheme { .. } | Cell::Continuation { .. } => return,
        };
        let glyph = stroke_glyph(merged, charset);
        self.put_cell(index, Cell::Stroke { directions: merged, glyph, charset });
    }

    /// The text shown at `(x, y)`, or `None` off the canvas.
    pub fn get_cell(&self, x: usize, y: usize) -> (r: Option<&str>)
        requires
            self.wf(),
        ensures
            match index_of(self@, x as int, y as int) {
                None => r is None,
                Some(k) => r matches Some(t) && t@ == cell_text(self@.cells[k as int]),
            },
    {
        proof {
            self.lemma_lens();
        }
        match self.index(x, y) {
            Some(index) => Some(self.cells[index].text()),
            None => None,
        }
    }

    /// The owning cell coordinate when `(x, y)` is a continuation cell.
    pub fn continuation_owner(&self, x: usize, y: usize) -> (r: Option<(usize, usize)>)
        requires
            self.wf(),
        ensures
            match index_of(self@, x as int, y as int) {
                Some(k) => match self@.cells[k as int] {
                    CellView::Continuation { owner } =>
                        r == Some(((owner % self@.width) as usize, (owner / self@.width) as usize)),
                    _ => r is None,
                },
                None => r is None,
            },
    {
        proof {
            self.lemma_lens();
        }
        let index = match self.index(x, y) {
            Some(index) => index,
            None => return None,
        };
        match &self.cells[index] {
            Cell::Continuation { owner } => Some((*owner % self.width, *owner / self.width)),
            _ => None,
        }
    }
}


// ---------------------------------------------------------------------------------------------
// Text placement
// ---------------------------------------------------------------------------------------------

/// A placement plan as plain values: the graphemes to write (owner cell, text, width), the
/// zero-width suffixes to append to graphemes already on the canvas, and the next column.
pub struct TextPlanView {
    pub writes: Seq<(usize, Seq<char>, usize)>,
    pub appends: Seq<(usize, Seq<char>)>,
    pub cursor: usize,
}

/// `appends` with `g` added to the entry of owner `o` (searching from `j`), or a new entry.
pub open spec fn append_suffix(appends: Seq<(usize, Seq<char>)>, o: usize, g: Seq<char>, j: int) -> Seq<(usize, Seq<char>)>
    decreases appends.len() - j,
{
    if j < 0 || j >= appends.len() {
        appends.push((o, g))
    } else if appends[j].0 == o {
        appends.update(j, (o, appends[j].1 + g))
    } else {
        append_suffix(appends, o, g, j + 1)
    }
}

/// The grapheme owning the cell just left of `(x, y)`.
pub open spec fn preceding_owner(v: CanvasView, x: int, y: int) -> Option<usize> {
    if x < 1 {
        None
    } else {
        match index_of(v, x - 1, y) {
            Some(k) => owner_of(v.cells, k as int),
            None => None,
        }
    }
}

/// Planning of the clusters `gs[k..]` on row `y`, from the partial plan `st`. A zero-width
/// cluster joins the previous planned grapheme, or else the grapheme already left of the
/// start; a visible cluster takes the next cells and must fit on the row.
pub open spec fn plan_from(v: CanvasView, y: int, gs: Seq<Seq<char>>, k: int, st: TextPlanView) -> Result<TextPlanView>
    decreases gs.len() - k,
{
    if k < 0 || k >= gs.len() {
        Ok(st)
    } else {
        let g = gs[k];
        let gw = unicode_str_width(g);
        if gw == 0 {
            if st.writes.len() > 0 {
                let last = st.writes.last();
                plan_from(v, y, gs, k + 1, TextPlanView {
                    writes: st.writes.update(st.writes.len() - 1, (last.0, last.1 + g, last.2)),
                    ..st
                })
            } else {
                match preceding_owner(v, st.cursor as int, y) {
                    None => Err(MermansiError::CanvasGrapheme {
                        message: "zero-width grapheme requires a preceding base grapheme",
                    }),
                    Some(o) => plan_from(v, y, gs, k + 1, TextPlanView {
                        appends: append_suffix(st.appends, o, g, 0),
                        ..st
                    }),
                }
            }
        } else if st.cursor + gw > usize::MAX {
            Err(bounds_error(v, st.cursor as int, y))
        } else if st.cursor + gw > v.width {
            Err(bounds_error(v, st.cursor + gw - 1, y))
        } else {
            match index_of(v, st.cursor as int, y) {
                None => Err(bounds_error(v, st.cursor as int, y)),
                Some(o) => plan_from(v, y, gs, k + 1, TextPlanView {
                    writes: st.writes.push((o, g, gw)),
                    cursor: (st.cursor + gw) as usize,
                    ..st
                }),
            }
        }
    }
}

/// The plan for placing `text` at `(x, y)`.
pub open spec fn text_plan(v: CanvasView, x: int, y: int, text: Seq<char>) -> Result<TextPlanView> {
    if y >= v.height || x > v.width || x < 0 || y < 0 {
        Err(bounds_error(v, x, y))
    } else {
        plan_from(v, y, grapheme_clusters(text), 0, TextPlanView {
            writes: seq![],
            appends: seq![],
            cursor: x as usize,
        })
    }
}

struct PlannedGrapheme {
    owner: usize,
    text: String,
    width: usize,
}

struct TextPlan {
    writes: Vec<PlannedGrapheme>,
    appends: Vec<(usize, String)>,
}

/// Pending suffixes as plain values.
pub open spec fn pairs_view(a: Seq<(usize, String)>) -> Seq<(usize, Seq<char>)> {
    a.map_values(|p: (usize, String)| (p.0, p.1@))
}

impl TextPlan {
    closed spec fn writes_view(&self) -> Seq<(usize, Seq<char>, usize)> {
        self.writes@.map_values(|w: PlannedGrapheme| (w.owner, w.text@, w.width))
    }

    closed spec fn appends_view(&self) -> Seq<(usize, Seq<char>)> {
        pairs_view(self.appends@)
    }

    closed spec fn view_at(&self, cursor: usize) -> TextPlanView {
        TextPlanView { writes: self.writes_view(), appends: self.appends_view(), cursor }
    }
}

/// Adds `g` to the pending suffix of `owner`.
fn add_append(appends: &mut Vec<(usize, String)>, owner: usize, g: &str)
    ensures
        pairs_view(final(appends)@)
            == append_suffix(pairs_view(old(appends)@), owner, g@, 0),
{
    let ghost start = pairs_view(appends@);
    let mut j: usize = 0;
    while j < appends.len()
        invariant
            j <= appends@.len(),
            pairs_view(appends@) == start,
            start == pairs_view(old(appends)@),
            append_suffix(start, owner, g@, 0) == append_suffix(start, owner, g@, j as int),
        decreases appends@.len() - j,
    {
        if appends[j].0 == owner {
            proof {
                assert(start[j as int] == (appends@[j as int].0, appends@[j as int].1@));
            }
            let mut text = appends[j].1.clone();
            text.append(g);
            let ghost t = text@;
            appends.set(j, (owner, text));
            proof {
                assert(pairs_view(appends@)
                    =~= start.update(j as int, (owner, start[j as int].1 + g@)));
                assert(start[j as int].0 == owner);
                assert(append_suffix(start, owner, g@, j as int) == start.update(j as int, (owner, start[j as int].1 + g@)));
            }
            return;
        }
        j = j + 1;
    }
    let text = String::from_str(g);
    appends.push((owner, text));
    proof {
        assert(pairs_view(appends@) =~= start.push((owner, g@)));
    }
}

impl Canvas {
    fn preceding_owner(&self, x: usize, y: usize) -> (r: Option<usize>)
        requires
            self.wf(),
        ensures
            r == preceding_owner(self@, x as int, y as int),
    {
        if x < 1 {
            return None;
        }
        match self.index(x - 1, y) {
            Some(previous) => self.owner_for_index(previous),
            None => None,
        }
    }

    fn plan_text(&self, x: usize, y: usize, text: &str) -> (r: Result<TextPlan>)
        requires
            self.wf(),
        ensures
            match text_plan(self@, x as int, y as int, text@) {
                Ok(p) => r matches Ok(plan) && plan.view_at(p.cursor) == p,
                Err(e) => r matches Err(e2) && e2 == e,
            },
    {
        if y >= self.height || x > self.width {
            return Err(self.bounds_error(x, y));
        }
        let gs = graphemes(text);
        let ghost clusters = grapheme_clusters(text@);
        let mut plan = TextPlan { writes: Vec::new(), appends: Vec::new() };
        let mut cursor = x;
        let ghost init = plan.view_at(x);
        proof {
            assert(plan.writes_view() =~= seq![]);
            assert(plan.appends_view() =~= seq![]);
        }
        let mut k: usize = 0;
        while k < gs.len()
            invariant
                self.wf(),
                k <= gs@.len(),
                clusters == gs@.map_values(|g: String| g@),
                text_plan(self@, x as int, y as int, text@) == plan_from(self@, y as int, clusters, k as int, plan.view_at(cursor)),
            decreases gs@.len() - k,
        {
            let grapheme = gs[k].as_str();
            proof {
                assert(clusters[k as int] == grapheme@);
            }
            let width = str_width(grapheme);
            if width == 0 {
                let n = plan.writes.len();
                if n > 0 {
                    let ghost before = plan.writes_view();
                    let mut last = plan.writes.pop().unwrap();
                    last.text.append(grapheme);
                    plan.writes.push(last);
                    proof {
                        assert(plan.writes_view() =~= before.update(before.len() - 1,
                            (before.last().0, before.last().1 + grapheme@, before.last().2)));
                    }
                    k = k + 1;
                    continue;
                }
                let owner = match self.preceding_owner(cursor, y) {
                    Some(owner) => owner,
                    None => {
                        return Err(MermansiError::CanvasGrapheme {
                            message: "zero-width grapheme requires a preceding base grapheme",
                        });
                    },
                };
                add_append(&mut plan.appends, owner, grapheme);
                k = k + 1;
                continue;
            }
            let end = match cursor.checked_add(width) {
                Some(end) => end,
                None => return Err(self.bounds_error(cursor, y)),
            };
            if end > self.width {
                return Err(self.bounds_error(end - 1, y));
            }
            let owner = match self.index(cursor, y) {
                Some(owner) => owner,
                None => return Err(self.bounds_error(cursor, y)),
            };
            let ghost before = plan.writes_view();
            plan.writes.push(PlannedGrapheme { owner, text: String::from_str(grapheme), width });
            proof {
                assert(plan.writes_view() =~= before.push((owner, grapheme@, width)));
            }
            cursor = end;
            k = k + 1;
        }
        Ok(plan)
    }
}


/// The owners of the cells `a..k`.
pub open spec fn owners_in_range(cs: Seq<CellView>, a: int, k: int) -> Set<usize>
    decreases k - a,
{
    if k <= a {
        Set::empty()
    } else {
        let s = owners_in_range(cs, a, k - 1);
        match owner_of(cs, k - 1) {
            Some(o) => s.insert(o),
            None => s,
        }
    }
}

/// The owners of every cell that the first `n` writes cover; each is cleared before writing.
pub open spec fn cleared_owners(cs: Seq<CellView>, writes: Seq<(usize, Seq<char>, usize)>, n: int) -> Set<usize>
    decreases n,
{
    if n <= 0 || n > writes.len() {
        Set::empty()
    } else {
        cleared_owners(cs, writes, n - 1).union(
            owners_in_range(cs, writes[n - 1].0 as int, writes[n - 1].0 + writes[n - 1].2))
    }
}

/// The last of the first `n` writes that covers cell `k`.
pub open spec fn covering_write(writes: Seq<(usize, Seq<char>, usize)>, k: int, n: int) -> Option<int>
    decreases n,
{
    if n <= 0 || n > writes.len() {
        None
    } else if writes[n - 1].0 <= k < writes[n - 1].0 + writes[n - 1].2 {
        Some(n - 1)
    } else {
        covering_write(writes, k, n - 1)
    }
}

/// The last of the first `n` pending suffixes for the grapheme at `k`.
pub open spec fn suffix_for(appends: Seq<(usize, Seq<char>)>, k: int, n: int) -> Option<Seq<char>>
    decreases n,
{
    if n <= 0 || n > appends.len() {
        None
    } else if appends[n - 1].0 == k {
        Some(appends[n - 1].1)
    } else {
        suffix_for(appends, k, n - 1)
    }
}

pub open spec fn cleared_by(cs: Seq<CellView>, owners: Set<usize>, k: int) -> bool {
    owner_of(cs, k) matches Some(o) && owners.contains(o)
}

pub open spec fn plan_cleared(v: CanvasView, p: TextPlanView) -> Set<usize> {
    cleared_owners(v.cells, p.writes, p.writes.len() as int)
}

/// What cell `k` holds after plan `p` is applied: a planned grapheme or its continuation where a
/// write covers it; empty where a grapheme it belonged to is overwritten; an existing grapheme
/// with its zero-width suffix appended; otherwise unchanged.
pub open spec fn applied_cell(v: CanvasView, p: TextPlanView, k: int) -> CellView {
    match covering_write(p.writes, k, p.writes.len() as int) {
        Some(wi) => if k == p.writes[wi].0 {
            CellView::Grapheme { text: p.writes[wi].1, width: p.writes[wi].2 }
        } else {
            CellView::Continuation { owner: p.writes[wi].0 }
        },
        None => if cleared_by(v.cells, plan_cleared(v, p), k) {
            CellView::Empty
        } else {
            match suffix_for(p.appends, k, p.appends.len() as int) {
                Some(sfx) => CellView::Grapheme {
                    text: cell_text(v.cells[k]) + sfx,
                    width: v.cells[k]->Grapheme_width,
                },
                None => v.cells[k],
            }
        },
    }
}

/// Whether applying `p` clears the styles of cell `k`.
pub open spec fn restyled(v: CanvasView, p: TextPlanView, k: int) -> bool {
    covering_write(p.writes, k, p.writes.len() as int) is Some || cleared_by(v.cells, plan_cleared(v, p), k)
}

/// The canvas after plan `p` is applied.
pub open spec fn applied(v: CanvasView, p: TextPlanView) -> CanvasView {
    CanvasView {
        cells: Seq::new(v.cells.len(), |k: int| applied_cell(v, p, k)),
        prefix: Seq::new(v.cells.len(), |k: int| if restyled(v, p, k) { seq![] } else { v.prefix[k] }),
        suffix: Seq::new(v.cells.len(), |k: int| if restyled(v, p, k) { seq![] } else { v.suffix[k] }),
        ..v
    }
}

/// A zero-width suffix would be appended to a grapheme that the same write overwrites.
pub open spec fn plan_conflicts(v: CanvasView, p: TextPlanView) -> bool {
    exists|ai: int| 0 <= ai < p.appends.len() && plan_cleared(v, p).contains(#[trigger] p.appends[ai].0)
}

/// The outcome of placing `text` at `(x, y)`: the planning error, the conflict error, or the
/// canvas with the plan applied.
pub open spec fn text_placed(v: CanvasView, x: int, y: int, text: Seq<char>) -> Result<CanvasView> {
    match text_plan(v, x, y, text) {
        Err(e) => Err(e),
        Ok(p) => if plan_conflicts(v, p) {
            Err(MermansiError::CanvasGrapheme {
                message: "zero-width grapheme base is overwritten by the same write",
            })
        } else {
            Ok(applied(v, p))
        },
    }
}

/// The shape of every plan: writes are visible, disjoint and on the canvas; suffix owners are
/// distinct graphemes already on the canvas.
pub open spec fn plan_shape(v: CanvasView, p: TextPlanView) -> bool {
    &&& forall|i: int| #![trigger p.writes[i]] 0 <= i < p.writes.len() ==> {
        &&& 1 <= p.writes[i].2
        &&& p.writes[i].0 + p.writes[i].2 <= v.cells.len()
    }
    &&& forall|i: int, j: int| #![trigger p.writes[i], p.writes[j]] 0 <= i < j < p.writes.len()
        ==> p.writes[i].0 + p.writes[i].2 <= p.writes[j].0
    &&& forall|i: int| #![trigger p.appends[i]] 0 <= i < p.appends.len() ==> {
        &&& p.appends[i].0 < v.cells.len()
        &&& v.cells[p.appends[i].0 as int] is Grapheme
    }
    &&& forall|i: int, j: int| #![trigger p.appends[i], p.appends[j]] 0 <= i < j < p.appends.len()
        ==> p.appends[i].0 != p.appends[j].0
}

pub open spec fn plan_progress(v: CanvasView, y: int, st: TextPlanView) -> bool {
    &&& plan_shape(v, st)
    &&& 0 <= y < v.height
    &&& st.cursor <= v.width
    &&& forall|i: int| #![trigger st.writes[i]] 0 <= i < st.writes.len()
        ==> st.writes[i].0 + st.writes[i].2 <= y * v.width + st.cursor
}

proof fn lemma_append_suffix_shape(v: CanvasView, apps: Seq<(usize, Seq<char>)>, o: usize, g: Seq<char>, j: int)
    requires
        0 <= j <= apps.len(),
        o < v.cells.len(),
        v.cells[o as int] is Grapheme,
        forall|i: int| 0 <= i < j ==> #[trigger] apps[i].0 != o,
        forall|i: int| #![trigger apps[i]] 0 <= i < apps.len() ==> apps[i].0 < v.cells.len() && v.cells[apps[i].0 as int] is Grapheme,
        forall|i: int, k: int| #![trigger apps[i], apps[k]] 0 <= i < k < apps.len() ==> apps[i].0 != apps[k].0,
    ensures
        ({
            let r = append_suffix(apps, o, g, j);
            &&& forall|i: int| #![trigger r[i]] 0 <= i < r.len() ==> r[i].0 < v.cells.len() && v.cells[r[i].0 as int] is Grapheme
            &&& forall|i: int, k: int| #![trigger r[i], r[k]] 0 <= i < k < r.len() ==> r[i].0 != r[k].0
        }),
    decreases apps.len() - j,
{
    if j < apps.len() && apps[j].0 != o {
        lemma_append_suffix_shape(v, apps, o, g, j + 1);
    }
}

proof fn lemma_plan_shape(v: CanvasView, y: int, gs: Seq<Seq<char>>, k: int, st: TextPlanView)
    requires
        view_wf(v),
        plan_progress(v, y, st),
        0 <= k,
    ensures
        plan_from(v, y, gs, k, st) matches Ok(p) ==> plan_shape(v, p),
    decreases gs.len() - k,
{
    reveal(cells_wf);
    if k < gs.len() {
        let g = gs[k];
        let gw = unicode_str_width(g);
        if gw == 0 {
            if st.writes.len() > 0 {
                let last = st.writes.last();
                let nst = TextPlanView {
                    writes: st.writes.update(st.writes.len() - 1, (last.0, last.1 + g, last.2)),
                    ..st
                };
                assert(plan_progress(v, y, nst)) by {
                    assert forall|i: int| #![trigger nst.writes[i]] 0 <= i < nst.writes.len() implies
                        nst.writes[i].0 == st.writes[i].0 && nst.writes[i].2 == st.writes[i].2 by {}
                }
                lemma_plan_shape(v, y, gs, k + 1, nst);
            } else {
                match preceding_owner(v, st.cursor as int, y) {
                    None => {},
                    Some(o) => {
                        let pk = index_of(v, st.cursor - 1, y)->0 as int;
                        assert(0 <= pk < v.cells.len()) by {
                            assert((y * v.width + st.cursor - 1) < v.width * v.height) by (nonlinear_arith)
                                requires 0 <= y < v.height, 1 <= st.cursor <= v.width;
                        }
                        assert(v.cells[o as int] is Grapheme);
                        lemma_append_suffix_shape(v, st.appends, o, g, 0);
                        let nst = TextPlanView { appends: append_suffix(st.appends, o, g, 0), ..st };
                        lemma_plan_shape(v, y, gs, k + 1, nst);
                    },
                }
            }
        } else if st.cursor + gw <= v.width {
            match index_of(v, st.cursor as int, y) {
                None => {},
                Some(o) => {
                    let nst = TextPlanView {
                        writes: st.writes.push((o, g, gw)),
                        cursor: (st.cursor + gw) as usize,
                        ..st
                    };
                    assert(y * v.width + st.cursor < v.width * v.height) by (nonlinear_arith)
                        requires 0 <= y < v.height, st.cursor < v.width;
                    assert(o == y * v.width + st.cursor);
                    assert(y * v.width + st.cursor + gw <= v.width * v.height) by (nonlinear_arith)
                        requires 0 <= y < v.height, st.cursor + gw <= v.width;
                    lemma_plan_shape(v, y, gs, k + 1, nst);
                },
            }
        }
    }
}

proof fn lemma_owners_in_range(cs: Seq<CellView>, a: int, k: int, o: usize)
    ensures
        owners_in_range(cs, a, k).contains(o) <==> exists|i: int| a <= i < k && owner_of(cs, i) == Some(o),
    decreases k - a,
{
    if k > a {
        lemma_owners_in_range(cs, a, k - 1, o);
        if owners_in_range(cs, a, k).contains(o) && !owners_in_range(cs, a, k - 1).contains(o) {
            assert(owner_of(cs, k - 1) == Some(o));
        }
    }
}

proof fn lemma_cleared_owner_is_grapheme(cs: Seq<CellView>, writes: Seq<(usize, Seq<char>, usize)>, n: int, o: usize)
    requires
        cells_wf(cs),
        cs.len() <= usize::MAX,
        cleared_owners(cs, writes, n).contains(o),
    ensures
        o < cs.len(),
        cs[o as int] is Grapheme,
    decreases n,
{
    reveal(cells_wf);
    if n > 0 && n <= writes.len() {
        if cleared_owners(cs, writes, n - 1).contains(o) {
            lemma_cleared_owner_is_grapheme(cs, writes, n - 1, o);
        } else {
            let a = writes[n - 1].0 as int;
            assert(owners_in_range(cs, a, a + writes[n - 1].2).contains(o));
            lemma_owners_in_range(cs, a, a + writes[n - 1].2, o);
            let i = choose|i: int| a <= i < a + writes[n - 1].2 && owner_of(cs, i) == Some(o);
            assert(0 <= i < cs.len());
            if cs[i] is Continuation {
                assert(cs[cs[i]->owner as int] is Grapheme);
            }
        }
    }
}

proof fn lemma_covering_write_stable(writes: Seq<(usize, Seq<char>, usize)>, k: int, n: int, m: int)
    requires
        0 <= n <= m <= writes.len(),
        forall|i: int, j: int| #![trigger writes[i], writes[j]] 0 <= i < j < writes.len()
            ==> writes[i].0 + writes[i].2 <= writes[j].0,
        covering_write(writes, k, n) is Some,
    ensures
        covering_write(writes, k, m) == covering_write(writes, k, n),
    decreases m - n,
{
    if m > n {
        lemma_covering_write_stable(writes, k, n, m - 1);
        let wi = covering_write(writes, k, n)->0;
        lemma_covering_write_range(writes, k, n);
        assert(writes[wi].0 + writes[wi].2 <= writes[m - 1].0);
    }
}

proof fn lemma_covering_write_range(writes: Seq<(usize, Seq<char>, usize)>, k: int, n: int)
    ensures
        covering_write(writes, k, n) matches Some(wi) ==> 0 <= wi < n && writes[wi].0 <= k < writes[wi].0 + writes[wi].2,
        covering_write(writes, k, n) is None ==> forall|i: int| 0 <= i < n && n <= writes.len()
            ==> !(#[trigger] writes[i].0 <= k < writes[i].0 + writes[i].2),
    decreases n,
{
    if n > 0 && n <= writes.len() {
        lemma_covering_write_range(writes, k, n - 1);
    }
}

impl Canvas {
    fn clear_owner(&mut self, owner: usize)
        requires
            old(self).lens_match(),
            old(self)@.prefix.len() == old(self)@.cells.len(),
            old(self)@.suffix.len() == old(self)@.cells.len(),
            owner < old(self)@.cells.len(),
            old(self)@.cells[owner as int] is Grapheme,
            1 <= old(self)@.cells[owner as int]->Grapheme_width,
            owner + old(self)@.cells[owner as int]->Grapheme_width <= old(self)@.cells.len(),
            forall|k: int| 0 <= k < old(self)@.cells.len()
                && #[trigger] old(self)@.cells[k] == (CellView::Continuation { owner })
                ==> owner < k < owner + old(self)@.cells[owner as int]->Grapheme_width,
        ensures
            final(self).lens_match(),
            final(self)@.width == old(self)@.width,
            final(self)@.height == old(self)@.height,
            final(self)@.cells.len() == old(self)@.cells.len(),
            final(self)@.prefix.len() == old(self)@.prefix.len(),
            final(self)@.suffix.len() == old(self)@.suffix.len(),
            forall|k: int| 0 <= k < old(self)@.cells.len() ==> {
                let hit = k == owner || old(self)@.cells[k] == (CellView::Continuation { owner });
                &&& #[trigger] final(self)@.cells[k] == if hit { CellView::Empty } else { old(self)@.cells[k] }
                &&& final(self)@.prefix[k] == if hit { seq![] } else { old(self)@.prefix[k] }
                &&& final(self)@.suffix[k] == if hit { seq![] } else { old(self)@.suffix[k] }
            },
    {
        proof {
            self.lemma_lens();
        }
        let n = self.cells.len();
        let width = match &self.cells[owner] {
            Cell::Grapheme { width, .. } => *width,
            _ => return,
        };
        let ghost start = self@;
        assert(width == start.cells[owner as int]->Grapheme_width);
        let end = owner + width;
        let mut index = owner;
        while index < end
            invariant
                owner <= index <= end,
                end == owner + start.cells[owner as int]->Grapheme_width,
                end <= start.cells.len(),
                self.lens_match(),
                self@.width == start.width,
                self@.height == start.height,
                self@.cells.len() == start.cells.len(),
                self@.prefix.len() == start.cells.len(),
                self@.suffix.len() == start.cells.len(),
                start.prefix.len() == start.cells.len(),
                start.suffix.len() == start.cells.len(),
                forall|k: int| 0 <= k < start.cells.len()
                    && #[trigger] start.cells[k] == (CellView::Continuation { owner }) ==> owner < k < end,
                forall|k: int| 0 <= k < start.cells.len() ==> {
                    let hit = (k == owner || start.cells[k] == (CellView::Continuation { owner })) && k < index;
                    &&& #[trigger] self@.cells[k] == if hit { CellView::Empty } else { start.cells[k] }
                    &&& self@.prefix[k] == if hit { seq![] } else { start.prefix[k] }
                    &&& self@.suffix[k] == if hit { seq![] } else { start.suffix[k] }
                },
            decreases end - index,
        {
            proof {
                self.lemma_lens();
            }
            let belongs = index == owner || match &self.cells[index] {
                Cell::Continuation { owner: continuation_owner } => *continuation_owner == owner,
                _ => false,
            };
            let ghost before = self@;
            if belongs {
                self.put_cell(index, Cell::Empty);
            }
            proof {
                assert forall|k: int| 0 <= k < start.cells.len() implies {
                    let hit = (k == owner || start.cells[k] == (CellView::Continuation { owner })) && k < index + 1;
                    &&& #[trigger] self@.cells[k] == if hit { CellView::Empty } else { start.cells[k] }
                    &&& self@.prefix[k] == if hit { seq![] } else { start.prefix[k] }
                    &&& self@.suffix[k] == if hit { seq![] } else { start.suffix[k] }
                } by {
                    if k == index {
                        assert(before.cells[k] == start.cells[k]);
                    }
                }
            }
            index = index + 1;
        }
    }

    fn put_grapheme_text(&mut self, index: usize, text: String, width: usize)
        requires
            index < old(self)@.cells.len(),
            old(self).lens_match(),
        ensures
            final(self).lens_match(),
            final(self)@ == (CanvasView {
                cells: old(self)@.cells.update(index as int, CellView::Grapheme { text: text@, width }),
                ..old(self)@
            }),
    {
        proof {
            self.lemma_lens();
        }
        let ghost before = self@;
        let ghost t = text@;
        self.cells.set(index, Cell::Grapheme { text, width });
        proof {
            self.lemma_lens();
            assert(self@.cells =~= before.cells.update(index as int, CellView::Grapheme { text: t, width }));
            assert(self@.prefix =~= before.prefix);
            assert(self@.suffix =~= before.suffix);
        }
    }
}


fn vec_contains(v: &Vec<usize>, x: usize) -> (r: bool)
    ensures
        r == v@.contains(x),
{
    let mut i: usize = 0;
    while i < v.len()
        invariant
            i <= v@.len(),
            forall|j: int| 0 <= j < i ==> v@[j] != x,
        decreases v@.len() - i,
    {
        if v[i] == x {
            return true;
        }
        i = i + 1;
    }
    false
}

/// The canvas once the graphemes owning any cell in `cleared` are emptied.
pub open spec fn after_clear(v: CanvasView, cleared: Set<usize>) -> CanvasView {
    CanvasView {
        cells: Seq::new(v.cells.len(), |k: int| if cleared_by(v.cells, cleared, k) { CellView::Empty } else { v.cells[k] }),
        prefix: Seq::new(v.cells.len(), |k: int| if cleared_by(v.cells, cleared, k) { seq![] } else { v.prefix[k] }),
        suffix: Seq::new(v.cells.len(), |k: int| if cleared_by(v.cells, cleared, k) { seq![] } else { v.suffix[k] }),
        ..v
    }
}

/// `after_clear`, followed by the pending suffixes `appends[..n]`.
pub open spec fn after_appends(v: CanvasView, cleared: Set<usize>, appends: Seq<(usize, Seq<char>)>, n: int) -> CanvasView {
    let c = after_clear(v, cleared);
    CanvasView {
        cells: Seq::new(v.cells.len(), |k: int| match suffix_for(appends, k, n) {
            Some(sfx) => CellView::Grapheme { text: cell_text(v.cells[k]) + sfx, width: v.cells[k]->Grapheme_width },
            None => c.cells[k],
        }),
        ..c
    }
}

/// `base` with the writes `writes[..n]` placed.
pub open spec fn after_writes(base: CanvasView, writes: Seq<(usize, Seq<char>, usize)>, n: int) -> CanvasView {
    CanvasView {
        cells: Seq::new(base.cells.len(), |k: int| match covering_write(writes, k, n) {
            Some(j) => if k == writes[j].0 {
                CellView::Grapheme { text: writes[j].1, width: writes[j].2 }
            } else {
                CellView::Continuation { owner: writes[j].0 }
            },
            None => base.cells[k],
        }),
        prefix: Seq::new(base.cells.len(), |k: int| if covering_write(writes, k, n) is Some { seq![] } else { base.prefix[k] }),
        suffix: Seq::new(base.cells.len(), |k: int| if covering_write(writes, k, n) is Some { seq![] } else { base.suffix[k] }),
        ..base
    }
}

proof fn lemma_seq_push_contains(s: Seq<usize>, x: usize, q: usize)
    ensures
        s.push(x).contains(q) <==> (s.contains(q) || q == x),
{
    if s.contains(q) {
        let t = choose|t: int| 0 <= t < s.len() && s[t] == q;
        assert(s.push(x)[t] == q);
    }
    if q == x {
        assert(s.push(x)[s.len() as int] == q);
    }
    if s.push(x).contains(q) {
        let t = choose|t: int| 0 <= t < s.len() + 1 && s.push(x)[t] == q;
        if t < s.len() {
            assert(s[t] == q);
        }
    }
}

impl Canvas {
    /// The owners of every cell that the planned writes cover, without repetition.
    fn collect_clear_owners(&self, plan: &TextPlan, Ghost(p): Ghost<TextPlanView>) -> (owners: Vec<usize>)
        requires
            self.wf(),
            plan_shape(self@, p),
            plan.writes_view() == p.writes,
        ensures
            forall|o: usize| owners@.contains(o) <==> plan_cleared(self@, p).contains(o),
            forall|i: int, j: int| 0 <= i < j < owners@.len() ==> owners@[i] != owners@[j],
    {
        let ghost cs0 = self@.cells;
        let mut owners: Vec<usize> = Vec::new();
        let mut wi: usize = 0;
        while wi < plan.writes.len()
            invariant
                self.wf(),
                cs0 == self@.cells,
                plan_shape(self@, p),
                plan.writes_view() == p.writes,
                wi <= p.writes.len(),
                forall|o: usize| owners@.contains(o) <==> cleared_owners(cs0, p.writes, wi as int).contains(o),
                forall|i: int, j: int| 0 <= i < j < owners@.len() ==> owners@[i] != owners@[j],
            decreases p.writes.len() - wi,
        {
            proof {
                assert(p.writes[wi as int] == (plan.writes@[wi as int].owner, plan.writes@[wi as int].text@, plan.writes@[wi as int].width));
            }
            let owner = plan.writes[wi].owner;
            let width = plan.writes[wi].width;
            let end = owner + width;
            let ghost base = cleared_owners(cs0, p.writes, wi as int);
            let mut index = owner;
            while index < end
                invariant
                    self.wf(),
                    cs0 == self@.cells,
                    owner <= index <= end,
                    end <= cs0.len(),
                    base == cleared_owners(cs0, p.writes, wi as int),
                    forall|o: usize| owners@.contains(o) <==> base.union(owners_in_range(cs0, owner as int, index as int)).contains(o),
                    forall|i: int, j: int| 0 <= i < j < owners@.len() ==> owners@[i] != owners@[j],
                decreases end - index,
            {
                let found = self.owner_for_index(index);
                let ghost prev = owners@;
                let ghost x = owners_in_range(cs0, owner as int, index as int);
                let ghost x2 = owners_in_range(cs0, owner as int, index + 1);
                match found {
                    Some(o) => {
                        let present = vec_contains(&owners, o);
                        if !present {
                            owners.push(o);
                        }
                        proof {
                            assert(x2 == x.insert(o));
                            assert forall|q: usize| owners@.contains(q) <==> base.union(x2).contains(q) by {
                                if !present {
                                    lemma_seq_push_contains(prev, o, q);
                                }
                            }
                            assert forall|i: int, j: int| 0 <= i < j < owners@.len() implies owners@[i] != owners@[j] by {
                                if !present && j == prev.len() {
                                    assert(prev[i] == owners@[i]);
                                }
                            }
                        }
                    },
                    None => {
                        proof {
                            assert(x2 == x);
                        }
                    },
                }
                index = index + 1;
            }
            proof {
                assert(cleared_owners(cs0, p.writes, wi + 1) == base.union(owners_in_range(cs0, owner as int, end as int)));
            }
            wi = wi + 1;
        }
        owners
    }

    /// Empties each grapheme in `owners` with its continuation cells.
    fn clear_owners(&mut self, owners: &Vec<usize>, Ghost(cleared): Ghost<Set<usize>>)
        requires
            old(self).wf(),
            forall|o: usize| owners@.contains(o) <==> cleared.contains(o),
            forall|o: usize| owners@.contains(o) ==> o < old(self)@.cells.len() && old(self)@.cells[o as int] is Grapheme,
            forall|i: int, j: int| 0 <= i < j < owners@.len() ==> owners@[i] != owners@[j],
        ensures
            final(self).lens_match(),
            final(self)@ == after_clear(old(self)@, cleared),
    {
        proof {
            self.lemma_lens();
        }
        let ghost v0 = self@;
        let ghost cs0 = self@.cells;
        let mut i: usize = 0;
        while i < owners.len()
            invariant
                i <= owners@.len(),
                self.lens_match(),
                cs0 == v0.cells,
                view_wf(v0),
                self@.width == v0.width,
                self@.height == v0.height,
                self@.cells.len() == cs0.len(),
                self@.prefix.len() == cs0.len(),
                self@.suffix.len() == cs0.len(),
                forall|o: usize| owners@.contains(o) ==> o < cs0.len() && cs0[o as int] is Grapheme,
                forall|a: int, b: int| 0 <= a < b < owners@.len() ==> owners@[a] != owners@[b],
                forall|k: int| 0 <= k < cs0.len() ==> {
                    let hit = owner_of(cs0, k) matches Some(o) && owners@.subrange(0, i as int).contains(o);
                    &&& #[trigger] self@.cells[k] == if hit { CellView::Empty } else { cs0[k] }
                    &&& self@.prefix[k] == if hit { seq![] } else { v0.prefix[k] }
                    &&& self@.suffix[k] == if hit { seq![] } else { v0.suffix[k] }
                },
            decreases owners@.len() - i,
        {
            let o = owners[i];
            let ghost before = self@;
            let ghost done = owners@.subrange(0, i as int);
            proof {
                reveal(cells_wf);
                assert(owners@.contains(o));
                assert(!done.contains(o)) by {
                    if done.contains(o) {
                        let t = choose|t: int| 0 <= t < done.len() && done[t] == o;
                        assert(owners@[t] == owners@[i as int]);
                    }
                }
                assert(owner_of(cs0, o as int) == Some(o));
                assert(self@.cells[o as int] == cs0[o as int]);
                assert forall|k: int| 0 <= k < self@.cells.len()
                    && #[trigger] self@.cells[k] == (CellView::Continuation { owner: o })
                    implies o < k < o + self@.cells[o as int]->Grapheme_width by {
                    assert(cs0[k] is Continuation);
                }
            }
            self.clear_owner(o);
            proof {
                reveal(cells_wf);
                let done2 = owners@.subrange(0, i + 1);
                assert(done2 == done.push(o));
                assert forall|k: int| 0 <= k < cs0.len() implies {
                    let hit = owner_of(cs0, k) matches Some(q) && done2.contains(q);
                    &&& #[trigger] self@.cells[k] == if hit { CellView::Empty } else { cs0[k] }
                    &&& self@.prefix[k] == if hit { seq![] } else { v0.prefix[k] }
                    &&& self@.suffix[k] == if hit { seq![] } else { v0.suffix[k] }
                } by {
                    if let Some(q) = owner_of(cs0, k) {
                        lemma_seq_push_contains(done, o, q);
                    }
                    if cs0[k] is Continuation {
                        assert(cs0[cs0[k]->owner as int] is Grapheme);
                    }
                }
            }
            i = i + 1;
        }
        proof {
            assert(owners@.subrange(0, owners@.len() as int) == owners@);
            let a = after_clear(v0, cleared);
            assert forall|k: int| 0 <= k < cs0.len() implies {
                &&& self@.cells[k] == a.cells[k]
                &&& self@.prefix[k] == a.prefix[k]
                &&& self@.suffix[k] == a.suffix[k]
            } by {
                let c = self@.cells[k];
                assert((owner_of(cs0, k) matches Some(o) && owners@.contains(o)) == cleared_by(cs0, cleared, k));
            }
            assert forall|k: int| 0 <= k < cs0.len() implies #[trigger] self@.prefix[k] == a.prefix[k] by {
                let c = self@.cells[k];
            }
            assert forall|k: int| 0 <= k < cs0.len() implies #[trigger] self@.suffix[k] == a.suffix[k] by {
                let c = self@.cells[k];
            }
            assert(self@.cells =~= a.cells);
            assert(self@.prefix =~= a.prefix);
            assert(self@.suffix =~= a.suffix);
        }
    }
}

proof fn lemma_write_owner_cleared(cs: Seq<CellView>, writes: Seq<(usize, Seq<char>, usize)>, n: int, wi: int, k: int)
    requires
        0 <= wi < n <= writes.len(),
        writes[wi].0 <= k < writes[wi].0 + writes[wi].2,
        owner_of(cs, k) is Some,
    ensures
        cleared_owners(cs, writes, n).contains(owner_of(cs, k)->0),
    decreases n,
{
    let o = owner_of(cs, k)->0;
    if wi == n - 1 {
        let a = writes[wi].0 as int;
        lemma_owners_in_range(cs, a, a + writes[wi].2, o);
        assert(a <= k < a + writes[wi].2 && owner_of(cs, k) == Some(o));
    } else {
        lemma_write_owner_cleared(cs, writes, n - 1, wi, k);
    }
}

proof fn lemma_covering_write_is(writes: Seq<(usize, Seq<char>, usize)>, k: int, wi: int, n: int)
    requires
        0 <= wi < n <= writes.len(),
        writes[wi].0 <= k < writes[wi].0 + writes[wi].2,
        forall|i: int, j: int| #![trigger writes[i], writes[j]] 0 <= i < j < writes.len()
            ==> writes[i].0 + writes[i].2 <= writes[j].0,
    ensures
        covering_write(writes, k, n) == Some(wi),
{
    assert(covering_write(writes, k, wi + 1) == Some(wi));
    lemma_covering_write_stable(writes, k, wi + 1, n);
}

/// A pending suffix belongs to a grapheme of the canvas that the plan does not clear.
proof fn lemma_suffix_target(v: CanvasView, p: TextPlanView, k: int)
    requires
        plan_shape(v, p),
        !plan_conflicts(v, p),
        suffix_for(p.appends, k, p.appends.len() as int) is Some,
    ensures
        0 <= k < v.cells.len(),
        v.cells[k] is Grapheme,
        !plan_cleared(v, p).contains(k as usize),
{
    lemma_suffix_for_owner(p.appends, k, p.appends.len() as int);
    let ai = choose|ai: int| 0 <= ai < p.appends.len() && ai < p.appends.len() && p.appends[ai].0 == k;
    assert(p.appends[ai].0 < v.cells.len());
    assert(!plan_cleared(v, p).contains(p.appends[ai].0));
}

proof fn lemma_applied_cell_in_phases(v: CanvasView, p: TextPlanView, k: int)
    requires
        view_wf(v),
        plan_shape(v, p),
        !plan_conflicts(v, p),
        0 <= k < v.cells.len(),
    ensures
        ({
            let base = after_appends(v, plan_cleared(v, p), p.appends, p.appends.len() as int);
            let r = after_writes(base, p.writes, p.writes.len() as int);
            let a = applied(v, p);
            &&& r.cells[k] == a.cells[k]
            &&& r.prefix[k] == a.prefix[k]
            &&& r.suffix[k] == a.suffix[k]
        }),
{
    if covering_write(p.writes, k, p.writes.len() as int) is None
        && suffix_for(p.appends, k, p.appends.len() as int) is Some {
        lemma_suffix_target(v, p, k);
    }
}

/// Clearing, then appending suffixes, then placing the writes yields the planned canvas.
proof fn lemma_applied_in_phases(v: CanvasView, p: TextPlanView)
    requires
        view_wf(v),
        plan_shape(v, p),
        !plan_conflicts(v, p),
    ensures
        after_writes(after_appends(v, plan_cleared(v, p), p.appends, p.appends.len() as int), p.writes,
            p.writes.len() as int) == applied(v, p),
{
    let base = after_appends(v, plan_cleared(v, p), p.appends, p.appends.len() as int);
    let r = after_writes(base, p.writes, p.writes.len() as int);
    let a = applied(v, p);
    assert forall|k: int| 0 <= k < v.cells.len() implies #[trigger] r.cells[k] == a.cells[k] by {
        lemma_applied_cell_in_phases(v, p, k);
    }
    assert forall|k: int| 0 <= k < v.cells.len() implies #[trigger] r.prefix[k] == a.prefix[k] by {
        lemma_applied_cell_in_phases(v, p, k);
    }
    assert forall|k: int| 0 <= k < v.cells.len() implies #[trigger] r.suffix[k] == a.suffix[k] by {
        lemma_applied_cell_in_phases(v, p, k);
    }
    assert(r.cells =~= a.cells);
    assert(r.prefix =~= a.prefix);
    assert(r.suffix =~= a.suffix);
}

/// A cell that no write covers and whose grapheme is not cleared keeps its content, up to an
/// appended suffix.
proof fn lemma_untouched_cell(v: CanvasView, p: TextPlanView, k: int)
    requires
        view_wf(v),
        plan_shape(v, p),
        !plan_conflicts(v, p),
        0 <= k < v.cells.len(),
        covering_write(p.writes, k, p.writes.len() as int) is None,
        !cleared_by(v.cells, plan_cleared(v, p), k),
    ensures
        v.cells[k] is Continuation ==> applied(v, p).cells[k] == v.cells[k],
        v.cells[k] is Grapheme ==> applied(v, p).cells[k] is Grapheme
            && applied(v, p).cells[k]->Grapheme_width == v.cells[k]->Grapheme_width,
        applied(v, p).cells[k] is Grapheme ==> v.cells[k] is Grapheme,
{
    if suffix_for(p.appends, k, p.appends.len() as int) is Some {
        lemma_suffix_target(v, p, k);
    }
}

/// Applying a plan that does not conflict keeps the canvas well formed.
proof fn lemma_applied_wf(v: CanvasView, p: TextPlanView)
    requires
        view_wf(v),
        plan_shape(v, p),
        !plan_conflicts(v, p),
    ensures
        view_wf(applied(v, p)),
{
    reveal(cells_wf);
    let n = p.writes.len() as int;
    let cl = plan_cleared(v, p);
    let cs = v.cells;
    let ns = applied(v, p).cells;
    assert forall|i: int| #![trigger ns[i]] 0 <= i < ns.len() && ns[i] is Grapheme implies {
        &&& 1 <= ns[i]->Grapheme_width
        &&& i + ns[i]->Grapheme_width <= ns.len()
    } by {
        lemma_covering_write_range(p.writes, i, n);
        if covering_write(p.writes, i, n) is None {
            lemma_untouched_cell(v, p, i);
            assert(cs[i] is Grapheme);
        } else {
            let wi = covering_write(p.writes, i, n)->0;
            assert(p.writes[wi] == p.writes[wi]);
        }
    }
    assert forall|i: int, j: int| #![trigger ns[i], ns[j]] 0 <= i < j < ns.len() && ns[i] is Grapheme
        && j < i + ns[i]->Grapheme_width implies ns[j] == (CellView::Continuation { owner: i as usize }) by {
        lemma_covering_write_range(p.writes, i, n);
        if covering_write(p.writes, i, n) is Some {
            let wi = covering_write(p.writes, i, n)->0;
            assert(p.writes[wi] == p.writes[wi]);
            lemma_covering_write_is(p.writes, j, wi, n);
        } else {
            lemma_untouched_cell(v, p, i);
            assert(cs[i] is Grapheme);
            assert(cs[j] == (CellView::Continuation { owner: i as usize }));
            assert(owner_of(cs, i) == Some(i as usize));
            if covering_write(p.writes, j, n) is Some {
                lemma_covering_write_range(p.writes, j, n);
                let wj = covering_write(p.writes, j, n)->0;
                lemma_write_owner_cleared(cs, p.writes, n, wj, j);
                assert(false);
            }
            lemma_untouched_cell(v, p, j);
        }
    }
    assert forall|j: int| #![trigger ns[j]] 0 <= j < ns.len() && ns[j] is Continuation implies {
        let o = ns[j]->owner as int;
        &&& 0 <= o < j
        &&& ns[o] is Grapheme
        &&& j < o + ns[o]->Grapheme_width
    } by {
        lemma_covering_write_range(p.writes, j, n);
        if covering_write(p.writes, j, n) is Some {
            let wj = covering_write(p.writes, j, n)->0;
            assert(p.writes[wj] == p.writes[wj]);
            lemma_covering_write_is(p.writes, p.writes[wj].0 as int, wj, n);
        } else {
            if suffix_for(p.appends, j, p.appends.len() as int) is Some {
                lemma_suffix_target(v, p, j);
            }
            assert(!cleared_by(cs, cl, j));
            lemma_untouched_cell(v, p, j);
            let o = cs[j]->owner as int;
            assert(cs[o] is Grapheme);
            assert(owner_of(cs, o) == Some(o as usize));
            if covering_write(p.writes, o, n) is Some {
                lemma_covering_write_range(p.writes, o, n);
                let wo = covering_write(p.writes, o, n)->0;
                lemma_write_owner_cleared(cs, p.writes, n, wo, o);
                assert(false);
            }
            lemma_untouched_cell(v, p, o);
        }
    }
}

fn has_conflict(appends: &Vec<(usize, String)>, owners: &Vec<usize>) -> (r: bool)
    ensures
        r == exists|ai: int| 0 <= ai < appends@.len() && owners@.contains(#[trigger] appends@[ai].0),
{
    let mut i: usize = 0;
    while i < appends.len()
        invariant
            i <= appends@.len(),
            forall|ai: int| 0 <= ai < i ==> !owners@.contains(#[trigger] appends@[ai].0),
        decreases appends@.len() - i,
    {
        if vec_contains(owners, appends[i].0) {
            assert(owners@.contains(appends@[i as int].0));
            return true;
        }
        i = i + 1;
    }
    false
}

impl Canvas {
    /// Appends each pending suffix to its grapheme.
    fn apply_appends(&mut self, appends: &Vec<(usize, String)>, Ghost(v0): Ghost<CanvasView>, Ghost(cleared): Ghost<Set<usize>>)
        requires
            old(self).lens_match(),
            old(self)@ == after_clear(v0, cleared),
            view_wf(v0),
            forall|i: int| #![trigger appends@[i]] 0 <= i < appends@.len() ==> {
                &&& appends@[i].0 < v0.cells.len()
                &&& v0.cells[appends@[i].0 as int] is Grapheme
                &&& !cleared.contains(appends@[i].0)
            },
            forall|i: int, j: int| #![trigger appends@[i], appends@[j]] 0 <= i < j < appends@.len()
                ==> appends@[i].0 != appends@[j].0,
        ensures
            final(self).lens_match(),
            final(self)@ == after_appends(v0, cleared, pairs_view(appends@), appends@.len() as int),
    {
        let ghost apps = pairs_view(appends@);
        proof {
            assert(self@.cells =~= after_appends(v0, cleared, apps, 0).cells);
        }
        let mut i: usize = 0;
        while i < appends.len()
            invariant
                i <= appends@.len(),
                self.lens_match(),
                apps == pairs_view(appends@),
                view_wf(v0),
                forall|i: int| #![trigger appends@[i]] 0 <= i < appends@.len() ==> {
                    &&& appends@[i].0 < v0.cells.len()
                    &&& v0.cells[appends@[i].0 as int] is Grapheme
                    &&& !cleared.contains(appends@[i].0)
                },
                forall|i: int, j: int| #![trigger appends@[i], appends@[j]] 0 <= i < j < appends@.len()
                    ==> appends@[i].0 != appends@[j].0,
                self@ == after_appends(v0, cleared, apps, i as int),
            decreases appends@.len() - i,
        {
            proof {
                self.lemma_lens();
            }
            let owner = appends[i].0;
            let ghost before = self@;
            proof {
                assert(apps[i as int] == (appends@[i as int].0, appends@[i as int].1@));
                assert forall|t: int| 0 <= t < i implies #[trigger] apps[t].0 != owner by {
                    assert(apps[t] == (appends@[t].0, appends@[t].1@));
                    assert(appends@[t].0 != appends@[i as int].0);
                }
                lemma_suffix_for_none(apps, owner as int, i as int);
                assert(owner_of(v0.cells, owner as int) == Some(owner));
                assert(self@.cells[owner as int] == v0.cells[owner as int]);
            }
            let current = match &self.cells[owner] {
                Cell::Grapheme { text, width } => Some((text.clone(), *width)),
                _ => None,
            };
            if let Some((text, width)) = current {
                let mut text = text;
                text.append(appends[i].1.as_str());
                self.put_grapheme_text(owner, text, width);
                proof {
                    let next = after_appends(v0, cleared, apps, i + 1);
                    assert forall|k: int| 0 <= k < v0.cells.len() implies #[trigger] self@.cells[k] == next.cells[k] by {
                        if k != owner {
                            assert(suffix_for(apps, k, i + 1) == suffix_for(apps, k, i as int));
                        }
                    }
                    assert(self@.cells =~= next.cells);
                }
            }
            i = i + 1;
        }
    }

    /// Places each planned grapheme and its continuation cells, clearing their styles.
    fn apply_writes(&mut self, plan: &TextPlan, Ghost(base): Ghost<CanvasView>)
        requires
            old(self).lens_match(),
            old(self)@ == base,
            base.cells.len() <= MAX_CELLS,
            base.prefix.len() == base.cells.len(),
            base.suffix.len() == base.cells.len(),
            forall|i: int| #![trigger plan.writes_view()[i]] 0 <= i < plan.writes_view().len()
                ==> plan.writes_view()[i].0 + plan.writes_view()[i].2 <= base.cells.len(),
        ensures
            final(self).lens_match(),
            final(self)@ == after_writes(base, plan.writes_view(), plan.writes_view().len() as int),
    {
        let ghost ws = plan.writes_view();
        proof {
            let a0 = after_writes(base, ws, 0);
            assert(self@.cells =~= a0.cells);
            assert(self@.prefix =~= a0.prefix);
            assert(self@.suffix =~= a0.suffix);
        }
        let mut wi: usize = 0;
        while wi < plan.writes.len()
            invariant
                wi <= ws.len(),
                ws == plan.writes_view(),
                self.lens_match(),
                base.cells.len() <= MAX_CELLS,
                base.prefix.len() == base.cells.len(),
                base.suffix.len() == base.cells.len(),
                forall|i: int| #![trigger ws[i]] 0 <= i < ws.len() ==> ws[i].0 + ws[i].2 <= base.cells.len(),
                self@ == after_writes(base, ws, wi as int),
            decreases ws.len() - wi,
        {
            let w = &plan.writes[wi];
            proof {
                assert(ws[wi as int] == (w.owner, w.text@, w.width));
            }
            let owner = w.owner;
            let end = owner + w.width;
            let ghost aw = after_writes(base, ws, wi as int);
            let mut index = owner;
            while index < end
                invariant
                    owner <= index <= end,
                    end <= base.cells.len(),
                    ws[wi as int] == (owner, w.text@, w.width),
                    end == owner + w.width,
                    self.lens_match(),
                    self@.width == base.width,
                    self@.height == base.height,
                    self@.cells.len() == base.cells.len(),
                    self@.prefix.len() == base.cells.len(),
                    self@.suffix.len() == base.cells.len(),
                    aw.cells.len() == base.cells.len(),
                    forall|k: int| 0 <= k < base.cells.len() ==> {
                        let inw = owner <= k < index;
                        &&& #[trigger] self@.cells[k] == if inw {
                            if k == owner {
                                CellView::Grapheme { text: w.text@, width: w.width }
                            } else {
                                CellView::Continuation { owner }
                            }
                        } else {
                            aw.cells[k]
                        }
                        &&& self@.prefix[k] == if inw { seq![] } else { aw.prefix[k] }
                        &&& self@.suffix[k] == if inw { seq![] } else { aw.suffix[k] }
                    },
                decreases end - index,
            {
                let cell = if index == owner {
                    Cell::Grapheme { text: w.text.clone(), width: w.width }
                } else {
                    Cell::Continuation { owner }
                };
                self.put_cell(index, cell);
                index = index + 1;
            }
            proof {
                let next = after_writes(base, ws, wi + 1);
                assert forall|k: int| 0 <= k < base.cells.len() implies {
                    &&& self@.cells[k] == next.cells[k]
                    &&& self@.prefix[k] == next.prefix[k]
                    &&& self@.suffix[k] == next.suffix[k]
                } by {
                    let c = self@.cells[k];
                }
                assert forall|k: int| 0 <= k < base.cells.len() implies #[trigger] self@.prefix[k] == next.prefix[k] by {
                    let c = self@.cells[k];
                }
                assert forall|k: int| 0 <= k < base.cells.len() implies #[trigger] self@.suffix[k] == next.suffix[k] by {
                    let c = self@.cells[k];
                }
                assert(self@.cells =~= next.cells);
                assert(self@.prefix =~= next.prefix);
                assert(self@.suffix =~= next.suffix);
            }
            wi = wi + 1;
        }
    }

    /// Applies a plan all at once, or not at all when a pending suffix belongs to a grapheme
    /// that the same plan overwrites.
    fn apply_text_plan(&mut self, plan: TextPlan, Ghost(p): Ghost<TextPlanView>) -> (r: Result<()>)
        requires
            old(self).wf(),
            plan_shape(old(self)@, p),
            plan.writes_view() == p.writes,
            plan.appends_view() == p.appends,
        ensures
            final(self).wf(),
            plan_conflicts(old(self)@, p) ==> r == Err::<(), MermansiError>(MermansiError::CanvasGrapheme {
                message: "zero-width grapheme base is overwritten by the same write",
            }) && final(self)@ == old(self)@,
            !plan_conflicts(old(self)@, p) ==> r is Ok && final(self)@ == applied(old(self)@, p),
    {
        let ghost v0 = self@;
        let ghost cleared = plan_cleared(v0, p);
        let owners = self.collect_clear_owners(&plan, Ghost(p));
        let conflict = has_conflict(&plan.appends, &owners);
        proof {
            assert forall|ai: int| 0 <= ai < p.appends.len() implies #[trigger] p.appends[ai].0 == plan.appends@[ai].0 by {
                assert(p.appends[ai] == (plan.appends@[ai].0, plan.appends@[ai].1@));
            }
            if conflict {
                let ai = choose|ai: int| 0 <= ai < plan.appends@.len() && owners@.contains(#[trigger] plan.appends@[ai].0);
                assert(cleared.contains(p.appends[ai].0));
            }
            if plan_conflicts(v0, p) {
                let ai = choose|ai: int| 0 <= ai < p.appends.len() && cleared.contains(#[trigger] p.appends[ai].0);
                assert(owners@.contains(plan.appends@[ai].0));
            }
        }
        if conflict {
            return Err(MermansiError::CanvasGrapheme {
                message: "zero-width grapheme base is overwritten by the same write",
            });
        }
        proof {
            assert forall|o: usize| owners@.contains(o) implies o < v0.cells.len() && v0.cells[o as int] is Grapheme by {
                lemma_cleared_owner_is_grapheme(v0.cells, p.writes, p.writes.len() as int, o);
            }
        }
        self.clear_owners(&owners, Ghost(cleared));
        proof {
            assert forall|i: int| #![trigger plan.appends@[i]] 0 <= i < plan.appends@.len() implies {
                &&& plan.appends@[i].0 < v0.cells.len()
                &&& v0.cells[plan.appends@[i].0 as int] is Grapheme
                &&& !cleared.contains(plan.appends@[i].0)
            } by {
                assert(p.appends[i].0 == plan.appends@[i].0);
            }
            assert forall|i: int, j: int| #![trigger plan.appends@[i], plan.appends@[j]] 0 <= i < j < plan.appends@.len()
                implies plan.appends@[i].0 != plan.appends@[j].0 by {
                assert(p.appends[i].0 == plan.appends@[i].0);
                assert(p.appends[j].0 == plan.appends@[j].0);
            }
        }
        self.apply_appends(&plan.appends, Ghost(v0), Ghost(cleared));
        let ghost base = self@;
        proof {
            assert forall|i: int| #![trigger plan.writes_view()[i]] 0 <= i < plan.writes_view().len()
                implies plan.writes_view()[i].0 + plan.writes_view()[i].2 <= base.cells.len() by {
                assert(p.writes[i] == p.writes[i]);
            }
        }
        self.apply_writes(&plan, Ghost(base));
        proof {
            lemma_applied_in_phases(v0, p);
            lemma_applied_wf(v0, p);
        }
        Ok(())
    }

    /// Places the grapheme clusters of `text` from `(x, y)` rightwards: each visible grapheme
    /// takes as many cells as its display width, and each zero-width grapheme joins the
    /// grapheme before it. A failed write leaves the canvas unchanged.
    pub fn set_text(&mut self, x: usize, y: usize, text: &str) -> (r: Result<()>)
        requires
            old(self).wf(),
        ensures
            final(self).wf(),
            final(self)@.width == old(self)@.width,
            final(self)@.height == old(self)@.height,
            match text_placed(old(self)@, x as int, y as int, text@) {
                Ok(v) => r is Ok && final(self)@ == v,
                Err(e) => r == Err::<(), MermansiError>(e) && final(self)@ == old(self)@,
            },
    {
        let plan = match self.plan_text(x, y, text) {
            Ok(plan) => plan,
            Err(e) => return Err(e),
        };
        let ghost p = text_plan(self@, x as int, y as int, text@)->Ok_0;
        proof {
            let init = TextPlanView { writes: seq![], appends: seq![], cursor: x as usize };
            assert(plan_progress(self@, y as int, init));
            lemma_plan_shape(self@, y as int, grapheme_clusters(text@), 0, init);
        }
        self.apply_text_plan(plan, Ghost(p))
    }
}

proof fn lemma_suffix_for_none(appends: Seq<(usize, Seq<char>)>, k: int, n: int)
    requires
        0 <= n <= appends.len(),
        forall|i: int| 0 <= i < n ==> #[trigger] appends[i].0 != k,
    ensures
        suffix_for(appends, k, n) is None,
    decreases n,
{
    if n > 0 {
        lemma_suffix_for_none(appends, k, n - 1);
    }
}

proof fn lemma_suffix_for_owner(appends: Seq<(usize, Seq<char>)>, k: int, n: int)
    ensures
        suffix_for(appends, k, n) is Some ==> exists|ai: int| 0 <= ai < n && ai < appends.len() && appends[ai].0 == k,
    decreases n,
{
    if n > 0 && n <= appends.len() && appends[n - 1].0 != k {
        lemma_suffix_for_owner(appends, k, n - 1);
    }
}

/// Draw a horizontal line.
pub fn draw_horizontal_line(canvas: &mut Canvas, y: usize, x1: usize, x2: usize, charset: Charset) -> (r: Result<()>)
    requires
        old(canvas).wf(),
    ensures
        final(canvas).wf(),
        final(canvas)@.width == old(canvas)@.width,
        final(canvas)@.height == old(canvas)@.height,
        match hline(old(canvas)@, y as int, x1 as int, x2 as int, charset) {
            Ok(v) => r is Ok && final(canvas)@ == v,
            Err(e) => r == Err::<(), MermansiError>(e) && final(canvas)@ == old(canvas)@,
        },
{
    if x1 > x2 {
        return Ok(());
    }
    if canvas.index(x1, y).is_none() {
        return Err(canvas.bounds_error(x1, y));
    }
    if canvas.index(x2, y).is_none() {
        return Err(canvas.bounds_error(x2, y));
    }
    let ghost start = canvas@;
    let mut x = x1;
    while x <= x2
        invariant
            x1 <= x <= x2 + 1,
            x2 < canvas@.width,
            canvas.wf(),
            canvas@.width == start.width,
            canvas@.height == start.height,
            canvas@ == hline_upto(start, y as int, x1 as int, x2 as int, x as int, charset),
        decreases x2 + 1 - x,
    {
        let directions = if x1 == x2 {
            EAST | WEST
        } else {
            (if x > x1 { WEST } else { 0 }) | (if x < x2 { EAST } else { 0 })
        };
        assert(directions == run_directions(x as int, x1 as int, x2 as int, WEST, EAST));
        canvas.merge_stroke(x, y, directions, charset);
        x = x + 1;
    }
    Ok(())
}

/// Draw a vertical line.
pub fn draw_vertical_line(canvas: &mut Canvas, x: usize, y1: usize, y2: usize, charset: Charset) -> (r: Result<()>)
    requires
        old(canvas).wf(),
    ensures
        final(canvas).wf(),
        final(canvas)@.width == old(canvas)@.width,
        final(canvas)@.height == old(canvas)@.height,
        match vline(old(canvas)@, x as int, y1 as int, y2 as int, charset) {
            Ok(v) => r is Ok && final(canvas)@ == v,
            Err(e) => r == Err::<(), MermansiError>(e) && final(canvas)@ == old(canvas)@,
        },
{
    if y1 > y2 {
        return Ok(());
    }
    if canvas.index(x, y1).is_none() {
        return Err(canvas.bounds_error(x, y1));
    }
    if canvas.index(x, y2).is_none() {
        return Err(canvas.bounds_error(x, y2));
    }
    let ghost start = canvas@;
    let mut y = y1;
    while y <= y2
        invariant
            y1 <= y <= y2 + 1,
            y2 < canvas@.height,
            canvas.wf(),
            canvas@.width == start.width,
            canvas@.height == start.height,
            canvas@ == vline_upto(start, x as int, y1 as int, y2 as int, y as int, charset),
        decreases y2 + 1 - y,
    {
        let directions = if y1 == y2 {
            SOUTH | NORTH
        } else {
            (if y > y1 { NORTH } else { 0 }) | (if y < y2 { SOUTH } else { 0 })
        };
        assert(directions == run_directions(y as int, y1 as int, y2 as int, NORTH, SOUTH));
        canvas.merge_stroke(x, y, directions, charset);
        y = y + 1;
    }
    Ok(())
}

/// The outcome of drawing a `width` by `height` box border with its top-left corner at `(x, y)`:
/// nothing below two cells in either direction, a bounds error when a corner lies off the
/// canvas, otherwise the four sides merged as strokes (top, bottom, left, right).
pub open spec fn boxed(v: CanvasView, x: int, y: int, width: int, height: int, charset: Charset) -> Result<CanvasView> {
    let x2 = x + width - 1;
    let y2 = y + height - 1;
    if width < 2 || height < 2 {
        Ok(v)
    } else if x2 > usize::MAX {
        Err(bounds_error(v, usize::MAX as int, y))
    } else if y2 > usize::MAX {
        Err(bounds_error(v, x, usize::MAX as int))
    } else if index_of(v, x, y) is None {
        Err(bounds_error(v, x, y))
    } else if index_of(v, x2, y2) is None {
        Err(bounds_error(v, x2, y2))
    } else {
        let top = hline_upto(v, y, x, x2, x2 + 1, charset);
        let bottom = hline_upto(top, y2, x, x2, x2 + 1, charset);
        let left = vline_upto(bottom, x, y, y2, y2 + 1, charset);
        Ok(vline_upto(left, x2, y, y2, y2 + 1, charset))
    }
}

proof fn lemma_hline_upto_dims(v: CanvasView, y: int, x1: int, x2: int, x: int, charset: Charset)
    requires
        view_wf(v),
    ensures
        view_wf(hline_upto(v, y, x1, x2, x, charset)),
        hline_upto(v, y, x1, x2, x, charset).width == v.width,
        hline_upto(v, y, x1, x2, x, charset).height == v.height,
    decreases x - x1,
{
    if x > x1 {
        lemma_hline_upto_dims(v, y, x1, x2, x - 1, charset);
        lemma_merged_stroke_wf(hline_upto(v, y, x1, x2, x - 1, charset), x - 1, y,
            run_directions(x - 1, x1, x2, WEST, EAST), charset);
    }
}

proof fn lemma_vline_upto_dims(v: CanvasView, x: int, y1: int, y2: int, y: int, charset: Charset)
    requires
        view_wf(v),
    ensures
        view_wf(vline_upto(v, x, y1, y2, y, charset)),
        vline_upto(v, x, y1, y2, y, charset).width == v.width,
        vline_upto(v, x, y1, y2, y, charset).height == v.height,
    decreases y - y1,
{
    if y > y1 {
        lemma_vline_upto_dims(v, x, y1, y2, y - 1, charset);
        lemma_merged_stroke_wf(vline_upto(v, x, y1, y2, y - 1, charset), x, y - 1,
            run_directions(y - 1, y1, y2, NORTH, SOUTH), charset);
    }
}

/// Drawing a box keeps the canvas size.
pub proof fn lemma_boxed_dims(v: CanvasView, x: int, y: int, width: int, height: int, charset: Charset)
    requires
        view_wf(v),
    ensures
        boxed(v, x, y, width, height, charset) matches Ok(w) ==> w.width == v.width && w.height == v.height,
{
    let x2 = x + width - 1;
    let y2 = y + height - 1;
    lemma_hline_upto_dims(v, y, x, x2, x2 + 1, charset);
    let top = hline_upto(v, y, x, x2, x2 + 1, charset);
    lemma_hline_upto_dims(top, y2, x, x2, x2 + 1, charset);
    let bottom = hline_upto(top, y2, x, x2, x2 + 1, charset);
    lemma_vline_upto_dims(bottom, x, y, y2, y2 + 1, charset);
    let left = vline_upto(bottom, x, y, y2, y2 + 1, charset);
    lemma_vline_upto_dims(left, x2, y, y2, y2 + 1, charset);
}

/// Draw a rectangular box border with corners.
pub fn draw_box(canvas: &mut Canvas, x: usize, y: usize, width: usize, height: usize, charset: Charset) -> (r: Result<()>)
    requires
        old(canvas).wf(),
    ensures
        final(canvas).wf(),
        final(canvas)@.width == old(canvas)@.width,
        final(canvas)@.height == old(canvas)@.height,
        match boxed(old(canvas)@, x as int, y as int, width as int, height as int, charset) {
            Ok(v) => r is Ok && final(canvas)@ == v,
            Err(e) => r == Err::<(), MermansiError>(e) && final(canvas)@ == old(canvas)@,
        },
{
    if width < 2 || height < 2 {
        return Ok(());
    }
    let x2 = match x.checked_add(width - 1) {
        Some(x2) => x2,
        None => return Err(canvas.bounds_error(usize::MAX, y)),
    };
    let y2 = match y.checked_add(height - 1) {
        Some(y2) => y2,
        None => return Err(canvas.bounds_error(x, usize::MAX)),
    };
    if canvas.index(x, y).is_none() {
        return Err(canvas.bounds_error(x, y));
    }
    if canvas.index(x2, y2).is_none() {
        return Err(canvas.bounds_error(x2, y2));
    }
    match draw_horizontal_line(canvas, y, x, x2, charset) {
        Ok(()) => {},
        Err(e) => return Err(e),
    }
    match draw_horizontal_line(canvas, y2, x, x2, charset) {
        Ok(()) => {},
        Err(e) => return Err(e),
    }
    match draw_vertical_line(canvas, x, y, y2, charset) {
        Ok(()) => {},
        Err(e) => return Err(e),
    }
    draw_vertical_line(canvas, x2, y, y2, charset)
}

/// The stroke directions of `[north, east, south, west]` connections.
pub open spec fn connection_bits(c: [bool; 4]) -> u8 {
    (if c[0] { NORTH } else { 0u8 }) | (if c[1] { EAST } else { 0u8 }) | (if c[2] { SOUTH } else { 0u8 })
        | (if c[3] { WEST } else { 0u8 })
}

/// The text of a single character.
pub open spec fn char_text(ch: char) -> Seq<char> {
    seq![ch]
}

/// Which grapheme a styled write styles: the one at `(x, y)`, else the one just before it.
pub open spec fn styled_owner(v: CanvasView, x: int, y: int) -> Option<usize> {
    match index_of(v, x, y) {
        Some(k) => match owner_of(v.cells, k as int) {
            Some(o) => Some(o),
            None => preceding_owner(v, x, y),
        },
        None => preceding_owner(v, x, y),
    }
}

/// The outcome of a styled write: the write of `text`, then `prefix` and `suffix` set as the
/// styles of the grapheme it starts at.
pub open spec fn styled_placed(v: CanvasView, x: int, y: int, text: Seq<char>, prefix: Seq<char>, suffix: Seq<char>) -> Result<CanvasView> {
    match text_placed(v, x, y, text) {
        Err(e) => Err(e),
        Ok(w) => Ok(match styled_owner(w, x, y) {
            Some(o) => CanvasView {
                prefix: w.prefix.update(o as int, prefix),
                suffix: w.suffix.update(o as int, suffix),
                ..w
            },
            None => w,
        }),
    }
}

/// What cell `k` contributes to its rendered row.
pub open spec fn cell_piece(v: CanvasView, k: int) -> Seq<char> {
    match v.cells[k] {
        CellView::Grapheme { text, .. } => v.prefix[k] + text + v.suffix[k],
        CellView::Stroke { glyph, .. } => v.prefix[k] + glyph + v.suffix[k],
        CellView::Empty => if v.prefix[k].len() > 0 || v.suffix[k].len() > 0 {
            v.prefix[k] + seq![' '] + v.suffix[k]
        } else {
            seq![' ']
        },
        CellView::Continuation { .. } => seq![],
    }
}

/// Whether cell `k` is visible: text, a stroke, or a styled blank.
pub open spec fn cell_marks(v: CanvasView, k: int) -> bool {
    match v.cells[k] {
        CellView::Empty => v.prefix[k].len() > 0 || v.suffix[k].len() > 0,
        CellView::Continuation { .. } => false,
        _ => true,
    }
}

/// The pieces of the first `n` cells of row `y`.
pub open spec fn row_pieces(v: CanvasView, y: int, n: int) -> Seq<char>
    decreases n,
{
    if n <= 0 {
        seq![]
    } else {
        row_pieces(v, y, n - 1) + cell_piece(v, y * v.width + n - 1)
    }
}

pub open spec fn all_white(t: Seq<char>) -> bool {
    forall|i: int| 0 <= i < t.len() ==> is_white_space(#[trigger] t[i])
}

/// `t` without its trailing whitespace.
pub open spec fn trimmed_end(t: Seq<char>) -> Seq<char>
    decreases t.len(),
{
    if t.len() > 0 && is_white_space(t.last()) { trimmed_end(t.drop_last()) } else { t }
}

proof fn lemma_trimmed_end_ends_visibly(t: Seq<char>)
    ensures
        trimmed_end(t).len() == 0 || !is_white_space(trimmed_end(t).last()),
    decreases t.len(),
{
    if t.len() > 0 && is_white_space(t.last()) {
        lemma_trimmed_end_ends_visibly(t.drop_last());
    }
}

/// Law: no rendered line ends in whitespace.
pub proof fn lemma_rendered_line_has_no_trailing_whitespace(v: CanvasView, y: int)
    ensures
        row_line(v, y).len() == 0 || !is_white_space(row_line(v, y).last()),
{
    lemma_trimmed_end_ends_visibly(row_pieces(v, y, v.width as int));
}

/// Row `y` as rendered: its pieces with the trailing whitespace trimmed (nothing at all for a
/// row with no visible content).
pub open spec fn row_line(v: CanvasView, y: int) -> Seq<char> {
    trimmed_end(row_pieces(v, y, v.width as int))
}

/// The first `n` rendered rows, each ended by a newline.
pub open spec fn rendered_rows(v: CanvasView, n: int) -> Seq<char>
    decreases n,
{
    if n <= 0 {
        seq![]
    } else {
        rendered_rows(v, n - 1) + row_line(v, n - 1) + seq!['\n']
    }
}

/// The whole canvas as rendered text.
pub open spec fn rendered(v: CanvasView) -> Seq<char> {
    rendered_rows(v, v.height as int)
}

/// The first `n` of `lines`, each ended by a line feed.
pub open spec fn lines_text(lines: Seq<Seq<char>>, n: int) -> Seq<char>
    decreases n,
{
    if n <= 0 { seq![] } else { lines_text(lines, n - 1) + lines[n - 1] + seq!['\n'] }
}

/// The rendered rows of a canvas, top to bottom.
pub open spec fn row_lines(v: CanvasView) -> Seq<Seq<char>> {
    Seq::new(v.height as nat, |y: int| row_line(v, y))
}

proof fn lemma_rendered_rows_are_lines(v: CanvasView, n: int)
    requires
        0 <= n <= v.height,
    ensures
        rendered_rows(v, n) == lines_text(row_lines(v), n),
    decreases n,
{
    if n > 0 {
        lemma_rendered_rows_are_lines(v, n - 1);
    }
}

/// Law: a rendered canvas is one line per row, top to bottom, each ended by a line feed, and
/// no line ends in whitespace.
pub proof fn lemma_rendered_is_trimmed_lines(v: CanvasView)
    ensures
        row_lines(v).len() == v.height,
        rendered(v) == lines_text(row_lines(v), v.height as int),
        forall|y: int| 0 <= y < v.height ==> (#[trigger] row_lines(v)[y]).len() == 0
            || !is_white_space(row_lines(v)[y].last()),
{
    lemma_rendered_rows_are_lines(v, v.height as int);
    assert forall|y: int| 0 <= y < v.height implies (#[trigger] row_lines(v)[y]).len() == 0
        || !is_white_space(row_lines(v)[y].last()) by {
        lemma_rendered_line_has_no_trailing_whitespace(v, y);
    }
}

/// How many times `c` occurs in `s`.
pub open spec fn occurrences(s: Seq<char>, c: char) -> nat
    decreases s.len(),
{
    if s.len() == 0 { 0 } else { occurrences(s.drop_last(), c) + if s.last() == c { 1nat } else { 0nat } }
}

proof fn lemma_occurrences_concat(a: Seq<char>, b: Seq<char>, c: char)
    ensures
        occurrences(a + b, c) == occurrences(a, c) + occurrences(b, c),
    decreases b.len(),
{
    if b.len() > 0 {
        assert((a + b).drop_last() =~= a + b.drop_last());
        lemma_occurrences_concat(a, b.drop_last(), c);
    } else {
        assert(a + b =~= a);
    }
}

proof fn lemma_occurrences_absent(s: Seq<char>, c: char)
    requires
        !s.contains(c),
    ensures
        occurrences(s, c) == 0,
    decreases s.len(),
{
    if s.len() > 0 {
        assert(!s.drop_last().contains(c)) by {
            if s.drop_last().contains(c) {
                let i = choose|i: int| 0 <= i < s.drop_last().len() && s.drop_last()[i] == c;
                assert(s[i] == c);
            }
        }
        assert(s[s.len() - 1] != c);
        lemma_occurrences_absent(s.drop_last(), c);
    }
}

proof fn lemma_trimmed_end_is_prefix(t: Seq<char>)
    ensures
        trimmed_end(t).len() <= t.len(),
        trimmed_end(t) == t.subrange(0, trimmed_end(t).len() as int),
    decreases t.len(),
{
    if t.len() > 0 && is_white_space(t.last()) {
        lemma_trimmed_end_is_prefix(t.drop_last());
        assert(t.drop_last().subrange(0, trimmed_end(t).len() as int) =~= t.subrange(0, trimmed_end(t).len() as int));
    } else {
        assert(t.subrange(0, t.len() as int) =~= t);
    }
}

proof fn lemma_trimmed_end_of_white(t: Seq<char>)
    requires
        all_white(t),
    ensures
        trimmed_end(t) == Seq::<char>::empty(),
    decreases t.len(),
{
    if t.len() > 0 {
        assert(is_white_space(t[t.len() - 1]));
        assert(all_white(t.drop_last())) by {
            assert forall|i: int| 0 <= i < t.drop_last().len() implies is_white_space(#[trigger] t.drop_last()[i]) by {
                assert(is_white_space(t[i]));
            }
        }
        lemma_trimmed_end_of_white(t.drop_last());
    }
}

proof fn lemma_lines_text_line_feeds(lines: Seq<Seq<char>>, n: int)
    requires
        0 <= n <= lines.len(),
        forall|y: int| 0 <= y < lines.len() ==> !(#[trigger] lines[y]).contains('\n'),
    ensures
        occurrences(lines_text(lines, n), '\n') == n,
    decreases n,
{
    if n > 0 {
        lemma_lines_text_line_feeds(lines, n - 1);
        let before = lines_text(lines, n - 1);
        lemma_occurrences_absent(lines[n - 1], '\n');
        lemma_occurrences_concat(before, lines[n - 1], '\n');
        lemma_occurrences_concat(before + lines[n - 1], seq!['\n'], '\n');
        assert(seq!['\n'].drop_last() =~= Seq::<char>::empty());
        assert(occurrences(Seq::<char>::empty(), '\n') == 0);
        assert(occurrences(seq!['\n'], '\n') == 1);
        assert(lines_text(lines, n) == before + lines[n - 1] + seq!['\n']);
    }
}

/// Law: a canvas whose cells hold no line feed renders as exactly one line feed per row, and
/// a row whose cells show only whitespace renders as an empty line.
pub proof fn lemma_rendered_line_feeds(v: CanvasView)
    requires
        forall|y: int| 0 <= y < v.height ==> !(#[trigger] row_pieces(v, y, v.width as int)).contains('\n'),
    ensures
        occurrences(rendered(v), '\n') == v.height,
        forall|y: int| 0 <= y < v.height && all_white(#[trigger] row_pieces(v, y, v.width as int))
            ==> row_lines(v)[y] == Seq::<char>::empty(),
{
    lemma_rendered_is_trimmed_lines(v);
    assert forall|y: int| 0 <= y < row_lines(v).len() implies !(#[trigger] row_lines(v)[y]).contains('\n') by {
        let t = row_pieces(v, y, v.width as int);
        lemma_trimmed_end_is_prefix(t);
        if row_lines(v)[y].contains('\n') {
            let i = choose|i: int| 0 <= i < row_lines(v)[y].len() && row_lines(v)[y][i] == '\n';
            assert(t[i] == '\n');
            assert(t.contains('\n'));
        }
    }
    lemma_lines_text_line_feeds(row_lines(v), v.height as int);
    assert forall|y: int| 0 <= y < v.height && all_white(#[trigger] row_pieces(v, y, v.width as int))
        implies row_lines(v)[y] == Seq::<char>::empty() by {
        lemma_trimmed_end_of_white(row_pieces(v, y, v.width as int));
    }
}

fn is_all_white(t: &Vec<char>) -> (r: bool)
    ensures
        r == all_white(t@),
{
    let mut i: usize = 0;
    while i < t.len()
        invariant
            i <= t@.len(),
            forall|j: int| 0 <= j < i ==> is_white_space(#[trigger] t@[j]),
        decreases t@.len() - i,
    {
        if !char_is_whitespace(t[i]) {
            return false;
        }
        i = i + 1;
    }
    true
}

impl Canvas {
    /// Merges the stroke directions of `[north, east, south, west]` connections into `(x, y)`.
    pub fn merge_stroke_connections(&mut self, x: usize, y: usize, connections: [bool; 4], charset: Charset)
        requires
            old(self).wf(),
        ensures
            final(self).wf(),
            final(self)@ == merged_stroke(old(self)@, x as int, y as int, connection_bits(connections), charset),
    {
        let directions = (if connections[0] { NORTH } else { 0u8 }) | (if connections[1] { EAST } else { 0u8 })
            | (if connections[2] { SOUTH } else { 0u8 }) | (if connections[3] { WEST } else { 0u8 });
        self.merge_stroke(x, y, directions, charset);
    }

    /// Set a single character at `(x, y)` as an atomic grapheme write.
    pub fn set_char(&mut self, x: usize, y: usize, ch: char) -> (r: Result<()>)
        requires
            old(self).wf(),
        ensures
            final(self).wf(),
            final(self)@.width == old(self)@.width,
            final(self)@.height == old(self)@.height,
            match text_placed(old(self)@, x as int, y as int, char_text(ch)) {
                Ok(v) => r is Ok && final(self)@ == v,
                Err(e) => r == Err::<(), MermansiError>(e) && final(self)@ == old(self)@,
            },
    {
        let mut encoded = String::new();
        push_char(&mut encoded, ch);
        proof {
            assert(encoded@ =~= char_text(ch));
        }
        self.set_text(x, y, encoded.as_str())
    }

    /// Places `text` as [`Canvas::set_text`] does, then sets `prefix` and `suffix` as the styles
    /// of the grapheme the write starts at (or of the grapheme just before it).
    pub fn set_styled_text(&mut self, x: usize, y: usize, text: &str, prefix: &str, suffix: &str) -> (r: Result<()>)
        requires
            old(self).wf(),
        ensures
            final(self).wf(),
            final(self)@.width == old(self)@.width,
            final(self)@.height == old(self)@.height,
            match styled_placed(old(self)@, x as int, y as int, text@, prefix@, suffix@) {
                Ok(v) => r is Ok && final(self)@ == v,
                Err(e) => r == Err::<(), MermansiError>(e) && final(self)@ == old(self)@,
            },
    {
        match self.set_text(x, y, text) {
            Ok(()) => {},
            Err(e) => return Err(e),
        }
        let ghost w = self@;
        let owner = match self.index(x, y) {
            Some(index) => match self.owner_for_index(index) {
                Some(owner) => Some(owner),
                None => self.preceding_owner(x, y),
            },
            None => self.preceding_owner(x, y),
        };
        if let Some(owner) = owner {
            proof {
                self.lemma_lens();
                reveal(cells_wf);
                assert(owner < self@.cells.len()) by {
                    match index_of(w, x as int, y as int) {
                        Some(k) => {
                            if owner_of(w.cells, k as int) is Some {
                                if w.cells[k as int] is Continuation {
                                    assert(w.cells[w.cells[k as int]->owner as int] is Grapheme);
                                }
                            } else {
                                self.lemma_preceding_owner_bound(x, y);
                            }
                        },
                        None => self.lemma_preceding_owner_bound(x, y),
                    }
                }
            }
            self.style_prefix.set(owner, String::from_str(prefix));
            self.style_suffix.set(owner, String::from_str(suffix));
            proof {
                self.lemma_lens();
                assert(self@.cells =~= w.cells);
                assert(self@.prefix =~= w.prefix.update(owner as int, prefix@));
                assert(self@.suffix =~= w.suffix.update(owner as int, suffix@));
            }
        }
        Ok(())
    }

    proof fn lemma_preceding_owner_bound(&self, x: usize, y: usize)
        requires
            self.wf(),
        ensures
            preceding_owner(self@, x as int, y as int) matches Some(o) ==> o < self@.cells.len(),
    {
        reveal(cells_wf);
        if x >= 1 {
            match index_of(self@, x - 1, y as int) {
                Some(k) => {
                    assert(y * self@.width + (x - 1) < self@.width * self@.height) by (nonlinear_arith)
                        requires x - 1 < self@.width, y < self@.height;
                    if self@.cells[k as int] is Continuation {
                        assert(self@.cells[self@.cells[k as int]->owner as int] is Grapheme);
                    }
                },
                None => {},
            }
        }
    }

    /// The characters cell `k` contributes to its row, and whether it is visible.
    fn piece(&self, k: usize, out: &mut Vec<char>) -> (marks: bool)
        requires
            self.wf(),
            k < self@.cells.len(),
        ensures
            final(out)@ == old(out)@ + cell_piece(self@, k as int),
            marks == cell_marks(self@, k as int),
    {
        proof {
            self.lemma_lens();
        }
        let prefix = chars_of(self.style_prefix[k].as_str());
        let suffix = chars_of(self.style_suffix[k].as_str());
        match &self.cells[k] {
            Cell::Grapheme { text, .. } => {
                let t = chars_of(text.as_str());
                extend_chars(out, prefix.as_slice());
                extend_chars(out, t.as_slice());
                extend_chars(out, suffix.as_slice());
                proof {
                    assert(old(out)@ + prefix@ + t@ + suffix@ =~= old(out)@ + cell_piece(self@, k as int));
                }
                true
            },
            Cell::Stroke { glyph, .. } => {
                let t = chars_of(glyph);
                extend_chars(out, prefix.as_slice());
                extend_chars(out, t.as_slice());
                extend_chars(out, suffix.as_slice());
                proof {
                    assert(old(out)@ + prefix@ + t@ + suffix@ =~= old(out)@ + cell_piece(self@, k as int));
                }
                true
            },
            Cell::Empty => {
                if prefix.len() > 0 || suffix.len() > 0 {
                    extend_chars(out, prefix.as_slice());
                    out.push(' ');
                    extend_chars(out, suffix.as_slice());
                    proof {
                        assert(old(out)@ + prefix@ + seq![' '] + suffix@ =~= old(out)@ + cell_piece(self@, k as int));
                    }
                    true
                } else {
                    out.push(' ');
                    proof {
                        assert(old(out)@.push(' ') =~= old(out)@ + cell_piece(self@, k as int));
                    }
                    false
                }
            },
            Cell::Continuation { .. } => {
                proof {
                    assert(old(out)@ =~= old(out)@ + cell_piece(self@, k as int));
                }
                false
            },
        }
    }

    /// Render the canvas with each row cut after its last visible cell; a row with nothing
    /// visible renders empty. Every row ends with a newline.
    pub fn render(&self) -> (r: String)
        requires
            self.wf(),
        ensures
            r@ == rendered(self@),
    {
        let mut out: Vec<char> = Vec::new();
        let mut y: usize = 0;
        while y < self.height
            invariant
                self.wf(),
                y <= self@.height,
                out@ == rendered_rows(self@, y as int),
            decreases self@.height - y,
        {
            proof {
                self.lemma_lens();
            }
            let mut line: Vec<char> = Vec::new();
            let mut x: usize = 0;
            while x < self.width
                invariant
                    self.wf(),
                    x <= self@.width,
                    y < self@.height,
                    line@ == row_pieces(self@, y as int, x as int),
                decreases self@.width - x,
            {
                proof {
                    self.lemma_lens();
                    assert(y * self@.width + x < self@.width * self@.height) by (nonlinear_arith)
                        requires x < self@.width, y < self@.height;
                }
                let k = y * self.width + x;
                let _marks = self.piece(k, &mut line);
                x = x + 1;
            }
            while line.len() > 0 && char_is_whitespace(line[line.len() - 1])
                invariant
                    trimmed_end(line@) == row_line(self@, y as int),
                decreases line@.len(),
            {
                let ghost before = line@;
                line.pop();
                proof {
                    assert(line@ =~= before.drop_last());
                }
            }
            proof {
                assert(line@ == trimmed_end(line@));
                assert(line@ =~= row_line(self@, y as int));
            }
            extend_chars(&mut out, line.as_slice());
            out.push('\n');
            proof {
                assert(out@ =~= rendered_rows(self@, y + 1));
            }
            y = y + 1;
        }
        string_of(out.as_slice())
    }
}

} // verus!
