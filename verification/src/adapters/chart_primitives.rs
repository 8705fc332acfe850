//! Shared bounded chart primitives for terminal-native chart geometry.
//!
//! Canvas-size selection, the shared work budget, fill and marker glyphs, Bresenham lines and
//! the cropping of a rendered chart. All operations respect canvas bounds and return typed
//! errors on overflow.

use vstd::prelude::*;
use crate::canvas::{
    Canvas, CanvasView, text_placed, index_of, cell_text, rendered, all_white,
};
use crate::error::{MermansiError, Result};
use crate::options::{Charset, MermansiOptions};
use crate::text::{chars_of, string_of, extend_chars, is_white_space, char_is_whitespace};

verus! {

/// Maximum number of chart entities (sections, axes, curves, points, sets) rendered.
pub const MAX_CHART_ENTITIES: usize = 4_096;

/// Maximum bounded work spent searching for chart labels and collision-free points.
pub const MAX_CHART_WORK: usize = 2_000_000;

/// Shared deterministic work budget for chart placement searches.
#[derive(Debug)]
pub struct ChartWorkBudget {
    context: &'static str,
    used: usize,
}

impl ChartWorkBudget {
    /// What the budget reports its overruns as.
    pub closed spec fn context(&self) -> &'static str {
        self.context
    }

    /// The work spent so far (saturating at `usize::MAX`).
    pub closed spec fn used(&self) -> usize {
        self.used
    }

    pub fn new(context: &'static str) -> (r: Self)
        ensures
            r.context() == context,
            r.used() == 0,
    {
        ChartWorkBudget { context, used: 0 }
    }

    /// Spends `amount` more work; fails once the total exceeds [`MAX_CHART_WORK`]. The work
    /// stays spent either way.
    pub fn consume(&mut self, amount: usize) -> (r: Result<()>)
        ensures
            final(self).context() == old(self).context(),
            final(self).used() == (if old(self).used() + amount > usize::MAX { usize::MAX } else {
                (old(self).used() + amount) as usize
            }),
            final(self).used() > MAX_CHART_WORK ==> r == Err::<(), MermansiError>(MermansiError::RenderLimit {
                context: old(self).context(),
                requested: final(self).used(),
                limit: MAX_CHART_WORK,
            }),
            final(self).used() <= MAX_CHART_WORK ==> r is Ok,
    {
        self.used = self.used.saturating_add(amount);
        if self.used > MAX_CHART_WORK {
            return Err(MermansiError::RenderLimit {
                context: self.context,
                requested: self.used,
                limit: MAX_CHART_WORK,
            });
        }
        Ok(())
    }
}

/// The canvas size a chart gets: the preferred maximum, clipped to the caller's limits, or the
/// first limit error where the minimum cannot be met (width before height).
pub open spec fn chart_dimensions(opts: MermansiOptions, minimum: (usize, usize), maximum: (usize, usize)) -> Result<(usize, usize)> {
    let width = if opts.max_width < maximum.0 { opts.max_width } else { maximum.0 };
    let height = if opts.max_height < maximum.1 { opts.max_height } else { maximum.1 };
    if opts.max_width < minimum.0 {
        Err(MermansiError::RenderLimit { context: "chart width", requested: minimum.0, limit: opts.max_width })
    } else if opts.max_height < minimum.1 {
        Err(MermansiError::RenderLimit { context: "chart height", requested: minimum.1, limit: opts.max_height })
    } else if width < minimum.0 {
        Err(MermansiError::RenderLimit { context: "chart width", requested: minimum.0, limit: width })
    } else if height < minimum.1 {
        Err(MermansiError::RenderLimit { context: "chart height", requested: minimum.1, limit: height })
    } else {
        Ok((width, height))
    }
}

/// Choose a terminal-chart canvas size without exceeding the caller's limits.
///
/// Width and height are checked independently because radial charts and Cartesian charts require
/// different aspect ratios. A chart that cannot meet its minimum dimensions returns a typed limit
/// error before any [`Canvas`] is allocated.
pub fn checked_chart_dimensions(opts: &MermansiOptions, minimum: (usize, usize), preferred_maximum: (usize, usize)) -> (r: Result<(usize, usize)>)
    ensures
        r == chart_dimensions(*opts, minimum, preferred_maximum),
{
    let (minimum_width, minimum_height) = minimum;
    let (maximum_width, maximum_height) = preferred_maximum;
    if opts.max_width < minimum_width {
        return Err(MermansiError::RenderLimit {
            context: "chart width",
            requested: minimum_width,
            limit: opts.max_width,
        });
    }
    if opts.max_height < minimum_height {
        return Err(MermansiError::RenderLimit {
            context: "chart height",
            requested: minimum_height,
            limit: opts.max_height,
        });
    }
    let width = if opts.max_width < maximum_width { opts.max_width } else { maximum_width };
    if width < minimum_width {
        return Err(MermansiError::RenderLimit { context: "chart width", requested: minimum_width, limit: width });
    }
    let height = if opts.max_height < maximum_height { opts.max_height } else { maximum_height };
    if height < minimum_height {
        return Err(MermansiError::RenderLimit { context: "chart height", requested: minimum_height, limit: height });
    }
    Ok((width, height))
}

/// Ensure an entity count does not exceed the chart entity limit.
pub fn ensure_entity_limit(context: &'static str, requested: usize) -> (r: Result<()>)
    ensures
        requested > MAX_CHART_ENTITIES ==> r == Err::<(), MermansiError>(MermansiError::RenderLimit {
            context,
            requested,
            limit: MAX_CHART_ENTITIES,
        }),
        requested <= MAX_CHART_ENTITIES ==> r is Ok,
{
    if requested > MAX_CHART_ENTITIES {
        return Err(MermansiError::RenderLimit { context, requested, limit: MAX_CHART_ENTITIES });
    }
    Ok(())
}

/// The fill glyph of series `index`: eight glyphs per charset, repeating.
pub open spec fn fill_glyph(index: usize, charset: Charset) -> &'static str {
    let i = index % 8;
    match charset {
        Charset::Unicode => if i == 0 { "█" } else if i == 1 { "▓" } else if i == 2 { "▒" } else if i == 3 { "░" }
            else if i == 4 { "●" } else if i == 5 { "◆" } else if i == 6 { "■" } else { "▲" },
        Charset::Ascii => if i == 0 { "#" } else if i == 1 { "@" } else if i == 2 { "%" } else if i == 3 { "&" }
            else if i == 4 { "+" } else if i == 5 { "=" } else if i == 6 { "*" } else { "o" },
    }
}

/// The marker glyph of series `index`: eight glyphs per charset, repeating.
pub open spec fn marker_glyph(index: usize, charset: Charset) -> &'static str {
    let i = index % 8;
    match charset {
        Charset::Unicode => if i == 0 { "●" } else if i == 1 { "◆" } else if i == 2 { "■" } else if i == 3 { "▲" }
            else if i == 4 { "▼" } else if i == 5 { "★" } else if i == 6 { "◉" } else { "◈" },
        Charset::Ascii => if i == 0 { "*" } else if i == 1 { "+" } else if i == 2 { "x" } else if i == 3 { "o" }
            else if i == 4 { "#" } else if i == 5 { "@" } else if i == 6 { "%" } else { "&" },
    }
}

/// Returns the fill character for the given series index and charset.
pub fn fill_char(index: usize, charset: Charset) -> (r: &'static str)
    ensures
        r == fill_glyph(index, charset),
{
    let i = index % 8;
    match charset {
        Charset::Unicode => if i == 0 { "█" } else if i == 1 { "▓" } else if i == 2 { "▒" } else if i == 3 { "░" }
            else if i == 4 { "●" } else if i == 5 { "◆" } else if i == 6 { "■" } else { "▲" },
        Charset::Ascii => if i == 0 { "#" } else if i == 1 { "@" } else if i == 2 { "%" } else if i == 3 { "&" }
            else if i == 4 { "+" } else if i == 5 { "=" } else if i == 6 { "*" } else { "o" },
    }
}

/// Returns the line/dot character for plotted vertices and markers.
pub fn marker_char(index: usize, charset: Charset) -> (r: &'static str)
    ensures
        r == marker_glyph(index, charset),
{
    let i = index % 8;
    match charset {
        Charset::Unicode => if i == 0 { "●" } else if i == 1 { "◆" } else if i == 2 { "■" } else if i == 3 { "▲" }
            else if i == 4 { "▼" } else if i == 5 { "★" } else if i == 6 { "◉" } else { "◈" },
        Charset::Ascii => if i == 0 { "*" } else if i == 1 { "+" } else if i == 2 { "x" } else if i == 3 { "o" }
            else if i == 4 { "#" } else if i == 5 { "@" } else if i == 6 { "%" } else { "&" },
    }
}

/// Whether `(x, y)` lies on the canvas.
pub open spec fn on_canvas(v: CanvasView, x: int, y: int) -> bool {
    0 <= x < v.width && 0 <= y < v.height
}

/// Plotting that overwrites: `glyph` is written where the point lies on the canvas.
pub open spec fn plotted(v: CanvasView, x: int, y: int, glyph: Seq<char>) -> Result<CanvasView> {
    if on_canvas(v, x, y) { text_placed(v, x, y, glyph) } else { Ok(v) }
}

/// Plotting that keeps what is drawn: `glyph` is written only on an empty cell of the canvas.
pub open spec fn plotted_safe(v: CanvasView, x: int, y: int, glyph: Seq<char>) -> Result<CanvasView> {
    if on_canvas(v, x, y) && cell_text(v.cells[index_of(v, x, y)->0 as int]).len() == 0 {
        text_placed(v, x, y, glyph)
    } else {
        Ok(v)
    }
}

/// Plot a point at the given coordinates if within bounds, overwriting existing cells.
fn plot_force(canvas: &mut Canvas, x: i64, y: i64, glyph: &str) -> (r: Result<()>)
    requires
        old(canvas).wf(),
    ensures
        final(canvas).wf(),
        match plotted(old(canvas)@, x as int, y as int, glyph@) {
            Ok(v) => r is Ok && final(canvas)@ == v,
            Err(e) => r == Err::<(), MermansiError>(e) && final(canvas)@ == old(canvas)@,
        },
{
    if x < 0 || y < 0 {
        return Ok(());
    }
    if x as u64 >= canvas.width() as u64 || y as u64 >= canvas.height() as u64 {
        return Ok(());
    }
    canvas.set_text(x as usize, y as usize, glyph)
}

/// Plot a point at the given coordinates if within bounds and the cell there is empty.
pub fn plot_safe(canvas: &mut Canvas, x: i64, y: i64, glyph: &str) -> (r: Result<()>)
    requires
        old(canvas).wf(),
    ensures
        final(canvas).wf(),
        match plotted_safe(old(canvas)@, x as int, y as int, glyph@) {
            Ok(v) => r is Ok && final(canvas)@ == v,
            Err(e) => r == Err::<(), MermansiError>(e) && final(canvas)@ == old(canvas)@,
        },
{
    if x < 0 || y < 0 {
        return Ok(());
    }
    if x as u64 >= canvas.width() as u64 || y as u64 >= canvas.height() as u64 {
        return Ok(());
    }
    let (ux, uy) = (x as usize, y as usize);
    match canvas.get_cell(ux, uy) {
        Some(s) => {
            if !s.is_empty() {
                return Ok(());
            }
        },
        None => {},
    }
    canvas.set_text(ux, uy, glyph)
}

/// Plot a point, overwriting whatever is there.
pub fn plot(canvas: &mut Canvas, x: i64, y: i64, glyph: &str) -> (r: Result<()>)
    requires
        old(canvas).wf(),
    ensures
        final(canvas).wf(),
        match plotted(old(canvas)@, x as int, y as int, glyph@) {
            Ok(v) => r is Ok && final(canvas)@ == v,
            Err(e) => r == Err::<(), MermansiError>(e) && final(canvas)@ == old(canvas)@,
        },
{
    plot_force(canvas, x, y, glyph)
}

pub open spec fn abs_int(v: int) -> int {
    if v < 0 { -v } else { v }
}

/// One point drawn by a line: overwriting or, for `keep`, only onto empty cells.
pub open spec fn point_drawn(v: CanvasView, x: int, y: int, glyph: Seq<char>, keep: bool) -> Result<CanvasView> {
    if keep { plotted_safe(v, x, y, glyph) } else { plotted(v, x, y, glyph) }
}

/// The Bresenham walk from `(x, y)` with error term `err` towards `(x1, y1)`, for a line that
/// started at `(x0, y0)`: each point is drawn in turn, and the walk stops at the end point or
/// at the first point that fails. The result is the canvas reached and how the walk ended.
pub open spec fn walk_drawn(v: CanvasView, x0: int, y0: int, x1: int, y1: int, x: int, y: int, err: int,
    fuel: nat, glyph: Seq<char>, keep: bool) -> (CanvasView, Result<()>)
    decreases fuel,
{
    if fuel == 0 {
        (v, Ok(()))
    } else {
        match point_drawn(v, x, y, glyph, keep) {
            Err(e) => (v, Err(e)),
            Ok(w) => if x == x1 && y == y1 {
                (w, Ok(()))
            } else {
                let a = abs_int(x1 - x0);
                let b = abs_int(y1 - y0);
                let sx: int = if x0 < x1 { 1 } else { -1 };
                let sy: int = if y0 < y1 { 1 } else { -1 };
                let e2 = 2 * err;
                let err1 = if e2 >= -b { err - b } else { err };
                let nx = if e2 >= -b { x + sx } else { x };
                let err2 = if e2 <= a { err1 + a } else { err1 };
                let ny = if e2 <= a { y + sy } else { y };
                walk_drawn(w, x0, y0, x1, y1, nx, ny, err2, (fuel - 1) as nat, glyph, keep)
            },
        }
    }
}

/// A whole Bresenham line from `(x0, y0)` to `(x1, y1)`, both end points included.
pub open spec fn line_drawn(v: CanvasView, x0: int, y0: int, x1: int, y1: int, glyph: Seq<char>, keep: bool) -> (CanvasView, Result<()>) {
    let a = abs_int(x1 - x0);
    let b = abs_int(y1 - y0);
    walk_drawn(v, x0, y0, x1, y1, x0, y0, a - b, (a + b + 1) as nat, glyph, keep)
}

/// Coordinates for which the line's error arithmetic fits in `i64`.
pub open spec fn line_fits(x0: i64, y0: i64, x1: i64, y1: i64) -> bool {
    &&& 3 * abs_int(x1 - x0) <= i64::MAX
    &&& 3 * abs_int(y1 - y0) <= i64::MAX
}

proof fn lemma_walk_step(a: int, b: int, nx: int, ny: int, err: int)
    requires
        0 <= a,
        0 <= b,
        0 <= nx <= a,
        0 <= ny <= b,
        !(nx == a && ny == b),
        err == a * (1 + ny) - b * (1 + nx),
    ensures
        2 * err >= -b ==> nx < a,
        2 * err <= a ==> ny < b,
        err - b == a * (1 + ny) - b * (1 + (nx + 1)),
        err + a == a * (1 + (ny + 1)) - b * (1 + nx),
        err - b + a == a * (1 + (ny + 1)) - b * (1 + (nx + 1)),
{
    assert(err - b == a * (1 + ny) - b * (1 + (nx + 1))) by (nonlinear_arith)
        requires err == a * (1 + ny) - b * (1 + nx);
    assert(err + a == a * (1 + (ny + 1)) - b * (1 + nx)) by (nonlinear_arith)
        requires err == a * (1 + ny) - b * (1 + nx);
    assert(err - b + a == a * (1 + (ny + 1)) - b * (1 + (nx + 1))) by (nonlinear_arith)
        requires err == a * (1 + ny) - b * (1 + nx);
    if nx == a {
        assert(ny < b);
        assert(2 * err < -b) by (nonlinear_arith)
            requires err == a * (1 + ny) - b * (1 + nx), nx == a, 0 <= ny, ny + 1 <= b, 0 <= a;
    }
    if ny == b {
        assert(nx < a);
        assert(2 * err > a) by (nonlinear_arith)
            requires err == a * (1 + ny) - b * (1 + nx), ny == b, 0 <= nx, nx + 1 <= a, 0 <= b;
    }
}

/// Walks the Bresenham line from `(x0, y0)` to `(x1, y1)`, drawing each point.
fn walk_line(canvas: &mut Canvas, x0: i64, y0: i64, x1: i64, y1: i64, glyph: &str, keep: bool) -> (r: Result<()>)
    requires
        old(canvas).wf(),
        line_fits(x0, y0, x1, y1),
    ensures
        final(canvas).wf(),
        final(canvas)@ == line_drawn(old(canvas)@, x0 as int, y0 as int, x1 as int, y1 as int, glyph@, keep).0,
        r == line_drawn(old(canvas)@, x0 as int, y0 as int, x1 as int, y1 as int, glyph@, keep).1,
{
    let ghost a = abs_int(x1 - x0);
    let ghost b = abs_int(y1 - y0);
    let dx: i64 = if x1 >= x0 { x1 - x0 } else { x0 - x1 };
    let dy: i64 = if y1 >= y0 { -(y1 - y0) } else { -(y0 - y1) };
    let sx: i64 = if x0 < x1 { 1 } else { -1 };
    let sy: i64 = if y0 < y1 { 1 } else { -1 };
    let mut err: i64 = dx + dy;
    let mut x: i64 = x0;
    let mut y: i64 = y0;
    let ghost mut fuel: nat = (a + b + 1) as nat;
    let ghost target = line_drawn(canvas@, x0 as int, y0 as int, x1 as int, y1 as int, glyph@, keep);
    proof {
        assert(abs_int(x - x0) == 0 && abs_int(y - y0) == 0);
        assert(a * (1 + 0int) - b * (1 + 0int) == a - b) by (nonlinear_arith);
    }
    loop
        invariant
            canvas.wf(),
            a == abs_int(x1 - x0),
            b == abs_int(y1 - y0),
            dx == a,
            dy == -b,
            0 <= a,
            0 <= b,
            3 * a <= i64::MAX,
            3 * b <= i64::MAX,
            sx == (if x0 < x1 { 1int } else { -1int }),
            sy == (if y0 < y1 { 1int } else { -1int }),
            0 <= abs_int(x - x0) <= a,
            0 <= abs_int(y - y0) <= b,
            x == x0 + sx * abs_int(x - x0),
            y == y0 + sy * abs_int(y - y0),
            err == a * (1 + abs_int(y - y0)) - b * (1 + abs_int(x - x0)),
            -3 * b <= 2 * err <= 3 * a,
            fuel >= (a - abs_int(x - x0)) + (b - abs_int(y - y0)) + 1,
            target == line_drawn(old(canvas)@, x0 as int, y0 as int, x1 as int, y1 as int, glyph@, keep),
            target == walk_drawn(canvas@, x0 as int, y0 as int, x1 as int, y1 as int, x as int, y as int,
                err as int, fuel, glyph@, keep),
        decreases fuel,
    {
        let ghost before = canvas@;
        let step = if keep { plot_safe(canvas, x, y, glyph) } else { plot_force(canvas, x, y, glyph) };
        proof {
            assert(fuel > 0);
            assert(point_drawn(before, x as int, y as int, glyph@, keep) == (if keep {
                plotted_safe(before, x as int, y as int, glyph@)
            } else {
                plotted(before, x as int, y as int, glyph@)
            }));
        }
        match step {
            Ok(()) => {},
            Err(e) => {
                proof {
                    assert(point_drawn(before, x as int, y as int, glyph@, keep) == Err::<CanvasView, MermansiError>(e));
                    assert(target == (before, Err::<(), MermansiError>(e)));
                }
                return Err(e);
            },
        }
        if x == x1 && y == y1 {
            proof {
                assert(point_drawn(before, x as int, y as int, glyph@, keep) == Ok::<CanvasView, MermansiError>(canvas@));
                assert(target == (canvas@, Ok::<(), MermansiError>(())));
            }
            return Ok(());
        }
        let ghost nx = abs_int(x - x0);
        let ghost ny = abs_int(y - y0);
        proof {
            assert(x == x1 <==> nx == a) by (nonlinear_arith)
                requires x == x0 + sx * nx, a == abs_int(x1 - x0), sx == (if x0 < x1 { 1int } else { -1int }), 0 <= nx <= a;
            assert(y == y1 <==> ny == b) by (nonlinear_arith)
                requires y == y0 + sy * ny, b == abs_int(y1 - y0), sy == (if y0 < y1 { 1int } else { -1int }), 0 <= ny <= b;
            lemma_walk_step(a, b, nx, ny, err as int);
        }
        let e2 = 2 * err;
        let step_x = e2 >= dy;
        let step_y = e2 <= dx;
        if step_x {
            err = err + dy;
            x = x + sx;
        }
        if step_y {
            err = err + dx;
            y = y + sy;
        }
        proof {
            if step_x {
                assert(abs_int(x - x0) == nx + 1) by (nonlinear_arith)
                    requires x == x0 + sx * nx + sx, sx == (if x0 < x1 { 1int } else { -1int }), 0 <= nx;
                assert(x == x0 + sx * (nx + 1)) by (nonlinear_arith)
                    requires x == x0 + sx * nx + sx;
            }
            if step_y {
                assert(abs_int(y - y0) == ny + 1) by (nonlinear_arith)
                    requires y == y0 + sy * ny + sy, sy == (if y0 < y1 { 1int } else { -1int }), 0 <= ny;
                assert(y == y0 + sy * (ny + 1)) by (nonlinear_arith)
                    requires y == y0 + sy * ny + sy;
            }
            fuel = (fuel - 1) as nat;
        }
    }
}

/// Draw a line between two points using Bresenham's algorithm.
///
/// Each cell on the line receives the given glyph where the cell is still empty.
pub fn draw_line(canvas: &mut Canvas, x0: i64, y0: i64, x1: i64, y1: i64, glyph: &str) -> (r: Result<()>)
    requires
        old(canvas).wf(),
        line_fits(x0, y0, x1, y1),
    ensures
        final(canvas).wf(),
        final(canvas)@ == line_drawn(old(canvas)@, x0 as int, y0 as int, x1 as int, y1 as int, glyph@, true).0,
        r == line_drawn(old(canvas)@, x0 as int, y0 as int, x1 as int, y1 as int, glyph@, true).1,
{
    walk_line(canvas, x0, y0, x1, y1, glyph, true)
}

/// Draw a line between two points, overwriting existing cells (Bresenham).
pub fn draw_line_over(canvas: &mut Canvas, x0: i64, y0: i64, x1: i64, y1: i64, glyph: &str) -> (r: Result<()>)
    requires
        old(canvas).wf(),
        line_fits(x0, y0, x1, y1),
    ensures
        final(canvas).wf(),
        final(canvas)@ == line_drawn(old(canvas)@, x0 as int, y0 as int, x1 as int, y1 as int, glyph@, false).0,
        r == line_drawn(old(canvas)@, x0 as int, y0 as int, x1 as int, y1 as int, glyph@, false).1,
{
    walk_line(canvas, x0, y0, x1, y1, glyph, false)
}

/// The lines of `s[..n]` that a newline has ended, and the line still open.
pub open spec fn lines_state(s: Seq<char>, n: int) -> (Seq<Seq<char>>, Seq<char>)
    decreases n,
{
    if n <= 0 {
        (seq![], seq![])
    } else {
        let (done, open) = lines_state(s, n - 1);
        if s[n - 1] == '\n' {
            (done.push(strip_cr(open)), seq![])
        } else {
            (done, open.push(s[n - 1]))
        }
    }
}

/// A line with the carriage return of a `\r\n` ending removed.
pub open spec fn strip_cr(l: Seq<char>) -> Seq<char> {
    if l.len() > 0 && l.last() == '\r' { l.drop_last() } else { l }
}

/// `str::lines`: `s` split at `\n` and `\r\n`; a final line ending adds no empty line.
pub open spec fn split_lines(s: Seq<char>) -> Seq<Seq<char>> {
    let (done, open) = lines_state(s, s.len() as int);
    if open.len() > 0 { done.push(open) } else { done }
}

/// The number of bytes of `c` in UTF-8.
pub open spec fn utf8_len(c: char) -> int {
    let u = c as u32;
    if u < 0x80 { 1 } else if u < 0x800 { 2 } else if u < 0x10000 { 3 } else { 4 }
}

/// `str::get(n..)`: the text after its first `n` bytes, when `n` falls on a character boundary.
pub open spec fn skip_bytes(l: Seq<char>, n: int) -> Option<Seq<char>>
    decreases l.len(),
{
    if n == 0 {
        Some(l)
    } else if l.len() == 0 || utf8_len(l[0]) > n {
        None
    } else {
        skip_bytes(l.drop_first(), n - utf8_len(l[0]))
    }
}

/// The number of spaces that `l` starts with.
pub open spec fn leading_spaces(l: Seq<char>) -> nat
    decreases l.len(),
{
    if l.len() > 0 && l[0] == ' ' { 1 + leading_spaces(l.drop_first()) } else { 0 }
}

/// The first line at or after `i` with something besides whitespace.
pub open spec fn first_visible(ls: Seq<Seq<char>>, i: int) -> Option<int>
    decreases ls.len() - i,
{
    if i < 0 || i >= ls.len() {
        None
    } else if !all_white(ls[i]) {
        Some(i)
    } else {
        first_visible(ls, i + 1)
    }
}

/// The last line before `n` with something besides whitespace.
pub open spec fn last_visible(ls: Seq<Seq<char>>, n: int) -> Option<int>
    decreases n,
{
    if n <= 0 || n > ls.len() {
        None
    } else if !all_white(ls[n - 1]) {
        Some(n - 1)
    } else {
        last_visible(ls, n - 1)
    }
}

/// The fewest leading spaces among the visible lines `lo..n`.
pub open spec fn least_indent(ls: Seq<Seq<char>>, lo: int, n: int) -> Option<nat>
    decreases n - lo,
{
    if n <= lo {
        None
    } else {
        let rest = least_indent(ls, lo, n - 1);
        if all_white(ls[n - 1]) {
            rest
        } else {
            let here = leading_spaces(ls[n - 1]);
            match rest {
                Some(m) => Some(if m < here { m } else { here }),
                None => Some(here),
            }
        }
    }
}

/// Lines `lo..n`, each without its first `indent` bytes where that is possible, each ended
/// by a newline.
pub open spec fn dedented(ls: Seq<Seq<char>>, lo: int, n: int, indent: int) -> Seq<char>
    decreases n - lo,
{
    if n <= lo {
        seq![]
    } else {
        let l = ls[n - 1];
        dedented(ls, lo, n - 1, indent) + match skip_bytes(l, indent) {
            Some(t) => t,
            None => l,
        } + seq!['\n']
    }
}

/// A rendered chart without the blank lines around it and without the indentation its
/// visible lines share.
pub open spec fn cropped(text: Seq<char>) -> Seq<char> {
    let ls = split_lines(text);
    match first_visible(ls, 0) {
        None => seq![],
        Some(first) => {
            let last = match last_visible(ls, ls.len() as int) {
                Some(l) => l,
                None => first,
            };
            let indent = match least_indent(ls, first, last + 1) {
                Some(m) => m as int,
                None => 0,
            };
            dedented(ls, first, last + 1, indent)
        },
    }
}

pub(crate) fn split_lines_of(s: &Vec<char>) -> (r: Vec<Vec<char>>)
    ensures
        r@.map_values(|l: Vec<char>| l@) == split_lines(s@),
{
    let mut done: Vec<Vec<char>> = Vec::new();
    let mut open: Vec<char> = Vec::new();
    let mut i: usize = 0;
    while i < s.len()
        invariant
            i <= s@.len(),
            (done@.map_values(|l: Vec<char>| l@), open@) == lines_state(s@, i as int),
        decreases s@.len() - i,
    {
        let ghost before = done@.map_values(|l: Vec<char>| l@);
        if s[i] == '\n' {
            if open.len() > 0 && open[open.len() - 1] == '\r' {
                open.pop();
            }
            let line = open;
            let ghost lv = line@;
            done.push(line);
            open = Vec::new();
            proof {
                assert(done@.map_values(|l: Vec<char>| l@) =~= before.push(lv));
            }
        } else {
            open.push(s[i]);
        }
        i = i + 1;
    }
    if open.len() > 0 {
        let ghost before = done@.map_values(|l: Vec<char>| l@);
        let ghost ov = open@;
        done.push(open);
        proof {
            assert(done@.map_values(|l: Vec<char>| l@) =~= before.push(ov));
        }
    }
    done
}

fn count_leading_spaces(l: &Vec<char>) -> (r: usize)
    ensures
        r == leading_spaces(l@),
{
    let mut i: usize = 0;
    proof {
        assert(l@.skip(0) =~= l@);
    }
    while i < l.len() && l[i] == ' '
        invariant
            i <= l@.len(),
            forall|j: int| 0 <= j < i ==> l@[j] == ' ',
            leading_spaces(l@) == i + leading_spaces(l@.skip(i as int)),
        decreases l@.len() - i,
    {
        proof {
            assert(l@.skip(i as int).drop_first() =~= l@.skip(i + 1));
        }
        i = i + 1;
    }
    i
}

fn char_utf8_len(c: char) -> (r: usize)
    ensures
        r == utf8_len(c),
{
    let u = c as u32;
    if u < 0x80 { 1 } else if u < 0x800 { 2 } else if u < 0x10000 { 3 } else { 4 }
}

/// `l` without its first `n` bytes, or unchanged where `n` is not a character boundary.
fn skip_bytes_or_all(l: &Vec<char>, n: usize) -> (r: Vec<char>)
    ensures
        r@ == match skip_bytes(l@, n as int) {
            Some(t) => t,
            None => l@,
        },
{
    let mut i: usize = 0;
    let mut rest: usize = n;
    proof {
        assert(l@.skip(0) =~= l@);
    }
    while rest > 0 && i < l.len() && char_utf8_len(l[i]) <= rest
        invariant
            i <= l@.len(),
            rest <= n,
            skip_bytes(l@, n as int) == skip_bytes(l@.skip(i as int), rest as int),
        decreases l@.len() - i,
    {
        proof {
            assert(l@.skip(i as int).drop_first() =~= l@.skip(i + 1));
        }
        rest = rest - char_utf8_len(l[i]);
        i = i + 1;
    }
    if rest == 0 {
        let mut out: Vec<char> = Vec::new();
        let mut j: usize = i;
        while j < l.len()
            invariant
                i <= j <= l@.len(),
                out@ == l@.subrange(i as int, j as int),
            decreases l@.len() - j,
        {
            out.push(l[j]);
            j = j + 1;
        }
        proof {
            assert(out@ =~= l@.skip(i as int));
        }
        out
    } else {
        let mut out: Vec<char> = Vec::new();
        extend_chars(&mut out, l.as_slice());
        out
    }
}

pub(crate) fn is_white_line(t: &Vec<char>) -> (r: bool)
    ensures
        r == all_white(t@),
{
    let mut i: usize = 0;
    while i < t.len()
        invariant
            i <= t@.len(),
            forall|j: int| 0 <= j < i ==> is_white_space(#[trigger] t@[j]),
        decreases t@.len() - i,
    {
        if !char_is_whitespace(t[i]) {
            return false;
        }
        i = i + 1;
    }
    true
}

/// Render a chart canvas without unused outer rows or a shared left margin.
pub fn render_cropped_canvas(canvas: &Canvas) -> (r: String)
    requires
        canvas.wf(),
    ensures
        r@ == cropped(rendered(canvas@)),
{
    let rendered_text = canvas.render();
    let chars = chars_of(rendered_text.as_str());
    let lines = split_lines_of(&chars);
    let ghost ls = lines@.map_values(|l: Vec<char>| l@);
    let n = lines.len();
    let mut first: usize = 0;
    while first < n && is_white_line(&lines[first])
        invariant
            n == ls.len(),
            first <= n,
            ls == lines@.map_values(|l: Vec<char>| l@),
            first_visible(ls, 0) == first_visible(ls, first as int),
        decreases n - first,
    {
        first = first + 1;
    }
    if first == n {
        proof {
            assert(first_visible(ls, first as int) is None);
        }
        return String::new();
    }
    let mut last: usize = n;
    while last > 0 && is_white_line(&lines[last - 1])
        invariant
            n == ls.len(),
            last <= n,
            first < last,
            first < n,
            !all_white(ls[first as int]),
            ls == lines@.map_values(|l: Vec<char>| l@),
            last_visible(ls, n as int) == last_visible(ls, last as int),
        decreases last,
    {
        last = last - 1;
    }
    proof {
        assert(last > 0);
        assert(last_visible(ls, last as int) == Some(last - 1));
    }
    let last = last - 1;
    let mut indent: Option<usize> = None;
    let mut i: usize = first;
    while i <= last
        invariant
            n == ls.len(),
            first <= i <= last + 1,
            last < n,
            ls == lines@.map_values(|l: Vec<char>| l@),
            indent == match least_indent(ls, first as int, i as int) {
                Some(m) => Some(m as usize),
                None => None::<usize>,
            },
            least_indent(ls, first as int, i as int) matches Some(m) ==> m <= usize::MAX,
        decreases last + 1 - i,
    {
        if !is_white_line(&lines[i]) {
            let here = count_leading_spaces(&lines[i]);
            indent = match indent {
                Some(m) => Some(if m < here { m } else { here }),
                None => Some(here),
            };
        }
        i = i + 1;
    }
    let indent = match indent {
        Some(m) => m,
        None => 0,
    };
    let mut out: Vec<char> = Vec::new();
    let mut j: usize = first;
    while j <= last
        invariant
            n == ls.len(),
            first <= j <= last + 1,
            last < n,
            ls == lines@.map_values(|l: Vec<char>| l@),
            out@ == dedented(ls, first as int, j as int, indent as int),
        decreases last + 1 - j,
    {
        let piece = skip_bytes_or_all(&lines[j], indent);
        extend_chars(&mut out, piece.as_slice());
        out.push('\n');
        proof {
            assert(out@ =~= dedented(ls, first as int, j + 1, indent as int));
        }
        j = j + 1;
    }
    string_of(out.as_slice())
}

} // verus!
