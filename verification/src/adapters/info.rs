//! Info diagram terminal geometry: a small box with the heading and the `showInfo` flag.

use vstd::prelude::*;
use crate::adapters::chart_primitives::{cropped, render_cropped_canvas};
use crate::canvas::{boxed, hline, is_blank, rendered, Canvas, CanvasView, CellView, draw_box, draw_horizontal_line,
    str_display_width, text_placed, MAX_CELLS};
use crate::options::Charset;
use crate::error::{MermansiError, Result};
use crate::options::MermansiOptions;
use crate::text::unicode_str_width;

verus! {

#[verifier::external_type_specification]
#[verifier::external_body]
pub struct ExInfoDiagramRenderModel(merman_core::diagrams::info::InfoDiagramRenderModel);

/// The `show_info` flag of a parsed info diagram, if the diagram is one.
#[verifier::external_body]
pub(crate) fn parsed_show_info(parsed: &merman_core::ParsedDiagramRender) -> (r: Option<bool>)
{
    match parsed.model() {
        merman_core::diagram::RenderSemanticModel::Info(model) => Some(model.show_info),
        _ => None,
    }
}

fn ensure_dimension(context: &'static str, requested: usize, limit: usize) -> (r: Result<()>)
    ensures
        requested > limit ==> r == Err::<(), MermansiError>(MermansiError::RenderLimit { context, requested, limit }),
        requested <= limit ==> r is Ok,
{
    if requested > limit {
        return Err(MermansiError::RenderLimit { context, requested, limit });
    }
    Ok(())
}

fn write_centered(canvas: &mut Canvas, y: usize, width: usize, text: &str) -> (r: Result<()>)
    requires
        old(canvas).wf(),
    ensures
        final(canvas).wf(),
        ({
            let tw = unicode_str_width(text@) as int;
            let x = (if width >= tw { width - tw } else { 0 }) / 2;
            match text_placed(old(canvas)@, x, y as int, text@) {
                Ok(v) => r is Ok && final(canvas)@ == v,
                Err(e) => r == Err::<(), MermansiError>(e) && final(canvas)@ == old(canvas)@,
            }
        }),
{
    let x = width.saturating_sub(str_display_width(text)) / 2;
    canvas.set_text(x, y, text)
}

/// A canvas of `width` by `height` empty cells with no styles.
pub open spec fn blank_view(width: usize, height: usize) -> CanvasView {
    CanvasView {
        width,
        height,
        cells: Seq::new((width * height) as nat, |i: int| CellView::Empty),
        prefix: Seq::new((width * height) as nat, |i: int| Seq::<char>::empty()),
        suffix: Seq::new((width * height) as nat, |i: int| Seq::<char>::empty()),
    }
}

/// The state line of an info diagram.
pub open spec fn info_state(show_info: bool) -> Seq<char> {
    if show_info { "showInfo: true"@ } else { "showInfo: false"@ }
}

/// The width of the info box: the wider of its two lines plus four columns (saturating).
pub open spec fn info_width(show_info: bool) -> int {
    let a = unicode_str_width("Mermaid Info"@);
    let b = unicode_str_width(info_state(show_info));
    let widest: int = if a > b { a as int } else { b as int };
    if widest + 4 > usize::MAX { usize::MAX as int } else { widest + 4 }
}

/// The column at which `text` starts when centred in `width` columns.
pub open spec fn centered_at(width: int, text: Seq<char>) -> int {
    let tw = unicode_str_width(text) as int;
    (if width >= tw { width - tw } else { 0 }) / 2
}

/// The info box drawn on a blank canvas `width` columns wide and five rows tall: the frame,
/// the rule under the heading row, the heading `Mermaid Info` centred on row 1 and the state
/// line centred on row 3.
pub open spec fn info_drawing(show_info: bool, width: usize, charset: Charset) -> Result<CanvasView> {
    match boxed(blank_view(width, 5), 0, 0, width as int, 5, charset) {
        Err(e) => Err(e),
        Ok(framed) => match hline(framed, 2, 0, width - 1, charset) {
            Err(e) => Err(e),
            Ok(ruled) => match text_placed(ruled, centered_at(width as int, "Mermaid Info"@), 1, "Mermaid Info"@) {
                Err(e) => Err(e),
                Ok(headed) => text_placed(headed, centered_at(width as int, info_state(show_info)), 3,
                    info_state(show_info)),
            },
        },
    }
}

/// Draws the info diagram: a box titled `Mermaid Info` over the line `showInfo: true` or
/// `showInfo: false`. A box wider or taller than the options allow is refused.
pub fn render_info(show_info: bool, opts: &MermansiOptions) -> (r: Result<String>)
    ensures
        ({
            let state = if show_info { "showInfo: true"@ } else { "showInfo: false"@ };
            let a = unicode_str_width("Mermaid Info"@);
            let b = unicode_str_width(state);
            let widest: int = if a > b { a as int } else { b as int };
            let width: int = if widest + 4 > usize::MAX { usize::MAX as int } else { widest + 4 };
            &&& width > opts.max_width ==> r == Err::<String, MermansiError>(MermansiError::RenderLimit {
                context: "info columns", requested: width as usize, limit: opts.max_width })
            &&& width <= opts.max_width && opts.max_height < 5 ==> r == Err::<String, MermansiError>(
                MermansiError::RenderLimit { context: "info rows", requested: 5, limit: opts.max_height })
        }),
        info_width(show_info) <= opts.max_width && opts.max_height >= 5 && info_width(show_info) * 5 > MAX_CELLS
            ==> (r matches Err(e) && e is CanvasOverflow),
        info_width(show_info) <= opts.max_width && opts.max_height >= 5 && info_width(show_info) * 5 <= MAX_CELLS
            ==> match info_drawing(show_info, info_width(show_info) as usize, opts.charset) {
                Ok(v) => (r matches Ok(s) && s@ == cropped(rendered(v))),
                Err(e) => r == Err::<String, MermansiError>(e),
            },
{
    let header = "Mermaid Info";
    let state = if show_info { "showInfo: true" } else { "showInfo: false" };
    let header_width = str_display_width(header);
    let state_width = str_display_width(state);
    let widest = if header_width > state_width { header_width } else { state_width };
    let width = widest.saturating_add(4);
    let height: usize = 5;
    match ensure_dimension("info columns", width, opts.max_width) {
        Ok(()) => {},
        Err(e) => return Err(e),
    }
    match ensure_dimension("info rows", height, opts.max_height) {
        Ok(()) => {},
        Err(e) => return Err(e),
    }
    let mut canvas = match Canvas::new(width, height) {
        Ok(canvas) => canvas,
        Err(e) => return Err(e),
    };
    proof {
        let b = blank_view(width, height);
        assert(is_blank(canvas@, width, height));
        assert(canvas@.cells.len() == width * height);
        assert(canvas@.cells =~= b.cells);
        assert(canvas@.prefix =~= b.prefix);
        assert(canvas@.suffix =~= b.suffix);
        assert(canvas@ =~= b);
    }
    match draw_box(&mut canvas, 0, 0, width, height, opts.charset) {
        Ok(()) => {},
        Err(e) => return Err(e),
    }
    match draw_horizontal_line(&mut canvas, 2, 0, width.saturating_sub(1), opts.charset) {
        Ok(()) => {},
        Err(e) => return Err(e),
    }
    match write_centered(&mut canvas, 1, width, header) {
        Ok(()) => {},
        Err(e) => return Err(e),
    }
    match write_centered(&mut canvas, 3, width, state) {
        Ok(()) => {},
        Err(e) => return Err(e),
    }
    Ok(render_cropped_canvas(&canvas))
}

} // verus!
