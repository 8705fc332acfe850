//! Packet diagram terminal geometry.
//!
//! Every 32-bit word is a closed row whose field widths are proportional to the bit range.
//! Repeated contiguous labels share a legend entry, so fields spanning word boundaries stay
//! explicit.

use vstd::prelude::*;
use crate::adapters::box_geometry::wrap_display;
use crate::adapters::chart_primitives::render_cropped_canvas;
use crate::adapters::json::{decimal_text, signed_decimal_text};
use crate::ansi::sanitize_label_text;
use crate::canvas::{draw_box, draw_vertical_line, str_display_width, Canvas};
use crate::error::{MermansiError, Result};
use crate::options::MermansiOptions;
use crate::text::{chars_of, trim_text};

verus! {

#[verifier::external_type_specification]
#[verifier::external_body]
pub struct ExPacketDiagramRenderModel(merman_core::diagrams::packet::PacketDiagramRenderModel);

/// Bits in a word.
pub const WORD_BITS: i64 = 32;

/// Most fields drawn.
pub const MAX_PACKET_FIELDS: usize = 4_096;

/// Most words drawn.
pub const MAX_PACKET_ROWS: usize = 4_096;

/// Rows of a word's box, and rows between boxes.
pub const ROW_HEIGHT: usize = 4;
pub const ROW_GAP: usize = 1;

/// A field of a word: its label and its first and last bit.
pub struct PacketBlock {
    pub label: String,
    pub start: i64,
    pub end: i64,
}

/// A packet diagram: its title and its words, each a row of fields.
pub struct PacketChart {
    pub title: Option<String>,
    pub rows: Vec<Vec<PacketBlock>>,
}

/// A legend entry: a label and the bit range it covers (across words where a field
/// continues).
struct Field {
    label: String,
    start: i64,
    end: i64,
}

/// The packet model of a parsed diagram, if it is one.
#[verifier::external_body]
pub(crate) fn parsed_packet(parsed: &merman_core::ParsedDiagramRender)
    -> (r: Option<&merman_core::diagrams::packet::PacketDiagramRenderModel>)
{
    match parsed.model() {
        merman_core::diagram::RenderSemanticModel::Packet(model) => Some(model),
        _ => None,
    }
}

/// The title and the words of a packet model, field for field.
#[verifier::external_body]
fn model_parts(model: &merman_core::diagrams::packet::PacketDiagramRenderModel) -> (r: PacketChart)
{
    PacketChart {
        title: model.title.clone(),
        rows: model.packet.iter().map(|row| row.iter().map(|block| PacketBlock {
            label: block.label.clone(), start: block.start, end: block.end,
        }).collect()).collect(),
    }
}

/// The library's packet chart of a parsed packet model.
pub(crate) fn diagram_of(model: &merman_core::diagrams::packet::PacketDiagramRenderModel) -> (r: PacketChart)
{
    model_parts(model)
}

/// The number of fields of the first `n` words.
pub open spec fn field_total(rows: Seq<Vec<PacketBlock>>, n: int) -> int
    decreases n,
{
    if n <= 0 { 0 } else { field_total(rows, n - 1) + rows[n - 1]@.len() }
}

/// `value`, or `usize::MAX` where it does not fit.
pub open spec fn capped(value: int) -> usize {
    if value > usize::MAX { usize::MAX } else { value as usize }
}

/// The first bit of word `index`: the word holding its first field, else `index` words in.
pub open spec fn word_base_of(index: int, row: Seq<PacketBlock>) -> int {
    if row.len() == 0 { index * 32 } else { row[0].start - row[0].start % 32 }
}

/// Whether a field lies inside its word.
pub open spec fn in_word(block: PacketBlock, base: int) -> bool {
    base <= block.start && block.start <= block.end && block.end <= base + 31
}

/// Whether every field lies inside its word.
pub open spec fn fields_in_words(rows: Seq<Vec<PacketBlock>>) -> bool {
    forall|i: int, j: int| 0 <= i < rows.len() && 0 <= j < rows[i]@.len()
        ==> in_word(#[trigger] rows[i]@[j], word_base_of(i, rows[i]@))
}

/// Whether `e` is the packet family's geometry error whose message starts with `prefix`.
pub open spec fn packet_error_with(e: MermansiError, prefix: Seq<char>) -> bool {
    e matches MermansiError::GeometryLayout { family, message } && family == "packet"
        && message@.len() >= prefix.len() && message@.subrange(0, prefix.len() as int) == prefix
}

fn ensure_limit(context: &'static str, requested: usize, limit: usize) -> (r: Result<()>)
    ensures
        requested > limit ==> r == Err::<(), MermansiError>(MermansiError::RenderLimit { context, requested, limit }),
        requested <= limit ==> r is Ok,
{
    if requested > limit {
        return Err(MermansiError::RenderLimit { context, requested, limit });
    }
    Ok(())
}

/// The first bit of the word holding `start`.
fn word_of(start: i64) -> (r: i64)
    ensures
        r == start - start % 32,
{
    let shifted: u128 = (start as i128 - i64::MIN as i128) as u128;
    let rem: u128 = shifted % 32;
    proof {
        let k: int = 0x400_0000_0000_0000int;
        assert(shifted == start + 32 * k);
        vstd::arithmetic::div_mod::lemma_mod_multiples_vanish(k, start as int, 32);
        assert((32 * k + start) % 32 == start % 32);
    }
    (start as i128 - rem as i128) as i64
}

/// The first bit of word `index`.
fn word_base(index: usize, row: &Vec<PacketBlock>) -> (r: i64)
    requires
        index <= MAX_PACKET_ROWS,
    ensures
        r == word_base_of(index as int, row@),
{
    if row.len() == 0 {
        index as i64 * WORD_BITS
    } else {
        word_of(row[0].start)
    }
}

/// The refusal of a field outside its word.
fn layout_error(block: &PacketBlock) -> (r: MermansiError)
    ensures
        packet_error_with(r, "field range is outside its 32-bit word: "@),
{
    let mut message = String::from_str("field range is outside its 32-bit word: ");
    let ghost head = message@;
    message.append(signed_decimal_text(block.start).as_str());
    message.append("..");
    message.append(signed_decimal_text(block.end).as_str());
    proof {
        reveal_strlit("field range is outside its 32-bit word: ");
        assert(message@.subrange(0, head.len() as int) =~= head);
    }
    MermansiError::GeometryLayout { family: "packet", message }
}

/// Refuses a field outside its word.
fn validate_segment(block: &PacketBlock, base: i64) -> (r: Result<()>)
    ensures
        in_word(*block, base as int) ==> r is Ok,
        !in_word(*block, base as int) ==> (r matches Err(e) && packet_error_with(e, "field range is outside its 32-bit word: "@)),
{
    let word_end = if base > i64::MAX - 31 { i64::MAX } else { base + 31 };
    if block.start < base || block.end < block.start || block.end > word_end {
        return Err(layout_error(block));
    }
    Ok(())
}

/// The legend fields and, per word, the legend entry of each of its fields: a field that
/// continues the previous one (same label, from the next bit, across a word boundary) joins
/// its entry. A field outside its word is refused.
fn collect_fields(chart: &PacketChart) -> (r: Result<(Vec<Field>, Vec<Vec<usize>>)>)
    requires
        chart.rows@.len() <= MAX_PACKET_ROWS,
    ensures
        fields_in_words(chart.rows@) ==> (r matches Ok((fields, indices)) && indices@.len() == chart.rows@.len()
            && (forall|i: int| 0 <= i < indices@.len() ==> (#[trigger] indices@[i])@.len() == chart.rows@[i]@.len())
            && (forall|i: int, j: int| 0 <= i < indices@.len() && 0 <= j < indices@[i]@.len()
                ==> #[trigger] indices@[i]@[j] < fields@.len())),
        !fields_in_words(chart.rows@) ==> (r matches Err(e) && packet_error_with(e, "field range is outside its 32-bit word: "@)),
{
    let mut fields: Vec<Field> = Vec::new();
    let mut indices: Vec<Vec<usize>> = Vec::new();
    let mut i: usize = 0;
    while i < chart.rows.len()
        invariant
            i <= chart.rows@.len(),
            chart.rows@.len() <= MAX_PACKET_ROWS,
            indices@.len() == i,
            forall|a: int| 0 <= a < indices@.len() ==> (#[trigger] indices@[a])@.len() == chart.rows@[a]@.len(),
            forall|a: int, b: int| 0 <= a < indices@.len() && 0 <= b < indices@[a]@.len()
                ==> #[trigger] indices@[a]@[b] < fields@.len(),
            forall|a: int, b: int| 0 <= a < i && 0 <= b < chart.rows@[a]@.len()
                ==> in_word(#[trigger] chart.rows@[a]@[b], word_base_of(a, chart.rows@[a]@)),
        decreases chart.rows@.len() - i,
    {
        let row = &chart.rows[i];
        let base = word_base(i, row);
        let mut row_indices: Vec<usize> = Vec::new();
        let mut j: usize = 0;
        while j < row.len()
            invariant
                j <= row@.len(),
                i < chart.rows@.len(),
                *row == chart.rows@[i as int],
                forall|a: int, b: int| 0 <= a < i && 0 <= b < chart.rows@[a]@.len()
                    ==> in_word(#[trigger] chart.rows@[a]@[b], word_base_of(a, chart.rows@[a]@)),
                row_indices@.len() == j,
                base == word_base_of(i as int, row@),
                forall|b: int| 0 <= b < row_indices@.len() ==> #[trigger] row_indices@[b] < fields@.len(),
                forall|a: int, b: int| 0 <= a < indices@.len() && 0 <= b < indices@[a]@.len()
                    ==> #[trigger] indices@[a]@[b] < fields@.len(),
                forall|b: int| 0 <= b < j ==> in_word(#[trigger] row@[b], base as int),
            decreases row@.len() - j,
        {
            let block = &row[j];
            match validate_segment(block, base) {
                Ok(()) => {},
                Err(e) => {
                    proof {
                        assert(!in_word(chart.rows@[i as int]@[j as int], word_base_of(i as int, chart.rows@[i as int]@)));
                    }
                    return Err(e);
                },
            }
            let label = sanitize_label_text(block.label.as_str());
            let joins = if fields.len() > 0 {
                let last = fields.len() - 1;
                crate::adapters::box_geometry::str_eq(fields[last].label.as_str(), label.as_str())
                    && fields[last].end < i64::MAX && fields[last].end + 1 == block.start
                    && word_of(fields[last].end) + 31 == fields[last].end && word_of(block.start) == block.start
            } else {
                false
            };
            if joins {
                let last = fields.len() - 1;
                let mut field = fields.remove(last);
                field.end = block.end;
                fields.push(field);
            } else {
                fields.push(Field { label, start: block.start, end: block.end });
            }
            row_indices.push(fields.len() - 1);
            j = j + 1;
        }
        indices.push(row_indices);
        i = i + 1;
    }
    Ok((fields, indices))
}

/// The column of the boundary before bit `bit` of a word drawn in a box of `box_width`
/// columns from `box_x`: the word's 32 bits spread over the box, from its first column to its
/// last, rounded down.
pub open spec fn bit_column(box_x: int, box_width: int, bit: int) -> int {
    let b = if bit < 32 { bit } else { 32 };
    box_x + b * (box_width - 1) / 32
}

/// Law: a word spans its whole box: bit 0 is at the box's first column, bit 32 (and anything
/// past it) at its last, bit 16 at its middle, and a later bit never lies left of an earlier
/// one.
pub proof fn lemma_bit_columns_span_box(box_x: int, box_width: int, bit: int, later: int)
    requires
        box_width >= 1,
        0 <= bit <= later,
    ensures
        bit_column(box_x, box_width, 0) == box_x,
        bit_column(box_x, box_width, 32) == box_x + box_width - 1,
        later >= 32 ==> bit_column(box_x, box_width, later) == box_x + box_width - 1,
        bit_column(box_x, box_width, 16) == box_x + (box_width - 1) / 2,
        bit_column(box_x, box_width, bit) <= bit_column(box_x, box_width, later),
        box_x <= bit_column(box_x, box_width, bit) <= box_x + box_width - 1,
{
    let w = box_width - 1;
    vstd::arithmetic::div_mod::lemma_div_multiples_vanish(w, 32);
    vstd::arithmetic::mul::lemma_mul_is_commutative(32, w);
    vstd::arithmetic::div_mod::lemma_div_multiples_vanish(w, 16);
    vstd::arithmetic::mul::lemma_mul_is_commutative(16, w);
    vstd::arithmetic::div_mod::lemma_div_denominator(16 * w, 16, 2);
    let b = if bit < 32 { bit } else { 32 };
    let c = if later < 32 { later } else { 32 };
    vstd::arithmetic::mul::lemma_mul_inequality(b, c, w);
    vstd::arithmetic::div_mod::lemma_div_is_ordered(b * w, c * w, 32);
    vstd::arithmetic::mul::lemma_mul_inequality(c, 32, w);
    vstd::arithmetic::div_mod::lemma_div_is_ordered(c * w, 32 * w, 32);
    vstd::arithmetic::mul::lemma_mul_inequality(0, b, w);
    vstd::arithmetic::div_mod::lemma_div_is_ordered(0, b * w, 32);
}

/// Column of the boundary before bit `bit` (at most 32) in a box of `box_width` from `box_x`.
fn bit_boundary(box_x: usize, box_width: usize, bit: usize) -> (r: usize)
    requires
        1 <= box_width <= 100,
        box_x <= 100,
    ensures
        box_x <= r < box_x + box_width,
        r == bit_column(box_x as int, box_width as int, bit as int),
{
    let bit = if bit < 32 { bit } else { 32 };
    assert(bit * (box_width - 1) / 32 <= box_width - 1) by (nonlinear_arith)
        requires
            bit <= 32,
            1 <= box_width,
    ;
    box_x + bit * (box_width - 1) / 32
}

/// The sanitized, trimmed value, or `(unnamed)` where that is empty.
fn nonempty(value: &str) -> (r: String)
{
    let clean = trim_text(sanitize_label_text(value).as_str());
    if clean.as_str().is_empty() {
        String::from_str("(unnamed)")
    } else {
        clean
    }
}

/// Writes the sanitized `text` centred in the `width` columns from `left` on row `y`; text
/// wider than that is refused.
fn write_centered(canvas: &mut Canvas, left: usize, y: usize, width: usize, text: &str) -> (r: Result<()>)
    requires
        old(canvas).wf(),
        left <= 1_000,
        width <= 1_000,
    ensures
        final(canvas).wf(),
        final(canvas)@.width == old(canvas)@.width,
        final(canvas)@.height == old(canvas)@.height,
{
    let clean = sanitize_label_text(text);
    let text_width = str_display_width(clean.as_str());
    if text_width > width {
        return Err(MermansiError::GeometryLayout {
            family: "packet",
            message: String::from_str("packet cell text exceeds its assigned width"),
        });
    }
    canvas.set_text(left + (width - text_width) / 2, y, clean.as_str())
}

/// Whether the card of an empty chart does not fit: fewer than 16 columns (of at most 32) or
/// fewer than 3 rows (of at most 5).
pub open spec fn empty_card_refused(opts: MermansiOptions) -> bool {
    (if opts.max_width < 32 { opts.max_width } else { 32 }) < 16 || (if opts.max_height < 5 { opts.max_height } else { 5 }) < 3
}

/// The limit reported for a card that does not fit.
pub open spec fn empty_card_limit(opts: MermansiOptions) -> usize {
    let width = if opts.max_width < 32 { opts.max_width } else { 32 };
    let height = if opts.max_height < 5 { opts.max_height } else { 5 };
    if width < height { width } else { height }
}

/// The card of a chart without words: its title (or `empty packet`) in a box.
fn render_empty_packet(chart: &PacketChart, opts: &MermansiOptions) -> (r: Result<String>)
    ensures
        empty_card_refused(*opts) ==> r == Err::<String, MermansiError>(MermansiError::RenderLimit {
            context: "packet empty card", requested: 16, limit: empty_card_limit(*opts) }),
{
    let width = if opts.max_width < 32 { opts.max_width } else { 32 };
    let height = if opts.max_height < 5 { opts.max_height } else { 5 };
    if width < 16 || height < 3 {
        let limit = if width < height { width } else { height };
        return Err(MermansiError::RenderLimit { context: "packet empty card", requested: 16, limit });
    }
    let mut canvas = match Canvas::new(width, height) {
        Ok(c) => c,
        Err(e) => return Err(e),
    };
    match draw_box(&mut canvas, 0, 0, width, 3, opts.charset) {
        Ok(()) => {},
        Err(e) => return Err(e),
    }
    let label = match &chart.title {
        Some(t) => nonempty(t.as_str()),
        None => nonempty("empty packet"),
    };
    match write_centered(&mut canvas, 1, 1, width - 2, label.as_str()) {
        Ok(()) => {},
        Err(e) => return Err(e),
    }
    Ok(render_cropped_canvas(&canvas))
}

/// The decimal text of `value` padded on the left with spaces to `width` columns.
fn right_aligned(value: i64, width: usize) -> (r: String)
{
    let digits = signed_decimal_text(value);
    let count = chars_of(digits.as_str()).len();
    let mut text = String::new();
    let mut k: usize = count;
    while k < width
        invariant
            count <= k <= width || k == count,
        decreases width - k,
    {
        text.append(" ");
        k = k + 1;
    }
    text.append(digits.as_str());
    text
}

/// Draws a packet diagram: the title, the bit ruler, one boxed row per 32-bit word with its
/// first bit, each field a cell proportional to its bits holding its label (or legend number)
/// and range, and the legend of fields below, a field continued across words listed once.
///
/// Too many words or fields are refused first; a chart without words is drawn as a card; a
/// field outside its word is refused; the chart needs columns for the word bases and 35 more.
pub fn render_packet(chart: &PacketChart, opts: &MermansiOptions) -> (r: Result<String>)
    ensures
        chart.rows@.len() > MAX_PACKET_ROWS ==> r == Err::<String, MermansiError>(MermansiError::RenderLimit {
            context: "packet rows", requested: chart.rows@.len() as usize, limit: MAX_PACKET_ROWS }),
        chart.rows@.len() <= MAX_PACKET_ROWS && capped(field_total(chart.rows@, chart.rows@.len() as int)) > MAX_PACKET_FIELDS
            ==> r == Err::<String, MermansiError>(MermansiError::RenderLimit { context: "packet fields",
                requested: capped(field_total(chart.rows@, chart.rows@.len() as int)), limit: MAX_PACKET_FIELDS }),
        chart.rows@.len() == 0 && empty_card_refused(*opts) ==> r == Err::<String, MermansiError>(
            MermansiError::RenderLimit { context: "packet empty card", requested: 16, limit: empty_card_limit(*opts) }),
        0 < chart.rows@.len() <= MAX_PACKET_ROWS
            && capped(field_total(chart.rows@, chart.rows@.len() as int)) <= MAX_PACKET_FIELDS
            && !fields_in_words(chart.rows@)
            ==> (r matches Err(e) && packet_error_with(e, "field range is outside its 32-bit word: "@)),
{
    match ensure_limit("packet rows", chart.rows.len(), MAX_PACKET_ROWS) {
        Ok(()) => {},
        Err(e) => return Err(e),
    }
    let mut segments: usize = 0;
    let mut i: usize = 0;
    while i < chart.rows.len()
        invariant
            i <= chart.rows@.len(),
            segments == capped(field_total(chart.rows@, i as int)),
            field_total(chart.rows@, i as int) >= 0,
        decreases chart.rows@.len() - i,
    {
        segments = segments.saturating_add(chart.rows[i].len());
        i = i + 1;
    }
    match ensure_limit("packet fields", segments, MAX_PACKET_FIELDS) {
        Ok(()) => {},
        Err(e) => return Err(e),
    }
    if chart.rows.len() == 0 {
        return render_empty_packet(chart, opts);
    }
    let (fields, field_indices) = match collect_fields(chart) {
        Ok(collected) => collected,
        Err(e) => return Err(e),
    };
    let rows = &chart.rows;
    let count = rows.len();
    let mut bases: Vec<i64> = Vec::new();
    let mut widest_base: usize = 2;
    let mut i: usize = 0;
    while i < count
        invariant
            i <= count,
            count == rows@.len(),
            count <= MAX_PACKET_ROWS,
            bases@.len() == i,
            2 <= widest_base <= 20,
            forall|a: int| 0 <= a < i ==> #[trigger] bases@[a] == word_base_of(a, rows@[a]@),
        decreases count - i,
    {
        let base = word_base(i, &rows[i]);
        let digits = chars_of(signed_decimal_text(base).as_str()).len();
        if digits > widest_base && digits <= 20 {
            widest_base = digits;
        }
        bases.push(base);
        i = i + 1;
    }
    let prefix_width = widest_base + 2;
    let minimum_width = prefix_width + 35;
    if opts.max_width < minimum_width {
        return Err(MermansiError::RenderLimit { context: "packet columns", requested: minimum_width, limit: opts.max_width });
    }
    let width: usize = if opts.max_width < 100 { opts.max_width } else { 100 };
    let box_x = prefix_width;
    let box_width = width - box_x;
    let legend_width = if width - 2 < 1 { 1 } else { width - 2 };
    let mut legend: Vec<String> = Vec::new();
    let mut f: usize = 0;
    while f < fields.len()
        invariant
            f <= fields@.len(),
        decreases fields@.len() - f,
    {
        let field = &fields[f];
        let mut text = String::from_str("[");
        text.append(decimal_text(f + 1).as_str());
        text.append("] ");
        text.append(nonempty(field.label.as_str()).as_str());
        text.append("  ");
        text.append(signed_decimal_text(field.start).as_str());
        text.append("..");
        text.append(signed_decimal_text(field.end).as_str());
        text.append("  (");
        let span: i128 = field.end as i128 - field.start as i128 + 1;
        let bits: i64 = if span > i64::MAX as i128 { i64::MAX } else if span < i64::MIN as i128 { i64::MIN } else { span as i64 };
        text.append(signed_decimal_text(bits).as_str());
        text.append(" bits)");
        let lines = wrap_display(text.as_str(), legend_width);
        let mut l: usize = 0;
        while l < lines.len()
            invariant
                l <= lines@.len(),
            decreases lines@.len() - l,
        {
            legend.push(lines[l].clone());
            l = l + 1;
        }
        f = f + 1;
    }
    let first_row_y: usize = 3;
    let rows_height = count * (ROW_HEIGHT + ROW_GAP) - ROW_GAP;
    let legend_y = first_row_y + rows_height + 1;
    let needed = legend_y.saturating_add(legend.len());
    let height = if needed < 7 { 7 } else { needed };
    if opts.max_height < height {
        return Err(MermansiError::RenderLimit { context: "packet rows", requested: height, limit: opts.max_height });
    }
    let mut canvas = match Canvas::new(width, height) {
        Ok(c) => c,
        Err(e) => return Err(e),
    };
    let title = match &chart.title {
        Some(t) => {
            let clean = sanitize_label_text(t.as_str());
            if trim_text(clean.as_str()).as_str().is_empty() { String::from_str("Packet diagram") } else { clean }
        },
        None => String::from_str("Packet diagram"),
    };
    match write_centered(&mut canvas, box_x, 0, box_width, title.as_str()) {
        Ok(()) => {},
        Err(e) => return Err(e),
    }
    let ruler: [usize; 5] = [0, 8, 16, 24, 31];
    let mut q: usize = 0;
    while q < 5
        invariant
            canvas.wf(),
            q <= 5,
            0 < chart.rows@.len() <= MAX_PACKET_ROWS,
            capped(field_total(chart.rows@, chart.rows@.len() as int)) <= MAX_PACKET_FIELDS,
            fields_in_words(chart.rows@),

            box_x <= 22,
            1 <= box_width <= 100,
            box_x + box_width == width,
            width <= 100,
        decreases 5 - q,
    {
        let label = decimal_text(ruler[q]);
        let label_width = str_display_width(label.as_str());
        let centred = bit_boundary(box_x, box_width, ruler[q]).saturating_sub(label_width / 2);
        let last = width.saturating_sub(label_width);
        let x = if centred < last { centred } else { last };
        match canvas.set_text(x, 2, label.as_str()) {
            Ok(()) => {},
            Err(e) => return Err(e),
        }
        q = q + 1;
    }
    let mut i: usize = 0;
    while i < count
        invariant
            canvas.wf(),
            i <= count,
            0 < chart.rows@.len() <= MAX_PACKET_ROWS,
            capped(field_total(chart.rows@, chart.rows@.len() as int)) <= MAX_PACKET_FIELDS,
            fields_in_words(chart.rows@),

            count == rows@.len(),
            count <= MAX_PACKET_ROWS,
            bases@.len() == count,
            field_indices@.len() == count,
            forall|a: int| 0 <= a < field_indices@.len() ==> (#[trigger] field_indices@[a])@.len() == rows@[a]@.len(),
            forall|a: int, b: int| 0 <= a < field_indices@.len() && 0 <= b < field_indices@[a]@.len()
                ==> #[trigger] field_indices@[a]@[b] < fields@.len(),
            forall|a: int| 0 <= a < count ==> #[trigger] bases@[a] == word_base_of(a, rows@[a]@),
            fields_in_words(rows@),
            box_x <= 22,
            18 <= box_width <= 100,
            first_row_y == 3,
        decreases count - i,
    {
        let row = &rows[i];
        let y = first_row_y + i * (ROW_HEIGHT + ROW_GAP);
        let base = bases[i];
        let mut prefix = right_aligned(base, widest_base);
        prefix.append(":");
        match canvas.set_text(0, y + 1, prefix.as_str()) {
            Ok(()) => {},
            Err(e) => return Err(e),
        }
        match draw_box(&mut canvas, box_x, y, box_width, ROW_HEIGHT, opts.charset) {
            Ok(()) => {},
            Err(e) => return Err(e),
        }
        let mut j: usize = 0;
        while j < row.len()
            invariant
                canvas.wf(),
                j <= row@.len(),
                0 < chart.rows@.len() <= MAX_PACKET_ROWS,
                capped(field_total(chart.rows@, chart.rows@.len() as int)) <= MAX_PACKET_FIELDS,
                fields_in_words(chart.rows@),

                row@ == rows@[i as int]@,
                0 <= i < count,
                count == rows@.len(),
                count <= MAX_PACKET_ROWS,
                field_indices@.len() == count,
                (field_indices@[i as int])@.len() == row@.len(),
                forall|a: int, b: int| 0 <= a < field_indices@.len() && 0 <= b < field_indices@[a]@.len()
                    ==> #[trigger] field_indices@[a]@[b] < fields@.len(),
                base == word_base_of(i as int, row@),
                fields_in_words(rows@),
                box_x <= 22,
                18 <= box_width <= 100,
                y == 3 + i * 5,
                decreases row@.len() - j,
        {
            let block = &row[j];
            assert(in_word(rows@[i as int]@[j as int], word_base_of(i as int, rows@[i as int]@)));
            let start = (block.start - base) as usize;
            let end = (block.end - base + 1) as usize;
            let left = bit_boundary(box_x, box_width, start);
            let right = bit_boundary(box_x, box_width, end);
            if start > 0 {
                match draw_vertical_line(&mut canvas, left, y, y + ROW_HEIGHT - 1, opts.charset) {
                    Ok(()) => {},
                    Err(e) => return Err(e),
                }
            }
            if end < 32 {
                match draw_vertical_line(&mut canvas, right, y, y + ROW_HEIGHT - 1, opts.charset) {
                    Ok(()) => {},
                    Err(e) => return Err(e),
                }
            }
            let interior_left = left + 1;
            let interior_width = right.saturating_sub(interior_left);
            if interior_width > 0 {
                let field_number = field_indices[i][j].saturating_add(1);
                let display_label = nonempty(sanitize_label_text(block.label.as_str()).as_str());
                let visible = if str_display_width(display_label.as_str()) <= interior_width {
                    display_label
                } else {
                    let mut short = String::from_str("[");
                    short.append(decimal_text(field_number).as_str());
                    short.append("]");
                    short
                };
                match write_centered(&mut canvas, interior_left, y + 1, interior_width, visible.as_str()) {
                    Ok(()) => {},
                    Err(e) => return Err(e),
                }
                let mut range = signed_decimal_text(block.start);
                range.append("..");
                range.append(signed_decimal_text(block.end).as_str());
                let shown = if str_display_width(range.as_str()) <= interior_width {
                    range
                } else {
                    decimal_text(field_number)
                };
                match write_centered(&mut canvas, interior_left, y + 2, interior_width, shown.as_str()) {
                    Ok(()) => {},
                    Err(e) => return Err(e),
                }
            }
            j = j + 1;
        }
        i = i + 1;
    }
    let mut d: usize = 0;
    while d < legend.len()
        invariant
            canvas.wf(),
            d <= legend@.len(),
            0 < chart.rows@.len() <= MAX_PACKET_ROWS,
            capped(field_total(chart.rows@, chart.rows@.len() as int)) <= MAX_PACKET_FIELDS,
            fields_in_words(chart.rows@),

        decreases legend@.len() - d,
    {
        match canvas.set_text(1, legend_y.saturating_add(d), legend[d].as_str()) {
            Ok(()) => {},
            Err(e) => return Err(e),
        }
        d = d + 1;
    }
    Ok(render_cropped_canvas(&canvas))
}

} // verus!
