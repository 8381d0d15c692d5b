//! Centred draw positions for fitted lines.

use crate::fit::Row;
use crate::fit::ScaleResult;
use crate::metrics::GlyphMetrics;
use crate::scale::Scale;
use vstd::arithmetic::div_mod::lemma_fundamental_div_mod;
use vstd::arithmetic::div_mod::lemma_mod_bound;
use vstd::prelude::*;

verus! {

/// A colour with its opacity.
#[derive(Clone, Copy, Debug, PartialEq, Eq, Structural)]
pub struct Color {
    pub red: u8,
    pub green: u8,
    pub blue: u8,
    pub alpha: u8,
}

/// One line of text to draw: its characters, the pixel at which its top
/// left corner lies, its scale and its colour.
#[derive(Debug)]
pub struct DrawInstruction {
    pub text: String,
    pub x: i32,
    pub y: i32,
    pub scale: Scale,
    pub color: Color,
}

/// The quotient of `n` by a positive `d`, rounded toward zero.
pub open spec fn div_toward_zero(n: int, d: int) -> int {
    if n >= 0 {
        n / d
    } else {
        -((-n) / d)
    }
}

/// The pixel coordinate nearest to `v`.
pub open spec fn to_pixel(v: int) -> i32 {
    if v < i32::MIN {
        i32::MIN
    } else if v > i32::MAX {
        i32::MAX
    } else {
        v as i32
    }
}

/// Half of what is left of `room` pixels beside `size` scaled units, in
/// whole pixels.
pub open spec fn centred(metrics: GlyphMetrics, room: u32, size: int) -> int {
    div_toward_zero(metrics.extent(room) - size, 2 * metrics.units_per_pixel())
}

/// The height of a line at a scale, in scaled units: ascent less descent
/// plus line gap, times the scale.
pub open spec fn line_height(metrics: GlyphMetrics, steps: u32) -> int {
    metrics.vertical().line_height() * steps
}

/// The height of a block of lines: the sum of the heights of its lines.
pub open spec fn block_height(metrics: GlyphMetrics, rows: Seq<Row>) -> int
    decreases rows.len(),
{
    if rows.len() == 0 {
        0
    } else {
        block_height(metrics, rows.drop_last()) + line_height(metrics, rows.last().steps)
    }
}

/// The left edge of a line that is centred in the canvas.
pub open spec fn line_x(metrics: GlyphMetrics, row: Row, canvas_width: u32) -> i32 {
    to_pixel(centred(metrics, canvas_width, metrics.units(row.text) * row.steps))
}

/// The top edge of line `i` of a block that is centred in the canvas: the
/// top of the block, plus the heights of the lines above, plus the line's
/// own offset.
pub open spec fn line_y(metrics: GlyphMetrics, rows: Seq<Row>, i: int, canvas_height: u32) -> i32 {
    to_pixel(
        to_pixel(
            centred(
                metrics,
                canvas_height,
                block_height(metrics, rows) - 2 * block_height(metrics, rows.take(i)),
            ),
        ) + rows[i].offset,
    )
}

/// What draws row `i` of a block of rows, centred in a canvas.
pub open spec fn draws_row(
    metrics: GlyphMetrics,
    rows: Seq<Row>,
    i: int,
    canvas_width: u32,
    canvas_height: u32,
    color: Color,
    drawn: DrawInstruction,
) -> bool {
    &&& drawn.text@ == rows[i].text
    &&& drawn.scale@ == rows[i].steps
    &&& drawn.color == color
    &&& drawn.x == line_x(metrics, rows[i], canvas_width)
    &&& drawn.y == line_y(metrics, rows, i, canvas_height)
}

/// What makes `out` the placement of a block of rows in a canvas: one
/// instruction for each row, in order, that draws it.
pub open spec fn is_placement(
    metrics: GlyphMetrics,
    rows: Seq<Row>,
    canvas_width: u32,
    canvas_height: u32,
    color: Color,
    out: Seq<DrawInstruction>,
) -> bool {
    &&& out.len() == rows.len()
    &&& forall|i: int|
        0 <= i < out.len() ==> draws_row(
            metrics,
            rows,
            i,
            canvas_width,
            canvas_height,
            color,
            #[trigger] out[i],
        )
}

/// The characters of a sequence of instructions, one after the other.
pub open spec fn drawn_text(out: Seq<DrawInstruction>) -> Seq<char> {
    out.map_values(|d: DrawInstruction| d.text@).flatten()
}

/// A placement draws the characters of its rows, in order.
pub proof fn lemma_placement_keeps_text(
    metrics: GlyphMetrics,
    rows: Seq<Row>,
    canvas_width: u32,
    canvas_height: u32,
    color: Color,
    out: Seq<DrawInstruction>,
)
    requires
        is_placement(metrics, rows, canvas_width, canvas_height, color, out),
    ensures
        drawn_text(out) == crate::fit::rows_text(rows),
{
    assert(out.map_values(|d: DrawInstruction| d.text@) =~= rows.map_values(|r: Row| r.text));
}

/// What fits in the room is centred within it: it starts at or right of
/// the room's edge, and the space to its right exceeds the space to its
/// left by less than two pixels.
pub proof fn lemma_centred_balanced(metrics: GlyphMetrics, room: u32, size: int)
    requires
        metrics.wf(),
        0 <= size <= metrics.extent(room),
    ensures
        0 <= centred(metrics, room, size),
        0 <= (metrics.extent(room) - size) - 2 * (centred(metrics, room, size)
            * metrics.units_per_pixel()) < 2 * metrics.units_per_pixel(),
{
    let free = metrics.extent(room) - size;
    let d = 2 * metrics.units_per_pixel();
    assert(d > 0);
    lemma_fundamental_div_mod(free, d);
    lemma_mod_bound(free, d);
    let q = free / d;
    assert(q >= 0) by (nonlinear_arith)
        requires
            free == d * q + free % d,
            0 <= free % d < d,
            free >= 0,
            d > 0,
    ;
    assert(2 * (q * metrics.units_per_pixel()) == d * q) by (nonlinear_arith)
        requires
            d == 2 * metrics.units_per_pixel(),
    ;
}

/// A line is less than 0x18000 design units high, at less than 2^32 steps.
proof fn lemma_line_height_bound(metrics: GlyphMetrics, steps: u32)
    requires
        metrics.wf(),
    ensures
        -0x8000_0000_0000 <= line_height(metrics, steps) <= 0x1_8000_0000_0000,
{
    let h = metrics.vertical().line_height();
    let s = steps as int;
    assert(-0x8000 <= h <= 0x1_8000);
    assert(-0x8000_0000_0000 <= h * s <= 0x1_8000_0000_0000) by (nonlinear_arith)
        requires
            -0x8000 <= h <= 0x1_8000,
            0 <= s <= 0xffff_ffff,
    ;
}

/// Rounds a quotient toward zero.
fn divide_toward_zero(n: i128, d: u128) -> (r: i128)
    requires
        d > 0,
        n > i128::MIN,
    ensures
        r == div_toward_zero(n as int, d as int),
{
    if n >= 0 {
        let q = n as u128 / d;
        assert(q <= n) by (nonlinear_arith)
            requires
                q == (n as int) / (d as int),
                n >= 0,
                d > 0,
        ;
        q as i128
    } else {
        let m = (-n) as u128;
        let q = m / d;
        assert(q <= m) by (nonlinear_arith)
            requires
                q == (m as int) / (d as int),
                m >= 0,
                d > 0,
        ;
        -(q as i128)
    }
}

/// The pixel coordinate nearest to a value.
fn nearest_pixel(v: i128) -> (r: i32)
    ensures
        r == to_pixel(v as int),
{
    if v < i32::MIN as i128 {
        i32::MIN
    } else if v > i32::MAX as i128 {
        i32::MAX
    } else {
        v as i32
    }
}

/// The height of a line at a scale, in scaled units.
fn line_height_of(metrics: &GlyphMetrics, scale: Scale) -> (r: i128)
    ensures
        r == line_height(*metrics, scale@),
        -0x8000_0000_0000 <= r <= 0x1_8000_0000_0000,
        metrics.wf(),
{
    let h = metrics.vertical_metrics().line_height_units() as i128;
    let s = scale.steps() as i128;
    proof {
        lemma_line_height_bound(*metrics, scale@);
    }
    h * s
}

/// The left edge at which a text at a scale is centred in `room` pixels.
pub fn centre_text(metrics: &GlyphMetrics, text: &str, scale: Scale, room: u32) -> (x: i32)
    ensures
        x == line_x(*metrics, Row { text: text@, steps: scale@, offset: 0 }, room),
{
    let space = metrics.extent_of(room) as i128;
    let per_pixel = metrics.extent_of(1) as u128;
    assert(per_pixel == metrics.units_per_pixel() && per_pixel >= 64) by (nonlinear_arith)
        requires
            per_pixel == 1 * metrics.units_per_pixel(),
            metrics.units_per_pixel() == 64 * metrics.vertical().height(),
            metrics.vertical().height() > 0,
    ;
    let units = metrics.measure(text);
    let steps = scale.steps() as u128;
    proof {
        assert(text@.len() * 0xffff <= 0xffff_ffff_ffff_ffff * 0xffff) by (nonlinear_arith)
            requires
                text@.len() <= 0xffff_ffff_ffff_ffff,
        ;
        assert(units * steps <= 0xffff_ffff_ffff_ffff * 0xffff * 0xffff_ffff) by (nonlinear_arith)
            requires
                units <= 0xffff_ffff_ffff_ffff * 0xffff,
                steps <= 0xffff_ffff,
        ;
    }
    let width = (units * steps) as i128;
    nearest_pixel(divide_toward_zero(space - width, 2 * per_pixel))
}

/// Computes where each fitted line is drawn on a canvas.
///
/// Every line is centred horizontally by its own width. The block of all
/// lines is centred vertically, each line below the one before by that
/// line's height, and moved by its own offset. Positions are rounded
/// toward zero and kept within the range of a pixel coordinate.
pub fn place(
    metrics: &GlyphMetrics,
    fitted: &ScaleResult,
    canvas_width: u32,
    canvas_height: u32,
    color: Color,
) -> (out: Vec<DrawInstruction>)
    ensures
        is_placement(*metrics, fitted@, canvas_width, canvas_height, color, out@),
        drawn_text(out@) == fitted.text(),
{
    let n = fitted.lines.len();
    let ghost rows = fitted@;
    let height_room = metrics.extent_of(canvas_height) as i128;
    let per_pixel = metrics.extent_of(1) as u128;
    assert(per_pixel == metrics.units_per_pixel() && per_pixel >= 64) by (nonlinear_arith)
        requires
            per_pixel == 1 * metrics.units_per_pixel(),
            metrics.units_per_pixel() == 64 * metrics.vertical().height(),
            metrics.vertical().height() > 0,
    ;
    let mut total: i128 = 0;
    let mut i: usize = 0;
    while i < n
        invariant
            i <= n,
            n == fitted.lines@.len(),
            metrics.wf(),
            rows == fitted@,
            total == block_height(*metrics, rows.take(i as int)),
            -(i * 0x8000_0000_0000) <= total <= i * 0x1_8000_0000_0000,
        decreases n - i,
    {
        let h = line_height_of(metrics, fitted.lines[i].scale);
        proof {
            assert(rows.take(i + 1).drop_last() =~= rows.take(i as int));
            assert(i * 0x1_8000_0000_0000 <= 0xffff_ffff_ffff_ffff * 0x1_8000_0000_0000)
                by (nonlinear_arith)
                requires
                    i <= 0xffff_ffff_ffff_ffff,
            ;
        }
        total = total + h;
        i = i + 1;
    }
    proof {
        assert(rows.take(n as int) =~= rows);
        assert(n * 0x1_8000_0000_0000 <= 0xffff_ffff_ffff_ffff * 0x1_8000_0000_0000)
            by (nonlinear_arith)
            requires
                n <= 0xffff_ffff_ffff_ffff,
        ;
    }
    let mut out: Vec<DrawInstruction> = Vec::new();
    let mut above: i128 = 0;
    let mut j: usize = 0;
    while j < n
        invariant
            j <= n,
            n == fitted.lines@.len(),
            metrics.wf(),
            per_pixel == metrics.units_per_pixel(),
            64 <= per_pixel < 0x40_0000_0000_0000,
            height_room == metrics.extent(canvas_height),
            0 <= height_room < 0x40_0000_0000_0000,
            rows == fitted@,
            total == block_height(*metrics, rows),
            -(0xffff_ffff_ffff_ffff * 0x1_8000_0000_0000) <= total <= 0xffff_ffff_ffff_ffff
                * 0x1_8000_0000_0000,
            above == block_height(*metrics, rows.take(j as int)),
            -(j * 0x8000_0000_0000) <= above <= j * 0x1_8000_0000_0000,
            out@.len() == j,
            forall|k: int|
                0 <= k < j ==> draws_row(
                    *metrics,
                    rows,
                    k,
                    canvas_width,
                    canvas_height,
                    color,
                    #[trigger] out@[k],
                ),
        decreases n - j,
    {
        let line = &fitted.lines[j];
        let text = line.line.to_text();
        let x = centre_text(metrics, text.as_str(), line.scale, canvas_width);
        proof {
            assert(j * 0x1_8000_0000_0000 <= 0xffff_ffff_ffff_ffff * 0x1_8000_0000_0000)
                by (nonlinear_arith)
                requires
                    j <= 0xffff_ffff_ffff_ffff,
            ;
        }
        let top = nearest_pixel(divide_toward_zero(height_room - (total - 2 * above), 2 * per_pixel));
        let y = nearest_pixel(top as i128 + line.offset as i128);
        let h = line_height_of(metrics, line.scale);
        proof {
            assert(rows.take(j + 1).drop_last() =~= rows.take(j as int));
        }
        out.push(DrawInstruction { text, x, y, scale: line.scale, color });
        above = above + h;
        j = j + 1;
    }
    proof {
        lemma_placement_keeps_text(*metrics, rows, canvas_width, canvas_height, color, out@);
    }
    out
}

} // verus!
