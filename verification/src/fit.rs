//! Choosing the scale of a text and the lines it is laid out in.

use crate::metrics::GlyphMetrics;
use crate::scale::nearest_steps;
use crate::scale::Scale;
use crate::token::line_views;
use crate::token::texts;
use crate::token::Line;
use crate::token::Token;
use crate::wrap::is_greedy_wrap;
use crate::wrap::wrap;
use crate::wrap::wrap_lines;
use vstd::arithmetic::div_mod::lemma_div_multiples_vanish_quotient;
use vstd::arithmetic::div_mod::lemma_fundamental_div_mod;
use vstd::arithmetic::div_mod::lemma_div_is_ordered_by_denominator;
use vstd::arithmetic::div_mod::lemma_mod_bound;
use vstd::prelude::*;
use vstd::seq_lib::lemma_flatten_concat;
use vstd::string::*;

verus! {

broadcast use Seq::lemma_flatten_push;

/// A line with the scale it is drawn at and a vertical offset, in pixels,
/// from the place that centring gives it.
#[derive(Debug)]
pub struct FittedLine {
    pub line: Line,
    pub scale: Scale,
    pub offset: i32,
}

/// The lines that a text was fitted into, from top to bottom.
#[derive(Debug)]
pub struct ScaleResult {
    pub lines: Vec<FittedLine>,
}

/// What is drawn of a fitted line: its characters, the steps of its scale
/// and its vertical offset.
pub struct Row {
    pub text: Seq<char>,
    pub steps: u32,
    pub offset: i32,
}

impl View for FittedLine {
    type V = Row;

    open spec fn view(&self) -> Row {
        Row { text: self.line.text(), steps: self.scale@, offset: self.offset }
    }
}

impl View for ScaleResult {
    type V = Seq<Row>;

    open spec fn view(&self) -> Seq<Row> {
        self.lines@.map_values(|l: FittedLine| l@)
    }
}

/// The characters of a sequence of rows, row after row.
pub open spec fn rows_text(rows: Seq<Row>) -> Seq<char> {
    rows.map_values(|r: Row| r.text).flatten()
}

impl ScaleResult {
    /// The characters of all lines, in order, without the line breaks.
    pub open spec fn text(self) -> Seq<char> {
        rows_text(self@)
    }
}

/// The scales between which a text is fitted, and the vertical offsets of
/// the two halves of a text that is split.
#[derive(Clone, Copy, Debug)]
pub struct FitConfig {
    /// The scale at which the text is measured, and that of a text without width.
    pub base_scale: Scale,
    /// The largest scale at which a text stays on one line.
    pub max_scale: Scale,
    /// The largest scale of a text on one line.
    pub hard_cap_scale: Scale,
    /// Offset of the first half of a split text, in pixels; negative is up.
    pub upper_offset: i32,
    /// Offset of the second half of a split text, in pixels.
    pub lower_offset: i32,
}

/// The scale at which `units` design units, measured at `base`, fill
/// `target_width` pixels: the base scale times the target width over the
/// measured width, rounded down to the grid, and never off the grid.
pub open spec fn proportional_steps(
    metrics: GlyphMetrics,
    base: Scale,
    target_width: u32,
    units: nat,
) -> u32 {
    nearest_steps((base@ * metrics.extent(target_width)) / (units * base@))
}

/// The number of characters of the first half of a text that is split.
pub open spec fn split_point(text: Seq<char>) -> int {
    text.len() as int / 2
}

/// The wider of the two halves of a text, in design units.
pub open spec fn wider_half(metrics: GlyphMetrics, text: Seq<char>) -> nat {
    let first = metrics.units(text.take(split_point(text)));
    let second = metrics.units(text.skip(split_point(text)));
    if first >= second {
        first
    } else {
        second
    }
}

/// Whether a text is split into two lines: it has a width, and the scale
/// at which it would fill the target width is above the largest scale for
/// one line.
pub open spec fn is_split(
    metrics: GlyphMetrics,
    text: Seq<char>,
    target_width: u32,
    config: FitConfig,
) -> bool {
    metrics.units(text) > 0 && proportional_steps(
        metrics,
        config.base_scale,
        target_width,
        metrics.units(text),
    ) > config.max_scale@
}

/// The scale that a text is fitted at.
pub open spec fn fitted_steps(
    metrics: GlyphMetrics,
    text: Seq<char>,
    target_width: u32,
    config: FitConfig,
) -> u32 {
    let whole = proportional_steps(metrics, config.base_scale, target_width, metrics.units(text));
    if metrics.units(text) == 0 {
        config.base_scale@
    } else if is_split(metrics, text, target_width, config) {
        proportional_steps(metrics, config.base_scale, target_width, wider_half(metrics, text))
    } else if whole > config.hard_cap_scale@ {
        config.hard_cap_scale@
    } else {
        whole
    }
}

/// The texts of the lines that a text is fitted into: the text itself, or
/// its two halves.
pub open spec fn fitted_halves(
    metrics: GlyphMetrics,
    text: Seq<char>,
    target_width: u32,
    config: FitConfig,
) -> Seq<Seq<char>> {
    if is_split(metrics, text, target_width, config) {
        seq![text.take(split_point(text)), text.skip(split_point(text))]
    } else {
        seq![text]
    }
}

/// The rows that a text is fitted into: the text itself without offset, or
/// its two halves with the offsets of the upper and the lower half, all at
/// the fitted scale.
pub open spec fn fitted_rows(
    metrics: GlyphMetrics,
    text: Seq<char>,
    target_width: u32,
    config: FitConfig,
) -> Seq<Row> {
    let steps = fitted_steps(metrics, text, target_width, config);
    if is_split(metrics, text, target_width, config) {
        seq![
            Row { text: text.take(split_point(text)), steps, offset: config.upper_offset },
            Row { text: text.skip(split_point(text)), steps, offset: config.lower_offset },
        ]
    } else {
        seq![Row { text, steps, offset: 0 }]
    }
}

/// The rows of the greedy wrapping of tokens at a fixed scale.
pub open spec fn wrapped_rows(
    metrics: GlyphMetrics,
    tokens: Seq<Seq<char>>,
    target_width: u32,
    scale: Scale,
) -> Seq<Row> {
    wrap_lines(metrics, tokens, target_width, scale).map_values(
        |l: Seq<Seq<char>>| Row { text: l.flatten(), steps: scale@, offset: 0 },
    )
}

/// The line that holds a text as one unit.
pub open spec fn unit_line(text: Seq<char>) -> Seq<Seq<char>> {
    if text.len() == 0 {
        Seq::<Seq<char>>::empty()
    } else {
        seq![text]
    }
}

/// The scale that fills the target width does not depend on the base scale:
/// it is the target width over the text's advance, rounded down.
pub proof fn lemma_proportional_steps(
    metrics: GlyphMetrics,
    base: Scale,
    target_width: u32,
    units: nat,
)
    requires
        metrics.wf(),
        base.wf(),
        units > 0,
    ensures
        proportional_steps(metrics, base, target_width, units) == nearest_steps(
            metrics.extent(target_width) / (units as int),
        ),
        metrics.extent(target_width) >= 0,
{
    let e = metrics.extent(target_width);
    assert(e >= 0) by (nonlinear_arith)
        requires
            e == target_width * (64 * metrics.vertical().height()),
            metrics.vertical().height() > 0,
    ;
    lemma_div_multiples_vanish_quotient(base@ as int, e, units as int);
    assert(units * base@ == base@ * units) by (nonlinear_arith);
}

/// The two halves of a split text differ in length by at most one
/// character, and the first is never the longer.
pub proof fn lemma_split_balanced(text: Seq<char>)
    ensures
        text.take(split_point(text)) + text.skip(split_point(text)) == text,
        text.take(split_point(text)).len() <= text.skip(split_point(text)).len(),
        text.skip(split_point(text)).len() - text.take(split_point(text)).len() <= 1,
{
    assert(text.take(split_point(text)) + text.skip(split_point(text)) =~= text);
}

/// The lines that a text is fitted into, joined, are the text.
pub proof fn lemma_fit_keeps_text(
    metrics: GlyphMetrics,
    text: Seq<char>,
    target_width: u32,
    config: FitConfig,
)
    ensures
        fitted_halves(metrics, text, target_width, config).flatten() == text,
{
    let halves = fitted_halves(metrics, text, target_width, config);
    let k = split_point(text);
    if is_split(metrics, text, target_width, config) {
        assert(halves =~= Seq::<Seq<char>>::empty().push(text.take(k)).push(text.skip(k)));
        assert(Seq::<Seq<char>>::empty().flatten() =~= Seq::<char>::empty());
        assert(halves.flatten() =~= text.take(k) + text.skip(k));
        assert(text.take(k) + text.skip(k) =~= text);
    } else {
        assert(halves =~= Seq::<Seq<char>>::empty().push(text));
        assert(halves.flatten() =~= text);
    }
}

/// A fitted scale is strictly positive.
pub proof fn lemma_fitted_scale_positive(
    metrics: GlyphMetrics,
    text: Seq<char>,
    target_width: u32,
    config: FitConfig,
)
    requires
        config.base_scale.wf(),
        config.max_scale.wf(),
        config.hard_cap_scale.wf(),
    ensures
        fitted_steps(metrics, text, target_width, config) >= 1,
{
}

/// A text with a width that stays on one line is fitted at no more than the
/// hard cap. So is a text without width where the base scale is within the
/// cap, and a split text where the scale of its halves is.
pub proof fn lemma_fitted_scale_capped(
    metrics: GlyphMetrics,
    text: Seq<char>,
    target_width: u32,
    config: FitConfig,
)
    requires
        metrics.units(text) == 0 ==> config.base_scale@ <= config.hard_cap_scale@,
        is_split(metrics, text, target_width, config) ==> proportional_steps(
            metrics,
            config.base_scale,
            target_width,
            wider_half(metrics, text),
        ) <= config.hard_cap_scale@,
    ensures
        fitted_steps(metrics, text, target_width, config) <= config.hard_cap_scale@,
{
}

/// Splitting never lowers the scale: the halves of a split text are fitted
/// above the largest scale for one line.
pub proof fn lemma_split_scale_above_max(
    metrics: GlyphMetrics,
    text: Seq<char>,
    target_width: u32,
    config: FitConfig,
)
    requires
        metrics.wf(),
        config.base_scale.wf(),
        is_split(metrics, text, target_width, config),
    ensures
        wider_half(metrics, text) > 0,
        fitted_steps(metrics, text, target_width, config) > config.max_scale@,
{
    let k = split_point(text);
    let units = metrics.units(text);
    let wider = wider_half(metrics, text);
    assert(text.take(k) + text.skip(k) =~= text);
    metrics.lemma_units_concat(text.take(k), text.skip(k));
    lemma_proportional_steps(metrics, config.base_scale, target_width, units);
    lemma_proportional_steps(metrics, config.base_scale, target_width, wider);
    lemma_div_is_ordered_by_denominator(metrics.extent(target_width), wider as int, units as int);
}

/// Where the target width is at least the advance of the widest line, no
/// fitted line is wider than the target width.
pub proof fn lemma_fitted_lines_fit(
    metrics: GlyphMetrics,
    text: Seq<char>,
    target_width: u32,
    config: FitConfig,
    scale: Scale,
    i: int,
)
    requires
        metrics.wf(),
        config.base_scale.wf(),
        config.max_scale.wf(),
        config.hard_cap_scale.wf(),
        metrics.units(text) > 0,
        scale@ == fitted_steps(metrics, text, target_width, config),
        0 <= i < fitted_halves(metrics, text, target_width, config).len(),
        metrics.extent(target_width) >= (if is_split(metrics, text, target_width, config) {
            wider_half(metrics, text)
        } else {
            metrics.units(text)
        }),
    ensures
        metrics.fits(fitted_halves(metrics, text, target_width, config)[i], scale, target_width),
{
    let e = metrics.extent(target_width);
    let k = split_point(text);
    let units = metrics.units(text);
    if is_split(metrics, text, target_width, config) {
        let wider = wider_half(metrics, text);
        lemma_split_scale_above_max(metrics, text, target_width, config);
        lemma_proportional_steps(metrics, config.base_scale, target_width, wider);
        lemma_floor_product(e, wider as int);
        let line = fitted_halves(metrics, text, target_width, config)[i];
        assert(metrics.units(line) <= wider);
        assert(metrics.units(line) * scale@ <= e) by (nonlinear_arith)
            requires
                metrics.units(line) <= wider,
                wider * scale@ <= e,
                scale@ >= 0,
        ;
    } else {
        lemma_proportional_steps(metrics, config.base_scale, target_width, units);
        lemma_floor_product(e, units as int);
        assert(units * scale@ <= e) by (nonlinear_arith)
            requires
                units * nearest_steps(e / (units as int)) <= e,
                scale@ <= nearest_steps(e / (units as int)),
                units >= 0,
        ;
    }
}

/// A divisor times the quotient on the grid is at most the dividend, where
/// the quotient is at least one.
proof fn lemma_floor_product(e: int, d: int)
    requires
        0 < d <= e,
    ensures
        d * nearest_steps(e / d) <= e,
{
    lemma_fundamental_div_mod(e, d);
    lemma_mod_bound(e, d);
    let q = e / d;
    assert(q >= 1) by (nonlinear_arith)
        requires
            e == d * q + e % d,
            0 <= e % d < d,
            0 < d <= e,
    ;
    assert(d * nearest_steps(q) <= d * q) by (nonlinear_arith)
        requires
            0 < d,
            0 <= nearest_steps(q) <= q,
    ;
}

/// Flattening line by line and then joining the lines gives what
/// flattening twice gives.
pub proof fn lemma_flatten_lines(lines: Seq<Seq<Seq<char>>>)
    ensures
        lines.map_values(|l: Seq<Seq<char>>| l.flatten()).flatten() == lines.flatten().flatten(),
    decreases lines.len(),
{
    let joined = lines.map_values(|l: Seq<Seq<char>>| l.flatten());
    if lines.len() == 0 {
        assert(joined =~= Seq::<Seq<char>>::empty());
        assert(lines.flatten() =~= Seq::<Seq<char>>::empty());
    } else {
        let front = lines.drop_last();
        lemma_flatten_lines(front);
        assert(lines =~= front.push(lines.last()));
        assert(joined =~= front.map_values(|l: Seq<Seq<char>>| l.flatten()).push(
            lines.last().flatten(),
        ));
        lemma_flatten_concat(front.flatten(), lines.last());
    }
}

/// The scale at which `units` design units fill `extent` scaled units.
fn scale_to_fill(
    metrics: &GlyphMetrics,
    base: Scale,
    target_width: u32,
    extent: u64,
    units: u128,
) -> (r: Scale)
    requires
        metrics.wf(),
        extent == metrics.extent(target_width),
        units > 0,
    ensures
        r@ == proportional_steps(*metrics, base, target_width, units as nat),
        r.wf(),
{
    proof {
        use_type_invariant(&base);
        lemma_proportional_steps(*metrics, base, target_width, units as nat);
    }
    Scale::nearest(extent as u128 / units)
}

/// Fits a text to a target width by choosing its scale.
///
/// A text without width stays on one line at the base scale. Else the text
/// gets the scale at which it fills the target width, capped at the hard
/// cap, where that scale is within the largest scale for one line; above
/// it, the text is split after the first half of its characters, rounded
/// down, and both halves get the scale at which the wider fills the target
/// width.
pub fn fit(metrics: &GlyphMetrics, text: &str, target_width: u32, config: &FitConfig) -> (r:
    ScaleResult)
    ensures
        r@ == fitted_rows(*metrics, text@, target_width, *config),
        r.text() == text@,
        r.lines@.len() == fitted_halves(*metrics, text@, target_width, *config).len(),
        forall|i: int|
            0 <= i < r.lines@.len() ==> {
                &&& (#[trigger] r.lines@[i]).line@ == unit_line(
                    fitted_halves(*metrics, text@, target_width, *config)[i],
                )
                &&& r.lines@[i].scale@ == fitted_steps(*metrics, text@, target_width, *config)
                &&& r.lines@[i].scale.wf()
            },
        r.lines@.len() == 1 ==> r.lines@[0].offset == 0,
        r.lines@.len() == 2 ==> r.lines@[0].offset == config.upper_offset && r.lines@[1].offset
            == config.lower_offset,
{
    let extent = metrics.extent_of(target_width);
    let units = metrics.measure(text);
    let mut lines: Vec<FittedLine> = Vec::new();
    proof {
        lemma_fit_keeps_text(*metrics, text@, target_width, *config);
    }
    if units == 0 {
        let base = config.base_scale;
        proof {
            use_type_invariant(&base);
        }
        lines.push(FittedLine { line: Line::of_text(text), scale: base, offset: 0 });
        let r = ScaleResult { lines };
        proof {
            assert(r@ =~= fitted_rows(*metrics, text@, target_width, *config));
            assert(r@.map_values(|r: Row| r.text) =~= seq![text@]);
        }
        return r;
    }
    let whole = scale_to_fill(metrics, config.base_scale, target_width, extent, units);
    if whole.steps() <= config.max_scale.steps() {
        let scale = whole.min(config.hard_cap_scale);
        lines.push(FittedLine { line: Line::of_text(text), scale, offset: 0 });
        let r = ScaleResult { lines };
        proof {
            assert(r@ =~= fitted_rows(*metrics, text@, target_width, *config));
            assert(r@.map_values(|r: Row| r.text) =~= seq![text@]);
        }
        return r;
    }
    let n = text.unicode_len();
    let k = n / 2;
    let first = text.substring_char(0, k);
    let second = text.substring_char(k, n);
    proof {
        use_type_invariant(&config.base_scale);
        assert(first@ =~= text@.take(k as int));
        assert(second@ =~= text@.skip(k as int));
        lemma_split_scale_above_max(*metrics, text@, target_width, *config);
    }
    let first_units = metrics.measure(first);
    let second_units = metrics.measure(second);
    let wider = if first_units >= second_units {
        first_units
    } else {
        second_units
    };
    let scale = scale_to_fill(metrics, config.base_scale, target_width, extent, wider);
    lines.push(FittedLine { line: Line::of_text(first), scale, offset: config.upper_offset });
    lines.push(FittedLine { line: Line::of_text(second), scale, offset: config.lower_offset });
    let r = ScaleResult { lines };
    proof {
        assert(r@ =~= fitted_rows(*metrics, text@, target_width, *config));
        assert(r@.map_values(|r: Row| r.text) =~= seq![first@, second@]);
    }
    r
}

/// Lays tokens out at a fixed scale: the lines of the greedy wrapping, each
/// at that scale and where centring puts it.
pub fn fit_tokens(metrics: &GlyphMetrics, tokens: &Vec<Token>, target_width: u32, scale: Scale) -> (r:
    ScaleResult)
    ensures
        r@ == wrapped_rows(*metrics, texts(tokens@), target_width, scale),
        r.text() == texts(tokens@).flatten(),
        is_greedy_wrap(
            *metrics,
            texts(tokens@),
            wrap_lines(*metrics, texts(tokens@), target_width, scale),
            target_width,
            scale,
        ),
        r.lines@.len() == wrap_lines(*metrics, texts(tokens@), target_width, scale).len(),
        forall|i: int|
            0 <= i < r.lines@.len() ==> {
                &&& (#[trigger] r.lines@[i]).line@ == wrap_lines(
                    *metrics,
                    texts(tokens@),
                    target_width,
                    scale,
                )[i]
                &&& r.lines@[i].scale == scale
                &&& r.lines@[i].offset == 0
            },
{
    let wrapped = wrap(metrics, tokens, target_width, scale);
    let ghost views = line_views(wrapped@);
    let mut lines: Vec<FittedLine> = Vec::new();
    let mut i: usize = 0;
    while i < wrapped.len()
        invariant
            i <= wrapped.len(),
            views == line_views(wrapped@),
            lines@.len() == i,
            forall|k: int|
                0 <= k < i ==> {
                    &&& (#[trigger] lines@[k]).line@ == views[k]
                    &&& lines@[k].scale == scale
                    &&& lines@[k].offset == 0
                },
        decreases wrapped.len() - i,
    {
        lines.push(FittedLine { line: wrapped[i].clone(), scale, offset: 0 });
        i = i + 1;
    }
    let r = ScaleResult { lines };
    proof {
        assert(r@ =~= wrapped_rows(*metrics, texts(tokens@), target_width, scale));
        assert(r@.map_values(|r: Row| r.text) =~= views.map_values(
            |l: Seq<Seq<char>>| l.flatten(),
        ));
        lemma_flatten_lines(views);
    }
    r
}

} // verus!
