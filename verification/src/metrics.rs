//! Glyph metrics of one font, in design units, and the measuring of text.

use crate::scale::Scale;
use crate::scale::STEPS_PER_PIXEL;
use std::collections::HashMap;
use vstd::prelude::*;
use vstd::std_specs::iter::IteratorSpec;

verus! {

broadcast use {vstd::std_specs::hash::group_hash_axioms, vstd::string::group_string_axioms};

/// The largest advance a glyph can have, in design units.
pub const MAX_ADVANCE: u16 = 0xffff;

/// Ascent, descent and line gap of a font, in design units.
///
/// The descent of a usual font is negative: it lies below the baseline.
#[derive(Clone, Copy, Debug)]
pub struct VerticalMetrics {
    ascent: i16,
    descent: i16,
    line_gap: i16,
}

impl VerticalMetrics {
    /// Height of the tallest glyph above the baseline.
    pub closed spec fn ascent(self) -> i16 {
        self.ascent
    }

    /// Depth of the deepest glyph, as a position relative to the baseline.
    pub closed spec fn descent(self) -> i16 {
        self.descent
    }

    /// Extra space between two lines.
    pub closed spec fn line_gap(self) -> i16 {
        self.line_gap
    }

    /// Distance from the lowest descender to the highest ascender. A scale
    /// of `s` pixels draws this distance as `s` pixels.
    pub open spec fn height(self) -> int {
        self.ascent() - self.descent()
    }

    /// Distance from the top of one line to the top of the next.
    pub open spec fn line_height(self) -> int {
        self.ascent() - self.descent() + self.line_gap()
    }

    /// Vertical metrics are well formed when the font has a positive height.
    #[verifier::type_invariant]
    pub open spec fn wf(self) -> bool {
        self.height() > 0
    }

    /// The vertical metrics of a font, if it has a positive height.
    pub fn new(ascent: i16, descent: i16, line_gap: i16) -> (r: Option<VerticalMetrics>)
        ensures
            ascent > descent <==> r is Some,
            r matches Some(v) ==> {
                &&& v.wf()
                &&& v.ascent() == ascent
                &&& v.descent() == descent
                &&& v.line_gap() == line_gap
            },
    {
        if ascent > descent {
            Some(VerticalMetrics { ascent, descent, line_gap })
        } else {
            None
        }
    }

    /// The ascent of the font, in design units.
    pub fn ascent_units(&self) -> (r: i16)
        ensures
            r == self.ascent(),
    {
        self.ascent
    }

    /// The descent of the font, in design units.
    pub fn descent_units(&self) -> (r: i16)
        ensures
            r == self.descent(),
    {
        self.descent
    }

    /// The line gap of the font, in design units.
    pub fn line_gap_units(&self) -> (r: i16)
        ensures
            r == self.line_gap(),
    {
        self.line_gap
    }

    /// The height of the font, in design units.
    pub fn height_units(&self) -> (r: u32)
        ensures
            r == self.height(),
            1 <= r <= 0xffff,
    {
        proof {
            use_type_invariant(self);
        }
        (self.ascent as i32 - self.descent as i32) as u32
    }

    /// The line height of the font, in design units.
    pub fn line_height_units(&self) -> (r: i32)
        ensures
            r == self.line_height(),
            -0x8000 < r < 0x1_8000,
    {
        proof {
            use_type_invariant(self);
        }
        self.ascent as i32 - self.descent as i32 + self.line_gap as i32
    }
}

/// What the layout reads of a font: its vertical metrics and the advance
/// of each character.
#[derive(Clone, Debug)]
pub struct GlyphMetrics {
    vertical: VerticalMetrics,
    fallback: u16,
    advances: HashMap<u32, u16>,
}

/// Sum of the advances that `advance` gives to the characters of `text`.
pub open spec fn sum_advances(advance: spec_fn(char) -> u16, text: Seq<char>) -> nat
    decreases text.len(),
{
    if text.len() == 0 {
        0
    } else {
        sum_advances(advance, text.drop_last()) + advance(text.last()) as nat
    }
}

/// The advances of a text and of its continuation add up.
pub proof fn lemma_sum_advances_concat(advance: spec_fn(char) -> u16, a: Seq<char>, b: Seq<char>)
    ensures
        sum_advances(advance, a + b) == sum_advances(advance, a) + sum_advances(advance, b),
    decreases b.len(),
{
    if b.len() == 0 {
        assert(a + b =~= a);
    } else {
        assert((a + b).drop_last() =~= a + b.drop_last());
        assert((a + b).last() == b.last());
        lemma_sum_advances_concat(advance, a, b.drop_last());
    }
}

/// A text of `n` characters advances by at most `n` times the largest advance.
pub proof fn lemma_sum_advances_bound(advance: spec_fn(char) -> u16, text: Seq<char>)
    ensures
        sum_advances(advance, text) <= text.len() * MAX_ADVANCE,
    decreases text.len(),
{
    if text.len() > 0 {
        lemma_sum_advances_bound(advance, text.drop_last());
        assert((text.len() - 1) * MAX_ADVANCE + MAX_ADVANCE == text.len() * MAX_ADVANCE)
            by (nonlinear_arith);
    }
}

/// Two different characters have different code points.
proof fn lemma_distinct_codes(c: char, d: char)
    requires
        c != d,
    ensures
        c as u32 != d as u32,
{
}

impl GlyphMetrics {
    /// The vertical metrics of the font.
    pub closed spec fn vertical(self) -> VerticalMetrics {
        self.vertical
    }

    /// The advance of one character, in design units.
    pub closed spec fn advance(self, c: char) -> u16 {
        if self.advances@.contains_key(c as u32) {
            self.advances@[c as u32]
        } else {
            self.fallback
        }
    }

    /// Metrics are well formed when the vertical metrics are.
    pub open spec fn wf(self) -> bool {
        self.vertical().wf()
    }

    /// Total advance of a text, in design units.
    pub open spec fn units(self, text: Seq<char>) -> nat {
        sum_advances(|c: char| self.advance(c), text)
    }

    /// Number of scaled units in one pixel: a length of `u` design units at a
    /// scale of `s` steps covers `u * s` scaled units.
    pub open spec fn units_per_pixel(self) -> int {
        STEPS_PER_PIXEL * self.vertical().height()
    }

    /// Width of a text at a scale, in scaled units.
    pub open spec fn measured_width(self, text: Seq<char>, scale: Scale) -> nat {
        self.units(text) * scale@ as nat
    }

    /// A length of whole pixels, in scaled units.
    pub open spec fn extent(self, pixels: u32) -> int {
        pixels * self.units_per_pixel()
    }

    /// Whether a text at a scale is no wider than `target_width` pixels.
    pub open spec fn fits(self, text: Seq<char>, scale: Scale, target_width: u32) -> bool {
        self.measured_width(text, scale) <= self.extent(target_width)
    }

    /// A text followed by another advances by the sum of the two advances.
    pub proof fn lemma_units_concat(self, a: Seq<char>, b: Seq<char>)
        ensures
            self.units(a + b) == self.units(a) + self.units(b),
    {
        lemma_sum_advances_concat(|c: char| self.advance(c), a, b);
    }

    /// The empty text has no advance.
    pub proof fn lemma_units_empty(self)
        ensures
            self.units(Seq::<char>::empty()) == 0,
    {
    }

    /// A text of `n` characters advances by at most `n` times the largest advance.
    pub proof fn lemma_units_bound(self, text: Seq<char>)
        ensures
            self.units(text) <= text.len() * MAX_ADVANCE,
    {
        lemma_sum_advances_bound(|c: char| self.advance(c), text);
    }

    /// Measuring is a function of the text and the scale alone: measuring the
    /// same text at the same scale again gives the same width.
    pub proof fn lemma_measure_repeatable(
        self,
        first: Seq<char>,
        first_scale: Scale,
        second: Seq<char>,
        second_scale: Scale,
    )
        requires
            first == second,
            first_scale == second_scale,
        ensures
            self.measured_width(first, first_scale) == self.measured_width(second, second_scale),
    {
    }

    /// Metrics of a font in which every character advances by `fallback`.
    pub fn new(vertical: VerticalMetrics, fallback: u16) -> (r: GlyphMetrics)
        ensures
            r.wf(),
            r.vertical() == vertical,
            forall|c: char| #[trigger] r.advance(c) == fallback,
    {
        proof {
            use_type_invariant(&vertical);
        }
        GlyphMetrics { vertical, fallback, advances: HashMap::new() }
    }

    /// Records the advance of one character.
    pub fn set_advance(&mut self, c: char, advance: u16)
        ensures
            final(self).wf(),
            final(self).vertical() == old(self).vertical(),
            final(self).advance(c) == advance,
            forall|d: char| d != c ==> #[trigger] final(self).advance(d) == old(self).advance(d),
    {
        proof {
            use_type_invariant(&self.vertical);
        }
        self.advances.insert(c as u32, advance);
        proof {
            assert forall|d: char| d != c implies #[trigger] self.advance(d) == old(self).advance(
                d,
            ) by {
                lemma_distinct_codes(c, d);
            }
        }
    }

    /// The advance of one character.
    pub fn advance_of(&self, c: char) -> (r: u16)
        ensures
            r == self.advance(c),
    {
        match self.advances.get(&(c as u32)) {
            Some(a) => *a,
            None => self.fallback,
        }
    }

    /// The vertical metrics of the font.
    pub fn vertical_metrics(&self) -> (r: VerticalMetrics)
        ensures
            r == self.vertical(),
            r.wf(),
    {
        proof {
            use_type_invariant(&self.vertical);
        }
        self.vertical
    }

    /// The number of scaled units in `pixels` whole pixels.
    pub fn extent_of(&self, pixels: u32) -> (r: u64)
        ensures
            r == self.extent(pixels),
            r < 0x40_0000_0000_0000,
            self.wf(),
    {
        let h: u64 = self.vertical.height_units() as u64;
        let steps: u64 = STEPS_PER_PIXEL as u64;
        assert(steps * h <= 64 * 0xffff) by (nonlinear_arith)
            requires
                steps == 64,
                h <= 0xffff,
        ;
        let per_pixel: u64 = steps * h;
        assert(pixels as u64 * per_pixel <= 0xffff_ffff * (64 * 0xffff)) by (nonlinear_arith)
            requires
                pixels <= 0xffff_ffff,
                per_pixel <= 64 * 0xffff,
        ;
        pixels as u64 * per_pixel
    }

    /// Total advance of a text, in design units.
    pub fn measure(&self, text: &str) -> (r: u128)
        ensures
            r == self.units(text@),
            r <= text@.len() * MAX_ADVANCE,
            text@.len() <= usize::MAX,
    {
        let ghost advance = |c: char| self.advance(c);
        let n = text.unicode_len();
        let mut total: u128 = 0;
        for c in it: text.chars()
            invariant
                it.seq() == text@,
                n == text@.len(),
                total == sum_advances(advance, text@.take(it.index() as int)),
                advance == (|c: char| self.advance(c)),
        {
            let a = self.advance_of(c);
            proof {
                let i = it.index() as int;
                assert(text@.take(i + 1).drop_last() =~= text@.take(i));
                lemma_sum_advances_bound(advance, text@.take(i));
                assert(i * MAX_ADVANCE <= 0xffff_ffff_ffff_ffff * 0xffff) by (nonlinear_arith)
                    requires
                        0 <= i <= 0xffff_ffff_ffff_ffff,
                ;
            }
            total = total + a as u128;
        }
        proof {
            assert(text@.take(n as int) =~= text@);
            lemma_sum_advances_bound(advance, text@);
        }
        total
    }

    /// Width of a text at a scale, in scaled units.
    pub fn width(&self, text: &str, scale: Scale) -> (r: u128)
        ensures
            r == self.measured_width(text@, scale),
    {
        let units = self.measure(text);
        let steps = scale.steps() as u128;
        proof {
            assert(text@.len() * 0xffff <= 0xffff_ffff_ffff_ffff * 0xffff) by (nonlinear_arith)
                requires
                    text@.len() <= 0xffff_ffff_ffff_ffff,
            ;
            assert(units * steps <= 0xffff_ffff_ffff_ffff * 0xffff * 0xffff_ffff)
                by (nonlinear_arith)
                requires
                    units <= 0xffff_ffff_ffff_ffff * 0xffff,
                    steps <= 0xffff_ffff,
            ;
        }
        units * steps
    }

    /// Whether a text at a scale is no wider than `target_width` pixels.
    pub fn fits_width(&self, text: &str, scale: Scale, target_width: u32) -> (r: bool)
        ensures
            r == self.fits(text@, scale, target_width),
    {
        self.width(text, scale) <= self.extent_of(target_width) as u128
    }
}

} // verus!
