//! The entry point: from a text to the instructions that draw it.

use crate::analysis::Segmenter;
use crate::fit::fit;
use crate::fit::fit_tokens;
use crate::fit::fitted_rows;
use crate::fit::wrapped_rows;
use crate::fit::FitConfig;
use crate::fit::Row;
use crate::fit::ScaleResult;
use crate::metrics::GlyphMetrics;
use crate::place::drawn_text;
use crate::place::is_placement;
use crate::place::place;
use crate::place::Color;
use crate::place::DrawInstruction;
use crate::scale::Scale;
use crate::scale::STEPS_PER_PIXEL;
use crate::token::texts;
use crate::token::Token;
use lindera_core::error::LinderaError;
use vstd::prelude::*;

verus! {

/// Width of the card, in pixels.
pub const CANVAS_WIDTH: u32 = 1200;

/// Height of the card, in pixels.
pub const CANVAS_HEIGHT: u32 = 630;

/// Width that the body text may take, in pixels.
pub const TARGET_WIDTH: u32 = 630;

/// Scale of wrapped body text, in pixels.
pub const WRAP_SCALE: u32 = 80;

/// Scale at which text is measured before it is fitted, in pixels.
pub const BASE_SCALE: u32 = 50;

/// Largest scale at which fitted text stays on one line, in pixels.
pub const MAX_SCALE: u32 = 70;

/// Largest scale of fitted text on one line, in pixels.
pub const HARD_CAP_SCALE: u32 = 100;

/// How far the first half of a split text is lifted, in pixels.
pub const SPLIT_LIFT: i32 = 10;

/// How the lines and the scale of a text are chosen.
#[derive(Clone, Copy, Debug, PartialEq, Eq, Structural)]
pub enum Strategy {
    /// The tokens of the text are wrapped at a fixed scale.
    Wrap,
    /// The scale is chosen so that the text fills the target width, on one
    /// line or in two halves.
    Fill,
}

/// The parameters of a layout.
#[derive(Clone, Copy, Debug)]
pub struct LayoutConfig {
    pub strategy: Strategy,
    pub canvas_width: u32,
    pub canvas_height: u32,
    /// The scale of wrapped text.
    pub wrap_scale: Scale,
    /// The scales of fitted text.
    pub fit: FitConfig,
}

impl LayoutConfig {
    /// The layout of the standard card: text wrapped at 80 pixels on a
    /// canvas of 1200 by 630, and, for fitted text, a base of 50, at most
    /// 70 on one line and a cap of 100 pixels.
    pub fn standard() -> (r: LayoutConfig)
        ensures
            r.strategy == Strategy::Wrap,
            r.canvas_width == CANVAS_WIDTH,
            r.canvas_height == CANVAS_HEIGHT,
            r.wrap_scale@ == WRAP_SCALE * STEPS_PER_PIXEL,
            r.fit.base_scale@ == BASE_SCALE * STEPS_PER_PIXEL,
            r.fit.max_scale@ == MAX_SCALE * STEPS_PER_PIXEL,
            r.fit.hard_cap_scale@ == HARD_CAP_SCALE * STEPS_PER_PIXEL,
            r.fit.upper_offset == -SPLIT_LIFT,
            r.fit.lower_offset == 0,
    {
        LayoutConfig {
            strategy: Strategy::Wrap,
            canvas_width: CANVAS_WIDTH,
            canvas_height: CANVAS_HEIGHT,
            wrap_scale: Scale::from_pixels(WRAP_SCALE).unwrap(),
            fit: FitConfig {
                base_scale: Scale::from_pixels(BASE_SCALE).unwrap(),
                max_scale: Scale::from_pixels(MAX_SCALE).unwrap(),
                hard_cap_scale: Scale::from_pixels(HARD_CAP_SCALE).unwrap(),
                upper_offset: -SPLIT_LIFT,
                lower_offset: 0,
            },
        }
    }
}

/// The rows that a strategy makes of a text and its tokens.
pub open spec fn layout_rows(
    metrics: GlyphMetrics,
    config: LayoutConfig,
    text: Seq<char>,
    tokens: Seq<Seq<char>>,
    target_width: u32,
) -> Seq<Row> {
    match config.strategy {
        Strategy::Wrap => wrapped_rows(metrics, tokens, target_width, config.wrap_scale),
        Strategy::Fill => fitted_rows(metrics, text, target_width, config.fit),
    }
}

/// Chooses lines and scales for a text by the configured strategy: its
/// tokens wrapped at the fixed scale, or the text fitted to the width.
pub fn fit_auto(
    metrics: &GlyphMetrics,
    config: &LayoutConfig,
    text: &str,
    tokens: &Vec<Token>,
    target_width: u32,
) -> (r: ScaleResult)
    ensures
        r@ == layout_rows(*metrics, *config, text@, texts(tokens@), target_width),
        texts(tokens@).flatten() == text@ ==> r.text() == text@,
{
    match config.strategy {
        Strategy::Wrap => fit_tokens(metrics, tokens, target_width, config.wrap_scale),
        Strategy::Fill => fit(metrics, text, target_width, &config.fit),
    }
}

/// Lays out a text that has been split into tokens, and places it.
pub fn layout_tokens(
    metrics: &GlyphMetrics,
    config: &LayoutConfig,
    text: &str,
    tokens: &Vec<Token>,
    target_width: u32,
    color: Color,
) -> (out: Vec<DrawInstruction>)
    ensures
        is_placement(
            *metrics,
            layout_rows(*metrics, *config, text@, texts(tokens@), target_width),
            config.canvas_width,
            config.canvas_height,
            color,
            out@,
        ),
        texts(tokens@).flatten() == text@ ==> drawn_text(out@) == text@,
{
    let fitted = fit_auto(metrics, config, text, tokens, target_width);
    place(metrics, &fitted, config.canvas_width, config.canvas_height, color)
}

/// A font, a way to split text, and the parameters of the layout.
pub struct LayoutEngine {
    pub metrics: GlyphMetrics,
    pub segmenter: Segmenter,
    pub config: LayoutConfig,
}

impl LayoutEngine {
    /// Whether the analyzer is to be asked about a text before it is laid
    /// out: text is wrapped, and the segmenter is by dictionary.
    pub fn needs_analysis(&self) -> (r: bool)
        ensures
            r == (self.config.strategy == Strategy::Wrap && self.segmenter is Dictionary),
    {
        match self.config.strategy {
            Strategy::Wrap => self.segmenter.asks_analyzer(),
            Strategy::Fill => false,
        }
    }

    /// Lays out a text within a target width and gives the instructions that
    /// draw it, one for each line, from top to bottom. `analysis` is what
    /// the analyzer made of the text, if it was asked.
    ///
    /// The instructions draw the characters of the text, all of them, in
    /// order. They place the rows that the strategy makes of the text and of
    /// the segmenter's tokens.
    pub fn layout_text(
        &self,
        text: &str,
        analysis: Option<Result<Vec<String>, LinderaError>>,
        target_width: u32,
        color: Color,
    ) -> (out: Vec<DrawInstruction>)
        ensures
            drawn_text(out@) == text@,
            is_placement(
                self.metrics,
                layout_rows(
                    self.metrics,
                    self.config,
                    text@,
                    self.segmenter.segmented(text@, analysis),
                    target_width,
                ),
                self.config.canvas_width,
                self.config.canvas_height,
                color,
                out@,
            ),
    {
        match self.config.strategy {
            Strategy::Wrap => {
                let tokens = self.segmenter.segment(text, analysis);
                layout_tokens(&self.metrics, &self.config, text, &tokens, target_width, color)
            },
            Strategy::Fill => {
                let fitted = fit(&self.metrics, text, target_width, &self.config.fit);
                place(
                    &self.metrics,
                    &fitted,
                    self.config.canvas_width,
                    self.config.canvas_height,
                    color,
                )
            },
        }
    }
}

} // verus!
