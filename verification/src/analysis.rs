//! What a morphological analyzer made of a text, and what to make of it.
//!
//! The analyzer itself is run by the caller. The library says when to ask
//! it, tests what it returned, and falls back to a rule where that is no
//! segmentation of the text.

use crate::segment::is_segmentation;
use crate::segment::lemma_segments_is_segmentation;
use crate::segment::segments;
use crate::segment::split;
use crate::segment::Fallback;
use crate::token::texts;
use crate::token::Token;
use lindera_core::error::LinderaError;
use vstd::prelude::*;
use vstd::string::*;

verus! {

broadcast use Seq::lemma_flatten_push;

/// `lindera_core::error::LinderaError`, an opaque value that is never
/// looked into.
#[verifier::external_type_specification]
#[verifier::external_body]
pub struct ExLinderaError(LinderaError);

/// Why there is no segmentation of a text by the analyzer.
#[derive(Clone, Copy, Debug, PartialEq, Eq, Structural)]
pub enum SegmentationUnavailable {
    /// No analysis was made: there is no analyzer.
    NoAnalyzer,
    /// The analyzer reported an error.
    AnalysisFailed,
    /// The analyzer's pieces are not a segmentation of the text.
    AnalysisIncomplete,
}

/// The texts of a sequence of strings, in order.
pub open spec fn string_views(pieces: Seq<String>) -> Seq<Seq<char>> {
    pieces.map_values(|s: String| s@)
}

/// The tokens that cover the given pieces, if the pieces are a segmentation
/// of the text.
pub fn accept_pieces(text: &str, pieces: &Vec<String>) -> (r: Option<Vec<Token>>)
    ensures
        r is Some <==> is_segmentation(text@, string_views(pieces@)),
        r matches Some(tokens) ==> texts(tokens@) == string_views(pieces@),
{
    let ghost views = string_views(pieces@);
    let mut tokens: Vec<Token> = Vec::new();
    let mut joined = String::new();
    let mut i: usize = 0;
    while i < pieces.len()
        invariant
            i <= pieces.len(),
            views == string_views(pieces@),
            tokens@.len() == i,
            forall|k: int| 0 <= k < i ==> (#[trigger] tokens@[k])@ == views[k],
            forall|k: int| 0 <= k < i ==> (#[trigger] views[k]).len() >= 1,
            joined@ == views.take(i as int).flatten(),
        decreases pieces.len() - i,
    {
        let piece = pieces[i].as_str();
        if piece.is_empty() {
            proof {
                assert(views[i as int].len() == 0);
            }
            return None;
        }
        proof {
            assert(views.take(i + 1) =~= views.take(i as int).push(views[i as int]));
        }
        joined.append(piece);
        tokens.push(Token::new(piece));
        i = i + 1;
    }
    proof {
        assert(views.take(pieces.len() as int) =~= views);
        assert(texts(tokens@) =~= views);
    }
    let whole = text.to_owned();
    if joined == whole {
        Some(tokens)
    } else {
        None
    }
}

/// Turns the outcome of an analysis into tokens, or into the reason why the
/// analyzer gave no segmentation.
pub fn interpret_analysis(text: &str, outcome: Result<Vec<String>, LinderaError>) -> (r: Result<
    Vec<Token>,
    SegmentationUnavailable,
>)
    ensures
        match outcome {
            Ok(pieces) => match r {
                Ok(tokens) => is_segmentation(text@, string_views(pieces@)) && texts(tokens@)
                    == string_views(pieces@),
                Err(e) => !is_segmentation(text@, string_views(pieces@)) && e
                    == SegmentationUnavailable::AnalysisIncomplete,
            },
            Err(_) => r == Err::<Vec<Token>, SegmentationUnavailable>(
                SegmentationUnavailable::AnalysisFailed,
            ),
        },
{
    match outcome {
        Ok(pieces) => match accept_pieces(text, &pieces) {
            Some(tokens) => Ok(tokens),
            None => Err(SegmentationUnavailable::AnalysisIncomplete),
        },
        Err(_) => Err(SegmentationUnavailable::AnalysisFailed),
    }
}

/// What comes of the analysis of a text: the pieces where they are a
/// segmentation of the text, else the reason why there is none.
pub open spec fn analysis_tokens(
    text: Seq<char>,
    analysis: Option<Result<Vec<String>, LinderaError>>,
) -> Result<Seq<Seq<char>>, SegmentationUnavailable> {
    match analysis {
        None => Err(SegmentationUnavailable::NoAnalyzer),
        Some(Err(_)) => Err(SegmentationUnavailable::AnalysisFailed),
        Some(Ok(pieces)) => if is_segmentation(text, string_views(pieces@)) {
            Ok(string_views(pieces@))
        } else {
            Err(SegmentationUnavailable::AnalysisIncomplete)
        },
    }
}

/// Takes in the analysis of a text, if one was made: its pieces as tokens,
/// or the reason why the analyzer gives no segmentation.
pub fn take_analysis(text: &str, analysis: Option<Result<Vec<String>, LinderaError>>) -> (r: Result<
    Vec<Token>,
    SegmentationUnavailable,
>)
    ensures
        match analysis_tokens(text@, analysis) {
            Ok(pieces) => r matches Ok(tokens) && texts(tokens@) == pieces,
            Err(e) => r == Err::<Vec<Token>, SegmentationUnavailable>(e),
        },
{
    match analysis {
        None => Err(SegmentationUnavailable::NoAnalyzer),
        Some(outcome) => interpret_analysis(text, outcome),
    }
}

/// The tokens to lay out, given what the analyzer made of the text: its
/// segmentation, or the rule's where it gave none.
pub fn resolve_tokens(
    text: &str,
    analyzed: Result<Vec<Token>, SegmentationUnavailable>,
    fallback: Fallback,
) -> (tokens: Vec<Token>)
    ensures
        texts(tokens@) == (match analyzed {
            Ok(found) => texts(found@),
            Err(_) => segments(fallback, text@),
        }),
{
    match analyzed {
        Ok(found) => found,
        Err(_) => split(fallback, text),
    }
}

/// How text is split into tokens.
#[derive(Clone, Copy, Debug, PartialEq, Eq, Structural)]
pub enum Segmenter {
    /// By a morphological analyzer; by the rule where the analyzer gives no
    /// segmentation.
    Dictionary { fallback: Fallback },
    /// By a rule alone.
    Rule(Fallback),
}

impl Segmenter {
    /// The rule that the segmenter splits by, where it splits by rule.
    pub open spec fn rule(self) -> Fallback {
        match self {
            Segmenter::Dictionary { fallback } => fallback,
            Segmenter::Rule(fallback) => fallback,
        }
    }

    /// The tokens of a text, given the analysis that was made of it, if any:
    /// by rule, the rule's tokens; by dictionary, the analyzer's pieces where
    /// they count, else the tokens of the rule to fall back on.
    pub open spec fn segmented(
        self,
        text: Seq<char>,
        analysis: Option<Result<Vec<String>, LinderaError>>,
    ) -> Seq<Seq<char>> {
        match self {
            Segmenter::Rule(rule) => segments(rule, text),
            Segmenter::Dictionary { fallback } => match analysis_tokens(text, analysis) {
                Ok(pieces) => pieces,
                Err(_) => segments(fallback, text),
            },
        }
    }

    /// The segmenter for an analyzer that is there or could not be made: by
    /// dictionary where it is there, by the rule alone where it is not.
    pub fn with_analyzer(available: bool, fallback: Fallback) -> (r: Segmenter)
        ensures
            r == (if available {
                Segmenter::Dictionary { fallback }
            } else {
                Segmenter::Rule(fallback)
            }),
    {
        if available {
            Segmenter::Dictionary { fallback }
        } else {
            Segmenter::Rule(fallback)
        }
    }

    /// Whether the analyzer is to be asked about the texts that are split:
    /// the segmenter is by dictionary.
    pub fn asks_analyzer(&self) -> (r: bool)
        ensures
            r == (self is Dictionary),
    {
        match self {
            Segmenter::Dictionary { .. } => true,
            Segmenter::Rule(_) => false,
        }
    }

    /// Splits a text into tokens, given the analysis that was made of it, if
    /// any. The tokens are a segmentation of the text, whichever way they
    /// were made.
    pub fn segment(&self, text: &str, analysis: Option<Result<Vec<String>, LinderaError>>) -> (tokens:
        Vec<Token>)
        ensures
            texts(tokens@) == self.segmented(text@, analysis),
            is_segmentation(text@, texts(tokens@)),
    {
        match self {
            Segmenter::Dictionary { fallback } => {
                let analyzed = take_analysis(text, analysis);
                proof {
                    lemma_segments_is_segmentation(*fallback, text@);
                }
                resolve_tokens(text, analyzed, *fallback)
            },
            Segmenter::Rule(rule) => split(*rule, text),
        }
    }
}

} // verus!
