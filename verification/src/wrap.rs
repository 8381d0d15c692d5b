//! Greedy packing of tokens into lines of a bounded width.

use crate::metrics::GlyphMetrics;
use crate::scale::Scale;
use crate::token::line_views;
use crate::token::texts;
use crate::token::Line;
use crate::token::Token;
use vstd::prelude::*;
use vstd::seq_lib::lemma_flatten_concat;

verus! {

broadcast use Seq::lemma_flatten_push;

/// The lines that a single greedy pass makes of `tokens`.
///
/// A token joins the last line where the line stays within `target_width`
/// pixels with it; else it starts a new line, however wide it is. No tokens
/// give one empty line.
pub open spec fn wrap_lines(
    metrics: GlyphMetrics,
    tokens: Seq<Seq<char>>,
    target_width: u32,
    scale: Scale,
) -> Seq<Seq<Seq<char>>>
    decreases tokens.len(),
{
    if tokens.len() == 0 {
        seq![Seq::<Seq<char>>::empty()]
    } else {
        let before = wrap_lines(metrics, tokens.drop_last(), target_width, scale);
        let token = tokens.last();
        let current = before.last();
        if metrics.fits(current.flatten() + token, scale, target_width) {
            before.drop_last().push(current.push(token))
        } else {
            before.push(seq![token])
        }
    }
}

/// What makes `lines` the greedy wrapping of `tokens`.
///
/// The lines hold the tokens in order. Only the first line can be empty.
/// The first line, and every line of two or more tokens, is within the
/// target width. No line could have taken the first token of the next.
pub open spec fn is_greedy_wrap(
    metrics: GlyphMetrics,
    tokens: Seq<Seq<char>>,
    lines: Seq<Seq<Seq<char>>>,
    target_width: u32,
    scale: Scale,
) -> bool {
    &&& lines.len() >= 1
    &&& lines.flatten() == tokens
    &&& forall|k: int|
        0 <= k < lines.len() && (k == 0 || (#[trigger] lines[k]).len() >= 2) ==> metrics.fits(
            lines[k].flatten(),
            scale,
            target_width,
        )
    &&& forall|k: int|
        1 <= k < lines.len() ==> (#[trigger] lines[k]).len() >= 1 && !metrics.fits(
            lines[k - 1].flatten() + lines[k][0],
            scale,
            target_width,
        )
}

/// The greedy pass keeps every token, in order, and its lines are greedy:
/// every line of more than one token is within the target width, and only a
/// line of a single token can exceed it.
pub proof fn lemma_wrap_lines_greedy(
    metrics: GlyphMetrics,
    tokens: Seq<Seq<char>>,
    target_width: u32,
    scale: Scale,
)
    requires
        metrics.wf(),
    ensures
        is_greedy_wrap(
            metrics,
            tokens,
            wrap_lines(metrics, tokens, target_width, scale),
            target_width,
            scale,
        ),
    decreases tokens.len(),
{
    let lines = wrap_lines(metrics, tokens, target_width, scale);
    if tokens.len() == 0 {
        let none = Seq::<Seq<char>>::empty();
        assert(lines =~= Seq::<Seq<Seq<char>>>::empty().push(none));
        assert(lines.flatten() =~= tokens);
        assert(none.flatten() =~= Seq::<char>::empty());
        metrics.lemma_units_empty();
        assert(metrics.extent(target_width) >= 0) by (nonlinear_arith)
            requires
                metrics.extent(target_width) == target_width * (64 * metrics.vertical().height()),
                metrics.vertical().height() > 0,
        ;
    } else {
        let before = wrap_lines(metrics, tokens.drop_last(), target_width, scale);
        lemma_wrap_lines_greedy(metrics, tokens.drop_last(), target_width, scale);
        let token = tokens.last();
        let current = before.last();
        assert(before =~= before.drop_last().push(current));
        assert(tokens =~= tokens.drop_last().push(token));
        if metrics.fits(current.flatten() + token, scale, target_width) {
            assert(lines.flatten() =~= tokens);
            assert(current.push(token).flatten() =~= current.flatten() + token);
            assert forall|k: int|
                0 <= k < lines.len() && (k == 0 || (#[trigger] lines[k]).len()
                    >= 2) implies metrics.fits(lines[k].flatten(), scale, target_width) by {
                if k < lines.len() - 1 {
                    assert(lines[k] == before[k]);
                }
            }
            assert forall|k: int| 1 <= k < lines.len() implies (#[trigger] lines[k]).len() >= 1
                && !metrics.fits(lines[k - 1].flatten() + lines[k][0], scale, target_width) by {
                assert(lines[k - 1] == before[k - 1]);
                assert(before[k].len() >= 1);
                assert(lines[k][0] == before[k][0]);
            }
        } else {
            assert(lines.flatten() =~= tokens);
            assert forall|k: int|
                0 <= k < lines.len() && (k == 0 || (#[trigger] lines[k]).len()
                    >= 2) implies metrics.fits(lines[k].flatten(), scale, target_width) by {
                if k < lines.len() - 1 {
                    assert(lines[k] == before[k]);
                }
            }
            assert forall|k: int| 1 <= k < lines.len() implies (#[trigger] lines[k]).len() >= 1
                && !metrics.fits(lines[k - 1].flatten() + lines[k][0], scale, target_width) by {
                assert(lines[k - 1] == before[k - 1]);
                if k < lines.len() - 1 {
                    assert(lines[k] == before[k]);
                }
            }
        }
    }
}

/// A line of a greedy wrapping that is wider than the target width is not
/// the first line and holds exactly one token, which alone is too wide.
pub proof fn lemma_wide_line_is_one_token(
    metrics: GlyphMetrics,
    tokens: Seq<Seq<char>>,
    lines: Seq<Seq<Seq<char>>>,
    target_width: u32,
    scale: Scale,
    k: int,
)
    requires
        is_greedy_wrap(metrics, tokens, lines, target_width, scale),
        0 <= k < lines.len(),
        !metrics.fits(lines[k].flatten(), scale, target_width),
    ensures
        k >= 1,
        lines[k].len() == 1,
        !metrics.fits(lines[k][0], scale, target_width),
{
    assert(lines[k] =~= Seq::<Seq<char>>::empty().push(lines[k][0]));
    assert(lines[k].flatten() =~= lines[k][0]);
}

/// What makes `lines` a wrapping of `tokens`, greedy or not: the lines hold
/// the tokens in order, only the first line can be empty, and the first
/// line and every line of two or more tokens is within the target width.
pub open spec fn is_wrapping(
    metrics: GlyphMetrics,
    tokens: Seq<Seq<char>>,
    lines: Seq<Seq<Seq<char>>>,
    target_width: u32,
    scale: Scale,
) -> bool {
    &&& lines.len() >= 1
    &&& lines.flatten() == tokens
    &&& forall|k: int|
        0 <= k < lines.len() && (k == 0 || (#[trigger] lines[k]).len() >= 2) ==> metrics.fits(
            lines[k].flatten(),
            scale,
            target_width,
        )
    &&& forall|k: int| 1 <= k < lines.len() ==> (#[trigger] lines[k]).len() >= 1
}

/// The number of tokens in the first `k` lines.
pub open spec fn tokens_before(lines: Seq<Seq<Seq<char>>>, k: int) -> int {
    lines.take(k).flatten().len() as int
}

/// Line `k` holds the tokens that follow those of the lines before it.
proof fn lemma_tokens_before(lines: Seq<Seq<Seq<char>>>, k: int)
    requires
        0 <= k < lines.len(),
    ensures
        tokens_before(lines, k + 1) == tokens_before(lines, k) + lines[k].len(),
        0 <= tokens_before(lines, k),
        tokens_before(lines, k + 1) <= lines.flatten().len(),
        lines[k] == lines.flatten().subrange(
            tokens_before(lines, k),
            tokens_before(lines, k + 1),
        ),
{
    let head = lines.take(k);
    let tail = lines.skip(k + 1);
    assert(lines.take(k + 1) =~= head.push(lines[k]));
    assert(lines.take(k + 1).flatten() =~= head.flatten() + lines[k]);
    assert(lines =~= lines.take(k + 1) + tail);
    lemma_flatten_concat(lines.take(k + 1), tail);
    assert(lines.flatten() =~= head.flatten() + lines[k] + tail.flatten());
    assert(lines[k] =~= lines.flatten().subrange(
        tokens_before(lines, k),
        tokens_before(lines, k + 1),
    ));
}

/// A run of tokens is no wider than a longer run that holds it.
proof fn lemma_inner_run_is_narrower(
    metrics: GlyphMetrics,
    tokens: Seq<Seq<char>>,
    a: int,
    b: int,
    c: int,
    d: int,
)
    requires
        0 <= a <= b <= c <= d <= tokens.len(),
    ensures
        metrics.units(tokens.subrange(b, c).flatten()) <= metrics.units(
            tokens.subrange(a, d).flatten(),
        ),
{
    let left = tokens.subrange(a, b);
    let inner = tokens.subrange(b, c);
    let right = tokens.subrange(c, d);
    assert(tokens.subrange(a, d) =~= left + inner + right);
    lemma_flatten_concat(left, inner);
    lemma_flatten_concat(left + inner, right);
    metrics.lemma_units_concat(left.flatten(), inner.flatten());
    metrics.lemma_units_concat(left.flatten() + inner.flatten(), right.flatten());
}

/// The first `k` lines of a greedy wrapping hold at least as many tokens as
/// the first `k` lines of any wrapping of the same tokens.
proof fn lemma_greedy_stays_ahead(
    metrics: GlyphMetrics,
    tokens: Seq<Seq<char>>,
    greedy: Seq<Seq<Seq<char>>>,
    other: Seq<Seq<Seq<char>>>,
    target_width: u32,
    scale: Scale,
    k: int,
)
    requires
        is_greedy_wrap(metrics, tokens, greedy, target_width, scale),
        is_wrapping(metrics, tokens, other, target_width, scale),
        0 <= k <= greedy.len(),
        k <= other.len(),
    ensures
        tokens_before(greedy, k) >= tokens_before(other, k),
    decreases k,
{
    if k == 0 {
        assert(greedy.take(0) =~= Seq::<Seq<Seq<char>>>::empty());
        assert(other.take(0) =~= Seq::<Seq<Seq<char>>>::empty());
    } else {
        let j = k - 1;
        lemma_greedy_stays_ahead(metrics, tokens, greedy, other, target_width, scale, j);
        lemma_tokens_before(greedy, j);
        lemma_tokens_before(other, j);
        let greedy_from = tokens_before(greedy, j);
        let greedy_to = tokens_before(greedy, k);
        let other_from = tokens_before(other, j);
        let other_to = tokens_before(other, k);
        if greedy_to < other_to {
            if k == greedy.len() {
                assert(greedy.take(k) =~= greedy);
                assert(false);
            }
            lemma_tokens_before(greedy, k);
            assert(greedy[k].len() >= 1);
            assert(greedy[k][0] == tokens[greedy_to]);
            assert(!metrics.fits(greedy[j].flatten() + greedy[k][0], scale, target_width));
            if j == 0 || other[j].len() >= 2 {
                assert(metrics.fits(other[j].flatten(), scale, target_width));
                let run = tokens.subrange(greedy_from, greedy_to + 1);
                assert(run =~= greedy[j].push(tokens[greedy_to]));
                assert(run.flatten() =~= greedy[j].flatten() + tokens[greedy_to]);
                lemma_inner_run_is_narrower(
                    metrics,
                    tokens,
                    other_from,
                    greedy_from,
                    greedy_to + 1,
                    other_to,
                );
                assert(metrics.units(run.flatten()) * scale@ <= metrics.units(other[j].flatten())
                    * scale@) by (nonlinear_arith)
                    requires
                        metrics.units(run.flatten()) <= metrics.units(other[j].flatten()),
                        scale@ >= 0,
                ;
                assert(false);
            } else {
                assert(other[j].len() == 1);
                assert(greedy[j].len() >= 1);
                assert(false);
            }
        }
    }
}

/// No wrapping of the same tokens has fewer lines than the greedy one.
pub proof fn lemma_greedy_wrap_is_shortest(
    metrics: GlyphMetrics,
    tokens: Seq<Seq<char>>,
    greedy: Seq<Seq<Seq<char>>>,
    other: Seq<Seq<Seq<char>>>,
    target_width: u32,
    scale: Scale,
)
    requires
        is_greedy_wrap(metrics, tokens, greedy, target_width, scale),
        is_wrapping(metrics, tokens, other, target_width, scale),
    ensures
        greedy.len() <= other.len(),
{
    let m = other.len() as int;
    if greedy.len() > m {
        lemma_greedy_stays_ahead(metrics, tokens, greedy, other, target_width, scale, m);
        assert(other.take(m) =~= other);
        lemma_tokens_before(greedy, m);
        assert(greedy[m].len() >= 1);
        assert(false);
    }
}

/// Packs `tokens` greedily into lines of at most `target_width` pixels at
/// `scale`. A token wider than the target stands alone on its line.
pub fn wrap(metrics: &GlyphMetrics, tokens: &Vec<Token>, target_width: u32, scale: Scale) -> (lines:
    Vec<Line>)
    ensures
        line_views(lines@) == wrap_lines(*metrics, texts(tokens@), target_width, scale),
        is_greedy_wrap(*metrics, texts(tokens@), line_views(lines@), target_width, scale),
{
    let limit: u128 = metrics.extent_of(target_width) as u128;
    let steps: u128 = scale.steps() as u128;
    let ghost all = texts(tokens@);
    let mut lines: Vec<Line> = Vec::new();
    let mut current: Vec<Token> = Vec::new();
    let mut current_units: u128 = 0;
    proof {
        metrics.lemma_units_empty();
        assert(texts(current@) =~= Seq::<Seq<char>>::empty());
        assert(texts(current@).flatten() =~= Seq::<char>::empty());
        assert(line_views(lines@).push(texts(current@)) =~= seq![Seq::<Seq<char>>::empty()]);
        assert(all.take(0).len() == 0);
    }
    let mut i: usize = 0;
    while i < tokens.len()
        invariant
            i <= tokens.len(),
            all == texts(tokens@),
            limit == metrics.extent(target_width),
            limit < 0x40_0000_0000_0000,
            steps == scale@,
            steps >= 1,
            line_views(lines@).push(texts(current@)) == wrap_lines(
                *metrics,
                all.take(i as int),
                target_width,
                scale,
            ),
            current_units == metrics.units(texts(current@).flatten()),
            current_units <= 0xffff_ffff_ffff_ffff * 0xffff,
        decreases tokens.len() - i,
    {
        let token = tokens[i].clone();
        let units = metrics.measure(token.as_str());
        proof {
            let seen = all.take(i as int);
            let next = all.take(i + 1);
            assert(next.drop_last() =~= seen);
            assert(next.last() == token@);
            metrics.lemma_units_concat(texts(current@).flatten(), token@);
            assert(token@.len() * 0xffff <= 0xffff_ffff_ffff_ffff * 0xffff) by (nonlinear_arith)
                requires
                    token@.len() <= 0xffff_ffff_ffff_ffff,
            ;
            assert((current_units + units) * steps <= 2 * (0xffff_ffff_ffff_ffff * 0xffff)
                * 0xffff_ffff) by (nonlinear_arith)
                requires
                    current_units + units <= 2 * (0xffff_ffff_ffff_ffff * 0xffff),
                    steps <= 0xffff_ffff,
            ;
            let before = line_views(lines@).push(texts(current@));
            assert(before.last() == texts(current@));
            assert(before.drop_last() =~= line_views(lines@));
            assert(texts(current@.push(token)) =~= texts(current@).push(token@));
            assert(texts(seq![token]) =~= seq![token@]);
            assert(seq![token@] =~= Seq::<Seq<char>>::empty().push(token@));
            assert(line_views(lines@.push(Line { tokens: current })) =~= line_views(lines@).push(
                texts(current@),
            ));
        }
        if (current_units + units) * steps <= limit {
            proof {
                assert(current_units + units <= (current_units + units) * steps)
                    by (nonlinear_arith)
                    requires
                        steps >= 1,
                ;
            }
            current.push(token);
            current_units = current_units + units;
        } else {
            lines.push(Line { tokens: current });
            current = Vec::new();
            current.push(token);
            current_units = units;
            proof {
                assert(current@ =~= seq![token]);
                assert(seq![token@].flatten() =~= token@);
            }
        }
        i = i + 1;
    }
    proof {
        assert(all.take(tokens.len() as int) =~= all);
        assert(line_views(lines@.push(Line { tokens: current })) =~= line_views(lines@).push(
            texts(current@),
        ));
        lemma_wrap_lines_greedy(*metrics, all, target_width, scale);
    }
    lines.push(Line { tokens: current });
    lines
}

} // verus!
