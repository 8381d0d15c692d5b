//! Splitting text into tokens along permissible break points.

use crate::token::texts;
use crate::token::Token;
use vstd::prelude::*;
use vstd::std_specs::iter::IteratorSpec;
use vstd::string::*;

verus! {

broadcast use {Seq::lemma_flatten_push, vstd::string::group_string_axioms};

/// `String::push` of the standard library: it appends the character to the
/// end of the string.
pub assume_specification[ String::push ](s: &mut String, c: char)
    ensures
        final(s)@ == old(s)@.push(c),
;

/// Whether a character is white space: one of the characters that Unicode
/// gives the property White_Space. They are the controls U+0009 to U+000D
/// and U+0085, the space and the no-break space, U+1680, the spaces U+2000
/// to U+200A, the line and the paragraph separator, U+202F, U+205F, and the
/// ideographic space U+3000.
pub open spec fn is_space(c: char) -> bool {
    let code = c as u32;
    ||| 0x0009 <= code <= 0x000d
    ||| code == 0x0020
    ||| code == 0x0085
    ||| code == 0x00a0
    ||| code == 0x1680
    ||| 0x2000 <= code <= 0x200a
    ||| code == 0x2028
    ||| code == 0x2029
    ||| code == 0x202f
    ||| code == 0x205f
    ||| code == 0x3000
}

/// Whether a character is white space.
pub fn is_space_char(c: char) -> (r: bool)
    ensures
        r == is_space(c),
{
    let code = c as u32;
    (0x0009 <= code && code <= 0x000d) || code == 0x0020 || code == 0x0085 || code == 0x00a0
        || code == 0x1680 || (0x2000 <= code && code <= 0x200a) || code == 0x2028 || code
        == 0x2029 || code == 0x202f || code == 0x205f || code == 0x3000
}

/// Segmentation by rule, for text that no analyzer has segmented.
#[derive(Clone, Copy, Debug, PartialEq, Eq, Structural)]
pub enum Fallback {
    /// One token per character: safe for any script.
    Characters,
    /// A token ends where white space is followed by other text: for scripts
    /// that put spaces between words.
    Words,
}

/// What makes `tokens` a segmentation of `text`: the tokens, joined in
/// order, are the text, and none of them is empty.
pub open spec fn is_segmentation(text: Seq<char>, tokens: Seq<Seq<char>>) -> bool {
    &&& tokens.flatten() == text
    &&& forall|k: int| 0 <= k < tokens.len() ==> (#[trigger] tokens[k]).len() >= 1
}

/// Whether the rule lets a line break fall between `before` and `after`,
/// two characters that follow each other.
pub open spec fn breaks_between(rule: Fallback, before: char, after: char) -> bool {
    match rule {
        Fallback::Characters => true,
        Fallback::Words => is_space(before) && !is_space(after),
    }
}

/// The tokens that a rule makes of a text: a new token starts at the first
/// character and wherever the rule lets a break fall.
pub open spec fn segments(rule: Fallback, text: Seq<char>) -> Seq<Seq<char>>
    decreases text.len(),
{
    if text.len() == 0 {
        Seq::<Seq<char>>::empty()
    } else if text.len() == 1 {
        seq![text]
    } else {
        let before = segments(rule, text.drop_last());
        if breaks_between(rule, text[text.len() - 2], text.last()) {
            before.push(seq![text.last()])
        } else {
            before.drop_last().push(before.last().push(text.last()))
        }
    }
}

/// What the rule makes of a text is a segmentation of it, made of as many
/// tokens as the text has places where a token starts.
pub proof fn lemma_segments_is_segmentation(rule: Fallback, text: Seq<char>)
    ensures
        is_segmentation(text, segments(rule, text)),
        text.len() > 0 ==> segments(rule, text).len() > 0,
    decreases text.len(),
{
    let tokens = segments(rule, text);
    if text.len() == 0 {
        assert(tokens.flatten() =~= text);
    } else if text.len() == 1 {
        assert(tokens =~= Seq::<Seq<char>>::empty().push(text));
        assert(tokens.flatten() =~= text);
    } else {
        let before = segments(rule, text.drop_last());
        lemma_segments_is_segmentation(rule, text.drop_last());
        assert(before =~= before.drop_last().push(before.last()));
        assert(text =~= text.drop_last().push(text.last()));
        if breaks_between(rule, text[text.len() - 2], text.last()) {
            assert(before.flatten() + seq![text.last()] =~= text);
        } else {
            assert(before.drop_last().flatten() + before.last().push(text.last()) =~= (
            before.drop_last().flatten() + before.last()).push(text.last()));
            assert(tokens.flatten() =~= text);
            assert forall|k: int| 0 <= k < tokens.len() implies (#[trigger] tokens[k]).len()
                >= 1 by {
                if k < tokens.len() - 1 {
                    assert(tokens[k] == before[k]);
                }
            }
        }
    }
}

/// What makes `tokens` the tokens that a rule makes of `text`: they are a
/// segmentation of the text, the rule lets a break fall between each token
/// and the next, and nowhere within a token.
pub open spec fn is_split_by(rule: Fallback, text: Seq<char>, tokens: Seq<Seq<char>>) -> bool {
    &&& is_segmentation(text, tokens)
    &&& forall|k: int, j: int|
        0 <= k < tokens.len() && 1 <= j < tokens[k].len() ==> !breaks_between(
            rule,
            #[trigger] tokens[k][j - 1],
            #[trigger] tokens[k][j],
        )
    &&& forall|k: int|
        1 <= k < tokens.len() ==> breaks_between(
            rule,
            tokens[k - 1].last(),
            (#[trigger] tokens[k])[0],
        )
}

/// The tokens of a rule end where the rule lets a break fall, and nowhere
/// else. The last token ends with the last character of the text.
pub proof fn lemma_segments_split_by_rule(rule: Fallback, text: Seq<char>)
    ensures
        is_split_by(rule, text, segments(rule, text)),
        text.len() > 0 ==> segments(rule, text).len() > 0 && segments(rule, text).last().len() > 0
            && segments(rule, text).last().last() == text.last(),
    decreases text.len(),
{
    let tokens = segments(rule, text);
    lemma_segments_is_segmentation(rule, text);
    if text.len() >= 2 {
        let before = segments(rule, text.drop_last());
        lemma_segments_split_by_rule(rule, text.drop_last());
        lemma_segments_is_segmentation(rule, text.drop_last());
        let n = before.len();
        if breaks_between(rule, text[text.len() - 2], text.last()) {
            assert forall|k: int, j: int|
                0 <= k < tokens.len() && 1 <= j < tokens[k].len() implies !breaks_between(
                rule,
                #[trigger] tokens[k][j - 1],
                #[trigger] tokens[k][j],
            ) by {
                assert(k < n);
                assert(tokens[k] == before[k]);
            }
            assert forall|k: int| 1 <= k < tokens.len() implies breaks_between(
                rule,
                tokens[k - 1].last(),
                (#[trigger] tokens[k])[0],
            ) by {
                assert(tokens[k - 1] == before[k - 1]);
                if k < n {
                    assert(tokens[k] == before[k]);
                }
            }
        } else {
            assert forall|k: int, j: int|
                0 <= k < tokens.len() && 1 <= j < tokens[k].len() implies !breaks_between(
                rule,
                #[trigger] tokens[k][j - 1],
                #[trigger] tokens[k][j],
            ) by {
                if k < n - 1 {
                    assert(tokens[k] == before[k]);
                } else if j < tokens[k].len() - 1 {
                    assert(tokens[k][j] == before[k][j]);
                    assert(tokens[k][j - 1] == before[k][j - 1]);
                }
            }
            assert forall|k: int| 1 <= k < tokens.len() implies breaks_between(
                rule,
                tokens[k - 1].last(),
                (#[trigger] tokens[k])[0],
            ) by {
                assert(tokens[k - 1] == before[k - 1]);
                assert(tokens[k][0] == before[k][0]);
            }
        }
    }
}

/// Character by character, every token is one character of the text.
pub proof fn lemma_segments_characters(text: Seq<char>)
    ensures
        segments(Fallback::Characters, text) == Seq::new(text.len(), |i: int| seq![text[i]]),
    decreases text.len(),
{
    let tokens = segments(Fallback::Characters, text);
    let singles = Seq::new(text.len(), |i: int| seq![text[i]]);
    if text.len() == 0 {
        assert(tokens =~= singles);
    } else if text.len() == 1 {
        assert(text =~= seq![text[0]]);
        assert(tokens =~= singles);
    } else {
        lemma_segments_characters(text.drop_last());
        assert(tokens =~= singles);
    }
}

/// Splits a text into tokens by rule.
pub fn split(rule: Fallback, text: &str) -> (tokens: Vec<Token>)
    ensures
        texts(tokens@) == segments(rule, text@),
        is_split_by(rule, text@, texts(tokens@)),
{
    let mut tokens: Vec<Token> = Vec::new();
    let mut current = String::new();
    let mut previous: char = ' ';
    let mut started = false;
    for c in it: text.chars()
        invariant
            it.seq() == text@,
            started == (it.index() > 0),
            it.index() > 0 ==> previous == text@[it.index() - 1],
            it.index() == 0 ==> tokens@.len() == 0 && current@.len() == 0,
            it.index() > 0 ==> texts(tokens@).push(current@) == segments(
                rule,
                text@.take(it.index() as int),
            ),
    {
        let ghost i = it.index() as int;
        let breaks = match rule {
            Fallback::Characters => true,
            Fallback::Words => is_space_char(previous) && !is_space_char(c),
        };
        proof {
            assert(text@.take(i + 1).drop_last() =~= text@.take(i));
            assert(text@.take(i + 1).last() == c);
            if i > 0 {
                assert(text@.take(i + 1)[i - 1] == previous);
                let before = texts(tokens@).push(current@);
                assert(before.last() == current@);
                assert(before.drop_last() =~= texts(tokens@));
            } else {
                assert(text@.take(1) =~= seq![c]);
                assert(Seq::<char>::empty().push(c) =~= seq![c]);
                assert(texts(tokens@) =~= Seq::<Seq<char>>::empty());
                assert(texts(tokens@).push(seq![c]) =~= seq![seq![c]]);
            }
            assert(texts(tokens@.push(Token { text: current })) =~= texts(tokens@).push(current@));
        }
        if !started {
            current.push(c);
            started = true;
            proof {
                assert(current@ =~= seq![c]);
                assert(segments(rule, text@.take(i + 1)) =~= seq![seq![c]]);
            }
        } else if breaks {
            tokens.push(Token { text: current });
            current = String::new();
            current.push(c);
            proof {
                assert(current@ =~= seq![c]);
            }
        } else {
            current.push(c);
        }
        previous = c;
        proof {
            assert(texts(tokens@).push(current@) =~= segments(rule, text@.take(i + 1)));
        }
    }
    proof {
        assert(text@.take(text@.len() as int) =~= text@);
        lemma_segments_split_by_rule(rule, text@);
        assert(texts(tokens@.push(Token { text: current })) =~= texts(tokens@).push(current@));
        if text@.len() == 0 {
            assert(texts(tokens@) =~= Seq::<Seq<char>>::empty());
        }
    }
    if started {
        tokens.push(Token { text: current });
    }
    tokens
}

} // verus!
