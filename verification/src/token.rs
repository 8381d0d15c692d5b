//! Tokens, the indivisible units of text, and lines of tokens.

use vstd::prelude::*;
use vstd::string::*;

verus! {

broadcast use Seq::lemma_flatten_push;

/// An indivisible unit of text: a word, or a single character.
///
/// The view of a token is the text it covers.
#[derive(Debug)]
pub struct Token {
    pub text: String,
}

impl View for Token {
    type V = Seq<char>;

    open spec fn view(&self) -> Seq<char> {
        self.text@
    }
}

impl Clone for Token {
    fn clone(&self) -> (r: Token)
        ensures
            r@ == self@,
    {
        Token { text: self.text.clone() }
    }
}

impl Token {
    /// The token that covers `text`.
    pub fn new(text: &str) -> (r: Token)
        ensures
            r@ == text@,
    {
        Token { text: text.to_owned() }
    }

    /// The text that the token covers.
    pub fn as_str(&self) -> (r: &str)
        ensures
            r@ == self@,
    {
        self.text.as_str()
    }
}

/// The texts of a sequence of tokens, in order.
pub open spec fn texts(tokens: Seq<Token>) -> Seq<Seq<char>> {
    tokens.map_values(|t: Token| t@)
}

/// The tokens of one visual row.
///
/// The view of a line is the sequence of the texts of its tokens.
#[derive(Debug)]
pub struct Line {
    pub tokens: Vec<Token>,
}

impl View for Line {
    type V = Seq<Seq<char>>;

    open spec fn view(&self) -> Seq<Seq<char>> {
        texts(self.tokens@)
    }
}

impl Clone for Line {
    fn clone(&self) -> (r: Line)
        ensures
            r@ == self@,
    {
        let mut tokens: Vec<Token> = Vec::new();
        let mut i: usize = 0;
        while i < self.tokens.len()
            invariant
                i <= self.tokens.len(),
                tokens@.len() == i,
                forall|j: int| 0 <= j < i ==> tokens@[j]@ == self.tokens@[j]@,
            decreases self.tokens.len() - i,
        {
            let t = self.tokens[i].clone();
            tokens.push(t);
            i = i + 1;
        }
        proof {
            assert(texts(tokens@) =~= texts(self.tokens@));
        }
        Line { tokens }
    }
}

/// The views of a sequence of lines, in order.
pub open spec fn line_views(lines: Seq<Line>) -> Seq<Seq<Seq<char>>> {
    lines.map_values(|l: Line| l@)
}

impl Line {
    /// The characters of the line: the texts of its tokens, joined.
    pub open spec fn text(self) -> Seq<char> {
        self@.flatten()
    }

    /// The line without tokens.
    pub fn empty() -> (r: Line)
        ensures
            r@ == Seq::<Seq<char>>::empty(),
            r.text() == Seq::<char>::empty(),
    {
        let r = Line { tokens: Vec::new() };
        proof {
            assert(r@ =~= Seq::<Seq<char>>::empty());
        }
        r
    }

    /// The line that holds `text` as one unit: a single token, or none
    /// where the text is empty.
    pub fn of_text(text: &str) -> (r: Line)
        ensures
            r@ == (if text@.len() == 0 {
                Seq::<Seq<char>>::empty()
            } else {
                seq![text@]
            }),
            r.text() == text@,
    {
        let mut tokens: Vec<Token> = Vec::new();
        if !text.is_empty() {
            tokens.push(Token::new(text));
        }
        let r = Line { tokens };
        proof {
            if text@.len() == 0 {
                assert(r@ =~= Seq::<Seq<char>>::empty());
                assert(r.text() =~= text@);
            } else {
                assert(r@ =~= seq![text@]);
                assert(seq![text@] =~= Seq::<Seq<char>>::empty().push(text@));
                assert(r.text() =~= text@);
            }
        }
        r
    }

    /// The number of tokens of the line.
    pub fn len(&self) -> (r: usize)
        ensures
            r == self@.len(),
    {
        self.tokens.len()
    }

    /// The characters of the line as one string.
    pub fn to_text(&self) -> (r: String)
        ensures
            r@ == self.text(),
    {
        let mut out = String::new();
        let mut i: usize = 0;
        while i < self.tokens.len()
            invariant
                i <= self.tokens.len(),
                out@ == texts(self.tokens@.take(i as int)).flatten(),
            decreases self.tokens.len() - i,
        {
            proof {
                assert(texts(self.tokens@.take(i + 1)) =~= texts(self.tokens@.take(i as int)).push(
                    self.tokens[i as int]@,
                ));
            }
            out.append(self.tokens[i].as_str());
            i = i + 1;
        }
        proof {
            assert(self.tokens@.take(self.tokens.len() as int) =~= self.tokens@);
        }
        out
    }
}

} // verus!
