//! Kinds of tokens of the sample language, and one tokenized unit.

use vstd::prelude::*;

verus! {

/// The kind of a token.
#[derive(Clone, Copy, Debug, PartialEq, Eq, Structural, Hash)]
pub enum Token {
    Eof,
    Eol,
    Space,
    Comment,
    Number,
    Ident,
    Other,
    // Keywords.
    Enum,
    Let,
    Match,
    Struct,
    Underscore,
    // Punctuation.
    /// (
    LeftParen,
    /// )
    RightParen,
    /// <
    LeftAngle,
    /// >
    RightAngle,
    /// [
    LeftBracket,
    /// ]
    RightBracket,
    /// {
    LeftBrace,
    /// }
    RightBrace,
    /// :
    Colon,
    /// ,
    Comma,
    /// .
    Dot,
    /// =
    Equal,
    /// -
    Minus,
    /// ;
    Semi,
}

/// Is the token kind trivia that may lead a token?
pub open spec fn spec_is_leading_trivia(t: Token) -> bool {
    t == Token::Eol || spec_is_trailing_trivia(t)
}

/// Is the token kind trivia that may trail a token?
pub open spec fn spec_is_trailing_trivia(t: Token) -> bool {
    t == Token::Space || t == Token::Comment || t == Token::Other
}

impl Token {
    /// Is this kind trivia that may lead a token?
    pub fn is_leading_trivia(self) -> (r: bool)
        ensures
            r == spec_is_leading_trivia(self),
    {
        self == Token::Eol || self.is_trailing_trivia()
    }

    /// Is this kind trivia that may trail a token?
    pub fn is_trailing_trivia(self) -> (r: bool)
        ensures
            r == spec_is_trailing_trivia(self),
    {
        self == Token::Space || self == Token::Comment || self == Token::Other
    }

    /// Is this kind trivia at all? Everything that may trail may also
    /// lead, so leading trivia is all of it.
    pub fn is_trivia(self) -> (r: bool)
        ensures
            r == spec_is_leading_trivia(self),
    {
        self.is_leading_trivia()
    }
}

/// One token: its kind and its text.
#[derive(Debug)]
pub struct TokenData {
    pub token: Token,
    pub text: Vec<char>,
}

/// Model of a [`TokenData`].
#[verifier::ext_equal]
pub struct TokenDataV {
    pub token: Token,
    pub text: Seq<char>,
}

impl View for TokenData {
    type V = TokenDataV;

    open spec fn view(&self) -> TokenDataV {
        TokenDataV { token: self.token, text: self.text@ }
    }
}

impl TokenData {
    /// Make a token from its kind and text.
    pub fn new(token: Token, text: Vec<char>) -> (r: TokenData)
        ensures
            r@ == (TokenDataV { token: token, text: text@ }),
    {
        TokenData { token, text }
    }

    /// The token's kind.
    pub fn token(&self) -> (r: Token)
        ensures
            r == self.token,
    {
        self.token
    }

    /// The token's text.
    pub fn text(&self) -> (r: &Vec<char>)
        ensures
            r@ == self.text@,
    {
        &self.text
    }
}

/// The models of a sequence of tokens, elementwise.
pub open spec fn tokens_view(ts: Seq<TokenData>) -> Seq<TokenDataV>
    decreases ts,
{
    if ts.len() == 0 {
        Seq::empty()
    } else {
        tokens_view(ts.drop_last()).push(ts.last()@)
    }
}

/// `tokens_view` maps elementwise.
pub proof fn lemma_tokens_view(ts: Seq<TokenData>)
    ensures
        tokens_view(ts).len() == ts.len(),
        forall|i: int| 0 <= i < ts.len() ==> #[trigger] tokens_view(ts)[i] == ts[i]@,
    decreases ts,
{
    if ts.len() > 0 {
        lemma_tokens_view(ts.drop_last());
    }
}

} // verus!
