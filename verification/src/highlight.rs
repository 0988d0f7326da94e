//! Classifying tokens for editor highlighting, and token start indices
//! in UTF-16 code units, as editor buffers count them.

use vstd::prelude::*;

use crate::token::{Token, TokenDataV};

verus! {

/// The highlighting scope of a token.
#[derive(Clone, Copy, Debug, PartialEq, Eq, Structural)]
pub enum Scope {
    Comment,
    ControlKeyword,
    Keyword,
    Invalid,
    Plain,
}

/// The scope of each token kind.
pub open spec fn spec_token_scope(t: Token) -> Scope {
    if t == Token::Comment {
        Scope::Comment
    } else if t == Token::Match {
        Scope::ControlKeyword
    } else if t == Token::Enum || t == Token::Let || t == Token::Struct || t == Token::Underscore {
        Scope::Keyword
    } else if t == Token::Other {
        Scope::Invalid
    } else {
        Scope::Plain
    }
}

/// Classify one token kind for highlighting.
pub fn token_scope(token: Token) -> (r: Scope)
    ensures
        r == spec_token_scope(token),
{
    if token == Token::Comment {
        Scope::Comment
    } else if token.is_control_keyword() {
        Scope::ControlKeyword
    } else if token.is_keyword() {
        Scope::Keyword
    } else if token == Token::Other {
        Scope::Invalid
    } else {
        Scope::Plain
    }
}

/// The length of one character in UTF-16 code units.
pub open spec fn utf16_char_len(c: char) -> int {
    if c as u32 >= 0x10000 {
        2
    } else {
        1
    }
}

/// The length of a text in UTF-16 code units.
pub open spec fn utf16_len(s: Seq<char>) -> int
    decreases s,
{
    if s.len() == 0 {
        0
    } else {
        utf16_len(s.drop_last()) + utf16_char_len(s.last())
    }
}

/// UTF-16 lengths are nonnegative.
pub proof fn lemma_utf16_len_nonneg(s: Seq<char>)
    ensures
        utf16_len(s) >= 0,
    decreases s,
{
    if s.len() > 0 {
        lemma_utf16_len_nonneg(s.drop_last());
    }
}

/// UTF-16 lengths add over concatenation.
pub proof fn lemma_utf16_len_append(a: Seq<char>, b: Seq<char>)
    ensures
        utf16_len(a + b) == utf16_len(a) + utf16_len(b),
    decreases b,
{
    if b.len() == 0 {
        assert(a + b =~= a);
    } else {
        assert((a + b).drop_last() =~= a + b.drop_last());
        assert((a + b).last() == b.last());
        lemma_utf16_len_append(a, b.drop_last());
    }
}

/// The total UTF-16 length of the texts of the tokens from `j` on.
pub open spec fn utf16_total(ts: Seq<TokenDataV>, j: int) -> int
    decreases ts.len() - j,
{
    if j < 0 || j >= ts.len() {
        0
    } else {
        utf16_len(ts[j].text) + utf16_total(ts, j + 1)
    }
}

/// Total UTF-16 lengths are nonnegative.
pub proof fn lemma_utf16_total_nonneg(ts: Seq<TokenDataV>, j: int)
    ensures
        utf16_total(ts, j) >= 0,
    decreases ts.len() - j,
{
    if 0 <= j < ts.len() {
        lemma_utf16_len_nonneg(ts[j].text);
        lemma_utf16_total_nonneg(ts, j + 1);
    }
}

/// Each token's kind with its start position in UTF-16 code units, from
/// token `j` on, starting at offset `off`.
pub open spec fn spec_utf16_indices(ts: Seq<TokenDataV>, j: int, off: int) -> Seq<(Token, int)>
    decreases ts.len() - j,
{
    if j < 0 || j >= ts.len() {
        Seq::empty()
    } else {
        seq![(ts[j].token, off)] + spec_utf16_indices(ts, j + 1, off + utf16_len(ts[j].text))
    }
}

/// The UTF-16 length of a text.
fn utf16_len_of(text: &Vec<char>) -> (r: usize)
    requires
        utf16_len(text@) <= usize::MAX,
    ensures
        r as int == utf16_len(text@),
{
    let mut acc: usize = 0;
    let n = text.len();
    for k in 0..n
        invariant
            n == text.len(),
            utf16_len(text@) <= usize::MAX,
            acc as int == utf16_len(text@.take(k as int)),
    {
        proof {
            assert(text@.take(k + 1).drop_last() =~= text@.take(k as int));
            assert(text@.take(k + 1).last() == text@[k as int]);
            assert(text@.take(k + 1) =~= text@.take(k as int) + seq![text@[k as int]]);
            lemma_utf16_len_append(text@.take(k + 1), text@.skip(k + 1));
            assert(text@.take(k + 1) + text@.skip(k + 1) =~= text@);
            lemma_utf16_len_nonneg(text@.skip(k + 1));
        }
        let c = text[k];
        if c as u32 >= 0x10000 {
            acc = acc + 2;
        } else {
            acc = acc + 1;
        }
    }
    proof {
        assert(text@.take(n as int) =~= text@);
    }
    acc
}

/// Tokenize a whole source and give each token's kind with its start
/// position in UTF-16 code units.
pub fn tokenize_with_utf16_indices(source: Vec<char>) -> (r: Vec<(Token, usize)>)
    requires
        utf16_total(
            crate::tokenize_rules::spec_tokenize_all(
                crate::tokenize::CtxV { source: source@, committed: 0, cursor: 0, tokens: Seq::empty() },
            ).tokens,
            0,
        ) <= usize::MAX,
    ensures
        ({
            let ts = crate::tokenize_rules::spec_tokenize_all(
                crate::tokenize::CtxV { source: source@, committed: 0, cursor: 0, tokens: Seq::empty() },
            ).tokens;
            &&& r@.len() == ts.len()
            &&& forall|i: int| 0 <= i < r@.len() ==> (#[trigger] r@[i]).0 == spec_utf16_indices(ts, 0, 0)[i].0
                && r@[i].1 as int == spec_utf16_indices(ts, 0, 0)[i].1
        }),
{
    let tokens = crate::tokenize_rules::tokenize(source);
    let ghost ts = crate::token::tokens_view(tokens@);
    proof {
        crate::token::lemma_tokens_view(tokens@);
        lemma_spec_utf16_indices(ts, 0, 0);
    }
    let mut r: Vec<(Token, usize)> = Vec::new();
    let mut off: usize = 0;
    let n = tokens.len();
    for i in 0..n
        invariant
            n == tokens.len(),
            ts == crate::token::tokens_view(tokens@),
            ts.len() == n,
            utf16_total(ts, 0) <= usize::MAX,
            off as int + utf16_total(ts, i as int) == utf16_total(ts, 0),
            r@.len() == i,
            forall|k: int| 0 <= k < i ==> (#[trigger] r@[k]).0 == spec_utf16_indices(ts, 0, 0)[k].0
                && r@[k].1 as int == spec_utf16_indices(ts, 0, 0)[k].1,
    {
        proof {
            crate::token::lemma_tokens_view(tokens@);
            lemma_utf16_total_nonneg(ts, i + 1);
            lemma_utf16_len_nonneg(ts[i as int].text);
            lemma_spec_utf16_indices_index(ts, 0, 0, i as int);
        }
        r.push((tokens[i].token, off));
        let tlen = utf16_len_of(&tokens[i].text);
        off = off + tlen;
    }
    proof {
        lemma_spec_utf16_indices(ts, 0, 0);
    }
    r
}

/// `spec_utf16_indices` yields one pair per token.
pub proof fn lemma_spec_utf16_indices(ts: Seq<TokenDataV>, j: int, off: int)
    requires
        0 <= j <= ts.len(),
    ensures
        spec_utf16_indices(ts, j, off).len() == ts.len() - j,
    decreases ts.len() - j,
{
    if j < ts.len() {
        lemma_spec_utf16_indices(ts, j + 1, off + utf16_len(ts[j].text));
    }
}

/// The pair at index `i - j` of the walk from `j` carries token `i`'s
/// kind, at the offset accumulated from `j` to `i`.
pub proof fn lemma_spec_utf16_indices_index(ts: Seq<TokenDataV>, j: int, off: int, i: int)
    requires
        0 <= j <= i < ts.len(),
    ensures
        spec_utf16_indices(ts, j, off).len() == ts.len() - j,
        spec_utf16_indices(ts, j, off)[i - j] == (ts[i].token, off + (utf16_total(ts, j) - utf16_total(ts, i))),
    decreases i - j,
{
    lemma_spec_utf16_indices(ts, j, off);
    lemma_spec_utf16_indices(ts, j + 1, off + utf16_len(ts[j].text));
    if j < i {
        lemma_spec_utf16_indices_index(ts, j + 1, off + utf16_len(ts[j].text), i);
    }
}

} // verus!
