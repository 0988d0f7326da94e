//! The tokenizer's working state, and tokenizing whole sources.

use vstd::prelude::*;

use crate::token::{lemma_tokens_view, tokens_view, Token, TokenData, TokenDataV};

verus! {

/// The tokenizer's working state: the source characters, the start of the
/// text not yet committed to a token, the read cursor, and the tokens
/// committed so far.
pub struct TokenizeContext {
    pub source: Vec<char>,
    pub committed: usize,
    pub cursor: usize,
    pub tokens: Vec<TokenData>,
}

/// Model of a [`TokenizeContext`].
#[verifier::ext_equal]
pub struct CtxV {
    pub source: Seq<char>,
    pub committed: int,
    pub cursor: int,
    pub tokens: Seq<TokenDataV>,
}

impl View for TokenizeContext {
    type V = CtxV;

    open spec fn view(&self) -> CtxV {
        CtxV {
            source: self.source@,
            committed: self.committed as int,
            cursor: self.cursor as int,
            tokens: tokens_view(self.tokens@),
        }
    }
}

/// Basic sanity of the working state.
pub open spec fn ctx_wf(cv: CtxV) -> bool {
    0 <= cv.committed <= cv.cursor <= cv.source.len()
}

/// Between tokenization rules, everything read so far is committed.
pub open spec fn ctx_settled(cv: CtxV) -> bool {
    ctx_wf(cv) && cv.committed == cv.cursor
}

/// The character at the cursor, or the null character at the end.
pub open spec fn spec_next(cv: CtxV) -> char {
    if 0 <= cv.cursor < cv.source.len() {
        cv.source[cv.cursor]
    } else {
        '\u{0}'
    }
}

/// The state after committing everything up to `end` as one token of the
/// given kind.
pub open spec fn tok_emit(cv: CtxV, token: Token, end: int) -> CtxV {
    CtxV {
        source: cv.source,
        committed: end,
        cursor: end,
        tokens: cv.tokens.push(TokenDataV { token: token, text: cv.source.subrange(cv.cursor, end) }),
    }
}

impl TokenizeContext {
    /// Start tokenizing the given source.
    pub fn new(source: Vec<char>) -> (r: TokenizeContext)
        ensures
            r@ == (CtxV { source: source@, committed: 0, cursor: 0, tokens: Seq::<TokenDataV>::empty() }),
    {
        let r = TokenizeContext { source, committed: 0, cursor: 0, tokens: Vec::new() };
        proof {
            assert(tokens_view(Seq::<TokenData>::empty()) =~= Seq::<TokenDataV>::empty());
            assert(r@ =~~= (CtxV {
                source: r.source@,
                committed: 0,
                cursor: 0,
                tokens: Seq::<TokenDataV>::empty(),
            }));
        }
        r
    }

    /// Has the cursor reached the end of the source?
    pub fn at_eof(&self) -> (r: bool)
        ensures
            r == (self@.cursor >= self@.source.len()),
    {
        self.cursor >= self.source.len()
    }

    /// The character at the cursor, or the null character at the end.
    pub fn next(&self) -> (r: char)
        requires
            ctx_wf(self@),
        ensures
            r == spec_next(self@),
    {
        if self.cursor < self.source.len() {
            self.source[self.cursor]
        } else {
            '\u{0}'
        }
    }

    /// Advance the cursor by one character.
    pub fn bump(&mut self)
        requires
            ctx_wf(old(self)@),
            old(self)@.cursor < old(self)@.source.len(),
        ensures
            final(self)@ == (CtxV { cursor: old(self)@.cursor + 1, ..old(self)@ }),
    {
        let n = self.source.len();
        proof {
            assert(self.cursor < n);
        }
        self.cursor = self.cursor + 1;
    }

    /// Consume the given character if it is next.
    pub fn eat(&mut self, expected: char) -> (r: bool)
        requires
            ctx_wf(old(self)@),
        ensures
            r == (old(self)@.cursor < old(self)@.source.len() && spec_next(old(self)@) == expected),
            r ==> final(self)@ == (CtxV { cursor: old(self)@.cursor + 1, ..old(self)@ }),
            !r ==> final(self)@ == old(self)@,
    {
        if self.cursor < self.source.len() && self.source[self.cursor] == expected {
            self.cursor = self.cursor + 1;
            true
        } else {
            false
        }
    }

    /// Consume the given two characters if they are next.
    pub fn eat_pair(&mut self, a: char, b: char) -> (r: bool)
        requires
            ctx_wf(old(self)@),
        ensures
            r == (old(self)@.cursor + 1 < old(self)@.source.len()
                && old(self)@.source[old(self)@.cursor] == a
                && old(self)@.source[old(self)@.cursor + 1] == b),
            r ==> final(self)@ == (CtxV { cursor: old(self)@.cursor + 2, ..old(self)@ }),
            !r ==> final(self)@ == old(self)@,
    {
        let n = self.source.len();
        if self.cursor < n && n - self.cursor >= 2 && self.source[self.cursor] == a
            && self.source[self.cursor + 1] == b {
            self.cursor = self.cursor + 2;
            true
        } else {
            false
        }
    }

    /// The text read since the last commit.
    pub fn current_text(&self) -> (r: Vec<char>)
        requires
            ctx_wf(self@),
        ensures
            r@ == self@.source.subrange(self@.committed, self@.cursor),
    {
        let mut r: Vec<char> = Vec::new();
        let mut i = self.committed;
        while i < self.cursor
            invariant
                ctx_wf(self@),
                self@.committed <= i as int <= self@.cursor,
                r@ == self@.source.subrange(self@.committed, i as int),
            decreases self@.cursor - i,
        {
            r.push(self.source[i]);
            i = i + 1;
            proof {
                assert(r@ =~= self@.source.subrange(self@.committed, i as int));
            }
        }
        proof {
            assert(r@ =~= self@.source.subrange(self@.committed, self@.cursor));
        }
        r
    }

    /// The cursor's position.
    pub fn current_index(&self) -> (r: usize)
        ensures
            r as int == self@.cursor,
    {
        self.cursor
    }

    /// Commit everything read since the last commit as one token of the
    /// given kind.
    pub fn commit(&mut self, token: Token)
        requires
            ctx_wf(old(self)@),
            old(self)@.committed < old(self)@.cursor,
        ensures
            final(self)@ == tok_emit(
                CtxV { cursor: old(self)@.committed, ..old(self)@ },
                token,
                old(self)@.cursor,
            ),
            ctx_settled(final(self)@),
    {
        let text = self.current_text();
        let ghost pre = self.tokens@;
        self.tokens.push(TokenData { token, text });
        self.committed = self.cursor;
        proof {
            assert(self.tokens@.drop_last() =~= pre);
            assert(tokens_view(self.tokens@) == tokens_view(pre).push(self.tokens@.last()@));
            assert(final(self)@ =~~= tok_emit(
                CtxV { cursor: old(self)@.committed, ..old(self)@ },
                token,
                old(self)@.cursor,
            ));
        }
    }

    /// Hand out the tokens.
    pub fn finish(self) -> (r: Vec<TokenData>)
        ensures
            tokens_view(r@) == self@.tokens,
    {
        self.tokens
    }
}

} // verus!
