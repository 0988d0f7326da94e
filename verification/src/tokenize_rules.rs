//! The tokenization rules: character classes and one rule per token
//! shape. Each round of [`tokenize_all`] runs every rule once, in order.

use vstd::prelude::*;

use crate::keyword::spec_parse_keyword;
use crate::token::Token;
use crate::tokenize::{ctx_settled, ctx_wf, spec_next, tok_emit, CtxV, TokenizeContext};

verus! {

/// Is the character whitespace other than a line break? Besides blank
/// and tab, the ideographic space counts.
pub open spec fn spec_is_space(c: char) -> bool {
    c == ' ' || c == '\t' || c == '\u{3000}'
}

/// Is the character a decimal digit?
pub open spec fn spec_is_digit(c: char) -> bool {
    '0' as u32 <= c as u32 <= '9' as u32
}

/// May the character continue an identifier?
pub open spec fn spec_is_ident(c: char) -> bool {
    spec_is_digit(c) || ('a' as u32 <= c as u32 <= 'z' as u32) || (
    'A' as u32 <= c as u32 <= 'Z' as u32) || c == '_'
}

/// May the character begin an identifier?
pub open spec fn spec_is_ident_first(c: char) -> bool {
    spec_is_ident(c) && !spec_is_digit(c)
}

/// May the character begin a punctuation token?
pub open spec fn spec_is_pun_first(c: char) -> bool {
    crate::pun::spec_parse_pun_char(c) is Some
}

/// Is the character uninterpretable: able to begin only an `Other` token?
pub open spec fn spec_is_other_first(c: char) -> bool {
    c != '\r' && c != '\n' && !spec_is_space(c) && c != '/' && !spec_is_digit(c)
        && !spec_is_ident_first(c) && !spec_is_pun_first(c)
}

/// Is the character no line break?
pub open spec fn spec_is_not_eol(c: char) -> bool {
    c != '\r' && c != '\n'
}

/// Is the character whitespace other than a line break?
pub fn char_is_space(c: char) -> (r: bool)
    ensures
        r == spec_is_space(c),
{
    c == ' ' || c == '\t' || c == '\u{3000}'
}

/// May the character continue an identifier?
pub fn char_is_ident(c: char) -> (r: bool)
    ensures
        r == spec_is_ident(c),
{
    let u = c as u32;
    (48 <= u && u <= 57) || (97 <= u && u <= 122) || (65 <= u && u <= 90) || c == '_'
}

/// May the character begin an identifier?
pub fn char_is_ident_first(c: char) -> (r: bool)
    ensures
        r == spec_is_ident_first(c),
{
    let u = c as u32;
    char_is_ident(c) && !(48 <= u && u <= 57)
}

/// May the character begin a punctuation token?
pub fn char_is_pun_first(c: char) -> (r: bool)
    ensures
        r == spec_is_pun_first(c),
{
    Token::parse_pun_char(c).is_some()
}

/// Is the character uninterpretable?
pub fn char_is_other_first(c: char) -> (r: bool)
    ensures
        r == spec_is_other_first(c),
{
    let u = c as u32;
    (c != '\r' && c != '\n') && !char_is_space(c) && c != '/' && !(48 <= u && u <= 57)
        && !char_is_ident_first(c) && !char_is_pun_first(c)
}

/// Is the character a decimal digit?
fn char_is_digit(c: char) -> (r: bool)
    ensures
        r == spec_is_digit(c),
{
    let u = c as u32;
    48 <= u && u <= 57
}

/// The end of the run of characters satisfying `pred`, from `i` on.
pub open spec fn run_end(s: Seq<char>, i: int, pred: spec_fn(char) -> bool) -> int
    decreases s.len() - i,
{
    if !(0 <= i < s.len()) || !pred(s[i]) {
        i
    } else {
        run_end(s, i + 1, pred)
    }
}

/// A run stays within the source.
pub proof fn lemma_run_end(s: Seq<char>, i: int, pred: spec_fn(char) -> bool)
    requires
        0 <= i <= s.len(),
    ensures
        i <= run_end(s, i, pred) <= s.len(),
    decreases s.len() - i,
{
    if i < s.len() && pred(s[i]) {
        lemma_run_end(s, i + 1, pred);
    }
}

/// Consume every `\r\n` pair at the cursor, one `Eol` token each.
pub open spec fn spec_eol_crlf(cv: CtxV) -> CtxV
    decreases cv.source.len() - cv.cursor,
{
    if 0 <= cv.cursor && cv.cursor + 1 < cv.source.len() && cv.source[cv.cursor] == '\r'
        && cv.source[cv.cursor + 1] == '\n' {
        spec_eol_crlf(tok_emit(cv, Token::Eol, cv.cursor + 2))
    } else {
        cv
    }
}

/// Consume every `\n` at the cursor, one `Eol` token each.
pub open spec fn spec_eol_lf(cv: CtxV) -> CtxV
    decreases cv.source.len() - cv.cursor,
{
    if 0 <= cv.cursor && cv.cursor < cv.source.len() && cv.source[cv.cursor] == '\n' {
        spec_eol_lf(tok_emit(cv, Token::Eol, cv.cursor + 1))
    } else {
        cv
    }
}

/// The line break rule.
pub open spec fn spec_tokenize_eol(cv: CtxV) -> CtxV {
    spec_eol_lf(spec_eol_crlf(cv))
}

/// The whitespace rule: a maximal run of space characters is one `Space`
/// token.
pub open spec fn spec_tokenize_space(cv: CtxV) -> CtxV {
    if ctx_wf(cv) && spec_is_space(spec_next(cv)) && cv.cursor < cv.source.len() {
        tok_emit(cv, Token::Space, run_end(cv.source, cv.cursor, |c: char| spec_is_space(c)))
    } else {
        cv
    }
}

/// The comment rule: `//` and everything to the end of the line is one
/// `Comment` token.
pub open spec fn spec_tokenize_comment(cv: CtxV) -> CtxV {
    if ctx_wf(cv) && cv.cursor + 1 < cv.source.len() && cv.source[cv.cursor] == '/'
        && cv.source[cv.cursor + 1] == '/' {
        tok_emit(cv, Token::Comment, run_end(cv.source, cv.cursor + 2, |c: char| spec_is_not_eol(c)))
    } else {
        cv
    }
}

/// The number rule: a maximal run of digits is one `Number` token.
pub open spec fn spec_tokenize_number(cv: CtxV) -> CtxV {
    if ctx_wf(cv) && spec_is_digit(spec_next(cv)) && cv.cursor < cv.source.len() {
        tok_emit(cv, Token::Number, run_end(cv.source, cv.cursor, |c: char| spec_is_digit(c)))
    } else {
        cv
    }
}

/// The identifier rule: a maximal run of identifier characters, starting
/// with a non-digit, is one token: the keyword it spells, or `Ident`.
pub open spec fn spec_tokenize_ident(cv: CtxV) -> CtxV {
    if ctx_wf(cv) && spec_is_ident_first(spec_next(cv)) && cv.cursor < cv.source.len() {
        let end = run_end(cv.source, cv.cursor, |c: char| spec_is_ident(c));
        let token = match spec_parse_keyword(cv.source.subrange(cv.cursor, end)) {
            Some(k) => k,
            None => Token::Ident,
        };
        tok_emit(cv, token, end)
    } else {
        cv
    }
}

/// One punctuation sub-rule: consume the character as its token if it is
/// next.
pub open spec fn spec_eat_pun(cv: CtxV, c: char, token: Token) -> CtxV {
    if ctx_wf(cv) && cv.cursor < cv.source.len() && cv.source[cv.cursor] == c {
        tok_emit(cv, token, cv.cursor + 1)
    } else {
        cv
    }
}

/// The punctuation rule: try each punctuation character once, in a fixed
/// order.
pub open spec fn spec_tokenize_pun(cv: CtxV) -> CtxV {
    let cv = spec_eat_pun(cv, '(', Token::LeftParen);
    let cv = spec_eat_pun(cv, ')', Token::RightParen);
    let cv = spec_eat_pun(cv, '<', Token::LeftAngle);
    let cv = spec_eat_pun(cv, '>', Token::RightAngle);
    let cv = spec_eat_pun(cv, '[', Token::LeftBracket);
    let cv = spec_eat_pun(cv, ']', Token::RightBracket);
    let cv = spec_eat_pun(cv, '{', Token::LeftBrace);
    let cv = spec_eat_pun(cv, '}', Token::RightBrace);
    let cv = spec_eat_pun(cv, ':', Token::Colon);
    let cv = spec_eat_pun(cv, ',', Token::Comma);
    let cv = spec_eat_pun(cv, '.', Token::Dot);
    let cv = spec_eat_pun(cv, '=', Token::Equal);
    let cv = spec_eat_pun(cv, '-', Token::Minus);
    spec_eat_pun(cv, ';', Token::Semi)
}

/// The rule of last resort: a maximal run of uninterpretable characters
/// is one `Other` token.
pub open spec fn spec_tokenize_other(cv: CtxV) -> CtxV {
    if ctx_wf(cv) && cv.cursor < cv.source.len() && spec_is_other_first(spec_next(cv)) {
        tok_emit(cv, Token::Other, run_end(cv.source, cv.cursor, |c: char| spec_is_other_first(c)))
    } else {
        cv
    }
}

/// One round of tokenization: every rule once, in order.
pub open spec fn spec_round(cv: CtxV) -> CtxV {
    spec_tokenize_other(spec_tokenize_pun(spec_tokenize_ident(spec_tokenize_number(
        spec_tokenize_comment(spec_tokenize_space(spec_tokenize_eol(cv))),
    ))))
}

/// No rule rewinds: the cursor never moves back, the source never
/// changes, and the state stays settled.
pub proof fn lemma_eol_crlf_advances(cv: CtxV)
    requires
        ctx_settled(cv),
    ensures
        ctx_settled(spec_eol_crlf(cv)),
        spec_eol_crlf(cv).source == cv.source,
        spec_eol_crlf(cv).cursor >= cv.cursor,
    decreases cv.source.len() - cv.cursor,
{
    if 0 <= cv.cursor && cv.cursor + 1 < cv.source.len() && cv.source[cv.cursor] == '\r'
        && cv.source[cv.cursor + 1] == '\n' {
        lemma_eol_crlf_advances(tok_emit(cv, Token::Eol, cv.cursor + 2));
    }
}

/// As [`lemma_eol_crlf_advances`], for the `\n` sub-rule.
pub proof fn lemma_eol_lf_advances(cv: CtxV)
    requires
        ctx_settled(cv),
    ensures
        ctx_settled(spec_eol_lf(cv)),
        spec_eol_lf(cv).source == cv.source,
        spec_eol_lf(cv).cursor >= cv.cursor,
    decreases cv.source.len() - cv.cursor,
{
    if 0 <= cv.cursor && cv.cursor < cv.source.len() && cv.source[cv.cursor] == '\n' {
        lemma_eol_lf_advances(tok_emit(cv, Token::Eol, cv.cursor + 1));
    }
}

/// A whole round never rewinds: the cursor never moves back, the source
/// never changes, and the state stays settled.
/// The whitespace rule never rewinds.
pub proof fn lemma_space_advances(cv: CtxV)
    requires
        ctx_settled(cv),
    ensures
        ctx_settled(spec_tokenize_space(cv)),
        spec_tokenize_space(cv).source == cv.source,
        spec_tokenize_space(cv).cursor >= cv.cursor,
{
    if ctx_wf(cv) && spec_is_space(spec_next(cv)) && cv.cursor < cv.source.len() {
        lemma_run_end(cv.source, cv.cursor, |c: char| spec_is_space(c));
    }
}

/// The comment rule never rewinds.
pub proof fn lemma_comment_advances(cv: CtxV)
    requires
        ctx_settled(cv),
    ensures
        ctx_settled(spec_tokenize_comment(cv)),
        spec_tokenize_comment(cv).source == cv.source,
        spec_tokenize_comment(cv).cursor >= cv.cursor,
{
    if ctx_wf(cv) && cv.cursor + 1 < cv.source.len() && cv.source[cv.cursor] == '/'
        && cv.source[cv.cursor + 1] == '/' {
        lemma_run_end(cv.source, cv.cursor + 2, |c: char| spec_is_not_eol(c));
    }
}

/// The number rule never rewinds.
pub proof fn lemma_number_advances(cv: CtxV)
    requires
        ctx_settled(cv),
    ensures
        ctx_settled(spec_tokenize_number(cv)),
        spec_tokenize_number(cv).source == cv.source,
        spec_tokenize_number(cv).cursor >= cv.cursor,
{
    if ctx_wf(cv) && spec_is_digit(spec_next(cv)) && cv.cursor < cv.source.len() {
        lemma_run_end(cv.source, cv.cursor, |c: char| spec_is_digit(c));
    }
}

/// The identifier rule never rewinds.
pub proof fn lemma_ident_advances(cv: CtxV)
    requires
        ctx_settled(cv),
    ensures
        ctx_settled(spec_tokenize_ident(cv)),
        spec_tokenize_ident(cv).source == cv.source,
        spec_tokenize_ident(cv).cursor >= cv.cursor,
{
    if ctx_wf(cv) && spec_is_ident_first(spec_next(cv)) && cv.cursor < cv.source.len() {
        lemma_run_end(cv.source, cv.cursor, |c: char| spec_is_ident(c));
    }
}

/// The punctuation rule never rewinds.
pub proof fn lemma_pun_advances(cv: CtxV)
    requires
        ctx_settled(cv),
    ensures
        ctx_settled(spec_tokenize_pun(cv)),
        spec_tokenize_pun(cv).source == cv.source,
        spec_tokenize_pun(cv).cursor >= cv.cursor,
{
}

/// The rule of last resort never rewinds.
pub proof fn lemma_other_advances(cv: CtxV)
    requires
        ctx_settled(cv),
    ensures
        ctx_settled(spec_tokenize_other(cv)),
        spec_tokenize_other(cv).source == cv.source,
        spec_tokenize_other(cv).cursor >= cv.cursor,
{
    if ctx_wf(cv) && cv.cursor < cv.source.len() && spec_is_other_first(spec_next(cv)) {
        lemma_run_end(cv.source, cv.cursor, |c: char| spec_is_other_first(c));
    }
}

/// A whole round never rewinds: the cursor never moves back, the source
/// never changes, and the state stays settled.
pub proof fn lemma_round_advances(cv: CtxV)
    requires
        ctx_settled(cv),
    ensures
        ctx_settled(spec_round(cv)),
        spec_round(cv).source == cv.source,
        spec_round(cv).cursor >= cv.cursor,
{
    lemma_eol_crlf_advances(cv);
    lemma_eol_lf_advances(spec_eol_crlf(cv));
    let c1 = spec_tokenize_eol(cv);
    lemma_space_advances(c1);
    let c2 = spec_tokenize_space(c1);
    lemma_comment_advances(c2);
    let c3 = spec_tokenize_comment(c2);
    lemma_number_advances(c3);
    let c4 = spec_tokenize_number(c3);
    lemma_ident_advances(c4);
    let c5 = spec_tokenize_ident(c4);
    lemma_pun_advances(c5);
    let c6 = spec_tokenize_pun(c5);
    lemma_other_advances(c6);
}

/// Can the source be tokenized from this state on? Each round must make
/// progress; a state where no rule fires would be a tokenizer bug made
/// fatal, and is excluded up front.
pub open spec fn spec_can_tokenize(cv: CtxV) -> bool
    decreases cv.source.len() - cv.cursor,
{
    if !ctx_settled(cv) {
        false
    } else if cv.cursor >= cv.source.len() {
        true
    } else if spec_round(cv).cursor <= cv.cursor {
        false
    } else {
        proof {
            lemma_round_advances(cv);
        }
        spec_can_tokenize(spec_round(cv))
    }
}

/// Run rounds until the end of the source. A state from which a round
/// makes no progress is left as it stands; executable code excludes it.
pub open spec fn spec_tokenize_all(cv: CtxV) -> CtxV
    decreases cv.source.len() - cv.cursor,
{
    if !ctx_settled(cv) {
        cv
    } else if cv.cursor >= cv.source.len() {
        cv
    } else if spec_round(cv).cursor <= cv.cursor {
        spec_round(cv)
    } else {
        proof {
            lemma_round_advances(cv);
        }
        spec_tokenize_all(spec_round(cv))
    }
}

/// Consume the line breaks at the cursor, one `Eol` token each.
pub fn tokenize_eol(t: &mut TokenizeContext)
    requires
        ctx_settled(old(t)@),
    ensures
        final(t)@ == spec_tokenize_eol(old(t)@),
        ctx_settled(final(t)@),
{
    loop
        invariant
            ctx_settled(t@),
            spec_eol_crlf(old(t)@) == spec_eol_crlf(t@),
        ensures
            ctx_settled(t@),
            t@ == spec_eol_crlf(old(t)@),
        decreases t@.source.len() - t@.cursor,
    {
        let ghost pre = t@;
        if !t.eat_pair('\r', '\n') {
            proof {
                assert(spec_eol_crlf(t@) == t@);
            }
            break;
        }
        t.commit(Token::Eol);
        proof {
            assert(t@ == tok_emit(pre, Token::Eol, pre.cursor + 2));
            assert(spec_eol_crlf(pre) == spec_eol_crlf(t@));
        }
    }
    let ghost mid = t@;
    loop
        invariant
            ctx_settled(t@),
            spec_eol_lf(mid) == spec_eol_lf(t@),
        ensures
            ctx_settled(t@),
            t@ == spec_eol_lf(mid),
        decreases t@.source.len() - t@.cursor,
    {
        let ghost pre = t@;
        if !t.eat('\n') {
            proof {
                assert(spec_eol_lf(t@) == t@);
            }
            break;
        }
        t.commit(Token::Eol);
        proof {
            assert(t@ == tok_emit(pre, Token::Eol, pre.cursor + 1));
            assert(spec_eol_lf(pre) == spec_eol_lf(t@));
        }
    }
}

/// Consume whitespace at the cursor as one `Space` token.
pub fn tokenize_space(t: &mut TokenizeContext)
    requires
        ctx_settled(old(t)@),
    ensures
        final(t)@ == spec_tokenize_space(old(t)@),
        ctx_settled(final(t)@),
{
    if char_is_space(t.next()) {
        let ghost cv0 = old(t)@;
        proof {
            assert(cv0.cursor < cv0.source.len());
        }
        loop
            invariant
                ctx_wf(t@),
                t@.source == cv0.source,
                t@.committed == cv0.committed,
                t@.tokens == cv0.tokens,
                cv0.cursor <= t@.cursor,
                run_end(cv0.source, cv0.cursor, |c: char| spec_is_space(c)) == run_end(
                    t@.source,
                    t@.cursor,
                    |c: char| spec_is_space(c),
                ),
            ensures
                ctx_wf(t@),
                t@.source == cv0.source,
                t@.committed == cv0.committed,
                t@.tokens == cv0.tokens,
                t@.cursor == run_end(cv0.source, cv0.cursor, |c: char| spec_is_space(c)),
            decreases t@.source.len() - t@.cursor,
        {
            let c = t.next();
            if !char_is_space(c) {
                proof {
                    assert(run_end(t@.source, t@.cursor, |c: char| spec_is_space(c)) == t@.cursor);
                }
                break;
            }
            proof {
                assert(t@.cursor < t@.source.len());
            }
            t.bump();
        }
        proof {
            assert(run_end(cv0.source, cv0.cursor, |c: char| spec_is_space(c)) == run_end(
                cv0.source,
                cv0.cursor + 1,
                |c: char| spec_is_space(c),
            ));
            lemma_run_end(cv0.source, cv0.cursor + 1, |c: char| spec_is_space(c));
            assert(cv0.committed < t@.cursor);
        }
        t.commit(Token::Space);
    }
}

/// Consume a comment at the cursor as one `Comment` token.
pub fn tokenize_comment(t: &mut TokenizeContext)
    requires
        ctx_settled(old(t)@),
    ensures
        final(t)@ == spec_tokenize_comment(old(t)@),
        ctx_settled(final(t)@),
{
    if t.eat_pair('/', '/') {
        let ghost cv0 = old(t)@;
        loop
            invariant
                ctx_wf(t@),
                t@.source == cv0.source,
                t@.committed == cv0.committed,
                t@.tokens == cv0.tokens,
                cv0.cursor + 2 <= t@.cursor,
                run_end(cv0.source, cv0.cursor + 2, |c: char| spec_is_not_eol(c)) == run_end(
                    t@.source,
                    t@.cursor,
                    |c: char| spec_is_not_eol(c),
                ),
            ensures
                t@.cursor == run_end(cv0.source, cv0.cursor + 2, |c: char| spec_is_not_eol(c)),
            decreases t@.source.len() - t@.cursor,
        {
            if t.at_eof() {
                proof {
                    assert(run_end(t@.source, t@.cursor, |c: char| spec_is_not_eol(c)) == t@.cursor);
                }
                break;
            }
            let c = t.next();
            if c == '\r' || c == '\n' {
                proof {
                    assert(run_end(t@.source, t@.cursor, |c: char| spec_is_not_eol(c)) == t@.cursor);
                }
                break;
            }
            t.bump();
        }
        proof {
            lemma_run_end(cv0.source, cv0.cursor + 2, |c: char| spec_is_not_eol(c));
            assert(cv0.committed < t@.cursor);
        }
        t.commit(Token::Comment);
    }
}

/// Consume digits at the cursor as one `Number` token.
pub fn tokenize_number(t: &mut TokenizeContext)
    requires
        ctx_settled(old(t)@),
    ensures
        final(t)@ == spec_tokenize_number(old(t)@),
        ctx_settled(final(t)@),
{
    if char_is_digit(t.next()) {
        let ghost cv0 = old(t)@;
        proof {
            assert(cv0.cursor < cv0.source.len());
        }
        loop
            invariant
                ctx_wf(t@),
                t@.source == cv0.source,
                t@.committed == cv0.committed,
                t@.tokens == cv0.tokens,
                cv0.cursor <= t@.cursor,
                run_end(cv0.source, cv0.cursor, |c: char| spec_is_digit(c)) == run_end(
                    t@.source,
                    t@.cursor,
                    |c: char| spec_is_digit(c),
                ),
            ensures
                ctx_wf(t@),
                t@.source == cv0.source,
                t@.committed == cv0.committed,
                t@.tokens == cv0.tokens,
                t@.cursor == run_end(cv0.source, cv0.cursor, |c: char| spec_is_digit(c)),
            decreases t@.source.len() - t@.cursor,
        {
            let c = t.next();
            if !char_is_digit(c) {
                proof {
                    assert(run_end(t@.source, t@.cursor, |c: char| spec_is_digit(c)) == t@.cursor);
                }
                break;
            }
            proof {
                assert(t@.cursor < t@.source.len());
            }
            t.bump();
        }
        proof {
            assert(run_end(cv0.source, cv0.cursor, |c: char| spec_is_digit(c)) == run_end(
                cv0.source,
                cv0.cursor + 1,
                |c: char| spec_is_digit(c),
            ));
            lemma_run_end(cv0.source, cv0.cursor + 1, |c: char| spec_is_digit(c));
            assert(cv0.committed < t@.cursor);
        }
        t.commit(Token::Number);
    }
}

/// Consume an identifier or keyword at the cursor as one token.
pub fn tokenize_ident(t: &mut TokenizeContext)
    requires
        ctx_settled(old(t)@),
    ensures
        final(t)@ == spec_tokenize_ident(old(t)@),
        ctx_settled(final(t)@),
{
    if char_is_ident_first(t.next()) {
        let ghost cv0 = old(t)@;
        proof {
            assert(cv0.cursor < cv0.source.len());
            lemma_run_end(cv0.source, cv0.cursor, |c: char| spec_is_ident(c));
        }
        loop
            invariant
                ctx_wf(t@),
                t@.source == cv0.source,
                t@.committed == cv0.committed,
                t@.tokens == cv0.tokens,
                cv0.cursor <= t@.cursor,
                run_end(cv0.source, cv0.cursor, |c: char| spec_is_ident(c)) == run_end(
                    t@.source,
                    t@.cursor,
                    |c: char| spec_is_ident(c),
                ),
            ensures
                t@.cursor == run_end(cv0.source, cv0.cursor, |c: char| spec_is_ident(c)),
            decreases t@.source.len() - t@.cursor,
        {
            let c = t.next();
            if !char_is_ident(c) {
                proof {
                    assert(run_end(t@.source, t@.cursor, |c: char| spec_is_ident(c)) == t@.cursor);
                }
                break;
            }
            proof {
                assert(t@.cursor < t@.source.len());
            }
            t.bump();
        }
        let text = t.current_text();
        let token = match Token::parse_keyword(&text) {
            Some(k) => k,
            None => Token::Ident,
        };
        proof {
            assert(run_end(cv0.source, cv0.cursor, |c: char| spec_is_ident(c)) == run_end(
                cv0.source,
                cv0.cursor + 1,
                |c: char| spec_is_ident(c),
            ));
            lemma_run_end(cv0.source, cv0.cursor + 1, |c: char| spec_is_ident(c));
            assert(cv0.committed < t@.cursor);
        }
        t.commit(token);
    }
}

/// Consume the punctuation at the cursor, trying each character once in
/// a fixed order.
pub fn tokenize_pun(t: &mut TokenizeContext)
    requires
        ctx_settled(old(t)@),
    ensures
        final(t)@ == spec_tokenize_pun(old(t)@),
        ctx_settled(final(t)@),
{
    eat_pun(t, '(', Token::LeftParen);
    eat_pun(t, ')', Token::RightParen);
    eat_pun(t, '<', Token::LeftAngle);
    eat_pun(t, '>', Token::RightAngle);
    eat_pun(t, '[', Token::LeftBracket);
    eat_pun(t, ']', Token::RightBracket);
    eat_pun(t, '{', Token::LeftBrace);
    eat_pun(t, '}', Token::RightBrace);
    eat_pun(t, ':', Token::Colon);
    eat_pun(t, ',', Token::Comma);
    eat_pun(t, '.', Token::Dot);
    eat_pun(t, '=', Token::Equal);
    eat_pun(t, '-', Token::Minus);
    eat_pun(t, ';', Token::Semi);
}

/// Consume one punctuation character as its token if it is next.
fn eat_pun(t: &mut TokenizeContext, c: char, token: Token)
    requires
        ctx_settled(old(t)@),
    ensures
        final(t)@ == spec_eat_pun(old(t)@, c, token),
        ctx_settled(final(t)@),
{
    if t.eat(c) {
        t.commit(token);
    }
}

/// Consume uninterpretable characters at the cursor as one `Other`
/// token.
pub fn tokenize_other(t: &mut TokenizeContext)
    requires
        ctx_settled(old(t)@),
    ensures
        final(t)@ == spec_tokenize_other(old(t)@),
        ctx_settled(final(t)@),
{
    if !t.at_eof() && char_is_other_first(t.next()) {
        let ghost cv0 = old(t)@;
        loop
            invariant
                ctx_wf(t@),
                t@.source == cv0.source,
                t@.committed == cv0.committed,
                t@.tokens == cv0.tokens,
                cv0.cursor <= t@.cursor,
                run_end(cv0.source, cv0.cursor, |c: char| spec_is_other_first(c)) == run_end(
                    t@.source,
                    t@.cursor,
                    |c: char| spec_is_other_first(c),
                ),
            ensures
                t@.cursor == run_end(cv0.source, cv0.cursor, |c: char| spec_is_other_first(c)),
            decreases t@.source.len() - t@.cursor,
        {
            if t.at_eof() {
                proof {
                    assert(run_end(t@.source, t@.cursor, |c: char| spec_is_other_first(c)) == t@.cursor);
                }
                break;
            }
            let c = t.next();
            if !char_is_other_first(c) {
                proof {
                    assert(run_end(t@.source, t@.cursor, |c: char| spec_is_other_first(c)) == t@.cursor);
                }
                break;
            }
            t.bump();
        }
        proof {
            assert(run_end(cv0.source, cv0.cursor, |c: char| spec_is_other_first(c)) == run_end(
                cv0.source,
                cv0.cursor + 1,
                |c: char| spec_is_other_first(c),
            ));
            lemma_run_end(cv0.source, cv0.cursor + 1, |c: char| spec_is_other_first(c));
            assert(cv0.committed < t@.cursor);
        }
        t.commit(Token::Other);
    }
}

/// Tokenize the whole source: run every rule, in order, round after
/// round. A round that consumes nothing means the character at the
/// cursor fits no rule; tokenization stops there, and on a source that
/// can be tokenized that never happens and the whole source is consumed.
pub fn tokenize_all(t: &mut TokenizeContext)
    requires
        ctx_settled(old(t)@),
    ensures
        final(t)@ == spec_tokenize_all(old(t)@),
        ctx_settled(final(t)@),
        spec_can_tokenize(old(t)@) ==> final(t)@.cursor == final(t)@.source.len(),
{
    loop
        invariant_except_break
            spec_tokenize_all(t@) == spec_tokenize_all(old(t)@),
        invariant
            ctx_settled(t@),
            spec_can_tokenize(old(t)@) ==> spec_can_tokenize(t@),
        ensures
            ctx_settled(t@),
            t@ == spec_tokenize_all(old(t)@),
            spec_can_tokenize(old(t)@) ==> t@.cursor == t@.source.len(),
        decreases t@.source.len() - t@.cursor,
    {
        if t.at_eof() {
            proof {
                assert(spec_tokenize_all(t@) == t@);
            }
            break;
        }
        let ghost prev = t@;
        let start_index = t.current_index();
        tokenize_eol(t);
        tokenize_space(t);
        tokenize_comment(t);
        tokenize_number(t);
        tokenize_ident(t);
        tokenize_pun(t);
        tokenize_other(t);
        proof {
            assert(t@ == spec_round(prev));
            lemma_round_advances(prev);
        }
        if t.current_index() == start_index {
            // No rule accepted the character at the cursor.
            proof {
                assert(spec_tokenize_all(prev) == spec_round(prev));
                assert(!spec_can_tokenize(prev));
            }
            break;
        }
    }
}

/// Tokenize a whole source into its tokens.
pub fn tokenize(source: Vec<char>) -> (r: Vec<crate::token::TokenData>)
    ensures
        crate::token::tokens_view(r@) == spec_tokenize_all(
            CtxV { source: source@, committed: 0, cursor: 0, tokens: Seq::empty() },
        ).tokens,
{
    let mut t = TokenizeContext::new(source);
    tokenize_all(&mut t);
    t.finish()
}

} // verus!
