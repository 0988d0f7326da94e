//! Tests of the tokenizer, highlighting scopes and UTF-16 indices.

use pmxc_analyzer::highlight::{token_scope, tokenize_with_utf16_indices, Scope};
use pmxc_analyzer::token::Token;
use pmxc_analyzer::tokenize_rules::tokenize;

fn chars(s: &str) -> Vec<char> {
    s.chars().collect()
}

fn kinds(s: &str) -> Vec<Token> {
    tokenize(chars(s)).iter().map(|t| t.token).collect()
}

fn texts(s: &str) -> Vec<String> {
    tokenize(chars(s))
        .iter()
        .map(|t| t.text.iter().collect::<String>())
        .collect()
}

#[test]
fn test_tokenize_keywords_and_idents() {
    assert_eq!(
        kinds("enum Boolean"),
        vec![Token::Enum, Token::Space, Token::Ident],
    );
    assert_eq!(
        kinds("match let struct _ x1"),
        vec![
            Token::Match,
            Token::Space,
            Token::Let,
            Token::Space,
            Token::Struct,
            Token::Space,
            Token::Underscore,
            Token::Space,
            Token::Ident,
        ],
    );
}

#[test]
fn test_tokenize_punctuation_and_numbers() {
    assert_eq!(
        kinds("(42,)"),
        vec![
            Token::LeftParen,
            Token::Number,
            Token::Comma,
            Token::RightParen,
        ],
    );
    assert_eq!(texts("{=;}"), vec!["{", "=", ";", "}"]);
}

#[test]
fn test_tokenize_comment_runs_to_line_end() {
    assert_eq!(
        kinds("x // rest\ny"),
        vec![Token::Ident, Token::Space, Token::Comment, Token::Eol, Token::Ident],
    );
    assert_eq!(texts("// only")[0], "// only");
}

#[test]
fn test_tokenize_line_breaks() {
    assert_eq!(kinds("\r\n\n"), vec![Token::Eol, Token::Eol]);
    assert_eq!(texts("a\r\nb"), vec!["a", "\r\n", "b"]);
}

#[test]
fn test_tokenize_other_run() {
    // Uninterpretable characters group into one Other token.
    assert_eq!(kinds("a あめ b"), vec![
        Token::Ident,
        Token::Space,
        Token::Other,
        Token::Space,
        Token::Ident,
    ]);
}

#[test]
fn test_tokenize_is_lossless() {
    let source = "enum Boolean {\n    False,\n    True, // cases\n}\nmatch x { _ => 0 }\n";
    let joined: String = tokenize(chars(source))
        .iter()
        .map(|t| t.text.iter().collect::<String>())
        .collect();
    assert_eq!(joined, source);
}

#[test]
fn test_token_scopes() {
    assert_eq!(token_scope(Token::Comment), Scope::Comment);
    assert_eq!(token_scope(Token::Match), Scope::ControlKeyword);
    assert_eq!(token_scope(Token::Enum), Scope::Keyword);
    assert_eq!(token_scope(Token::Underscore), Scope::Keyword);
    assert_eq!(token_scope(Token::Other), Scope::Invalid);
    assert_eq!(token_scope(Token::Ident), Scope::Plain);
    assert_eq!(token_scope(Token::LeftParen), Scope::Plain);
}

#[test]
fn test_utf16_indices() {
    // 'a' is one UTF-16 unit; the musical symbol takes two.
    let indices = tokenize_with_utf16_indices(chars("a\u{1D11E}b"));
    let got: Vec<(Token, usize)> = indices;
    assert_eq!(got.len(), 3);
    assert_eq!(got[0], (Token::Ident, 0));
    assert_eq!(got[1], (Token::Other, 1));
    assert_eq!(got[2], (Token::Ident, 3));
}

#[test]
fn test_tokenize_stops_at_unreadable_character() {
    // A lone slash fits no rule: tokenization keeps what it has read and
    // stops at that character.
    assert_eq!(kinds("a/b"), vec![Token::Ident]);
    assert_eq!(texts("a/b"), vec!["a"]);
}

#[test]
fn test_parse_keyword_and_pun() {
    assert_eq!(Token::parse_keyword(&chars("enum")), Some(Token::Enum));
    assert_eq!(Token::parse_keyword(&chars("enums")), None);
    assert_eq!(Token::parse_pun(&chars(",")), Some(Token::Comma));
    assert_eq!(Token::parse_pun(&chars(",,")), None);
}
