//! The sample language's punctuation. Every punctuation token is a
//! single character.

use vstd::prelude::*;

use crate::token::Token;

verus! {

/// The punctuation token of the given character, if it is one.
pub open spec fn spec_parse_pun_char(c: char) -> Option<Token> {
    if c == '(' {
        Some(Token::LeftParen)
    } else if c == ')' {
        Some(Token::RightParen)
    } else if c == '<' {
        Some(Token::LeftAngle)
    } else if c == '>' {
        Some(Token::RightAngle)
    } else if c == '[' {
        Some(Token::LeftBracket)
    } else if c == ']' {
        Some(Token::RightBracket)
    } else if c == '{' {
        Some(Token::LeftBrace)
    } else if c == '}' {
        Some(Token::RightBrace)
    } else if c == ':' {
        Some(Token::Colon)
    } else if c == ',' {
        Some(Token::Comma)
    } else if c == '.' {
        Some(Token::Dot)
    } else if c == '=' {
        Some(Token::Equal)
    } else if c == '-' {
        Some(Token::Minus)
    } else if c == ';' {
        Some(Token::Semi)
    } else {
        None
    }
}

/// The punctuation token of the given text, if it is one.
pub open spec fn spec_parse_pun(text: Seq<char>) -> Option<Token> {
    if text.len() == 1 {
        spec_parse_pun_char(text[0])
    } else {
        None
    }
}

impl Token {
    /// The punctuation token of the given character, if it is one.
    pub fn parse_pun_char(c: char) -> (r: Option<Token>)
        ensures
            r == spec_parse_pun_char(c),
    {
        match c {
            '(' => Some(Token::LeftParen),
            ')' => Some(Token::RightParen),
            '<' => Some(Token::LeftAngle),
            '>' => Some(Token::RightAngle),
            '[' => Some(Token::LeftBracket),
            ']' => Some(Token::RightBracket),
            '{' => Some(Token::LeftBrace),
            '}' => Some(Token::RightBrace),
            ':' => Some(Token::Colon),
            ',' => Some(Token::Comma),
            '.' => Some(Token::Dot),
            '=' => Some(Token::Equal),
            '-' => Some(Token::Minus),
            ';' => Some(Token::Semi),
            _ => None,
        }
    }

    /// The punctuation token of the given text, if it is one.
    pub fn parse_pun(text: &Vec<char>) -> (r: Option<Token>)
        ensures
            r == spec_parse_pun(text@),
    {
        if text.len() == 1 {
            Token::parse_pun_char(text[0])
        } else {
            None
        }
    }
}

} // verus!
