//! The sample language's keywords.

use vstd::prelude::*;

use crate::token::Token;

verus! {

/// The keyword token of the given text, if the text is a keyword.
pub open spec fn spec_parse_keyword(text: Seq<char>) -> Option<Token> {
    if text == seq!['e', 'n', 'u', 'm'] {
        Some(Token::Enum)
    } else if text == seq!['l', 'e', 't'] {
        Some(Token::Let)
    } else if text == seq!['m', 'a', 't', 'c', 'h'] {
        Some(Token::Match)
    } else if text == seq!['s', 't', 'r', 'u', 'c', 't'] {
        Some(Token::Struct)
    } else if text == seq!['_'] {
        Some(Token::Underscore)
    } else {
        None
    }
}

impl Token {
    /// Is this the keyword that controls execution flow?
    pub fn is_control_keyword(self) -> (r: bool)
        ensures
            r == (self == Token::Match),
    {
        self == Token::Match
    }

    /// Is this a keyword?
    pub fn is_keyword(self) -> (r: bool)
        ensures
            r == (self == Token::Enum || self == Token::Let || self == Token::Struct
                || self == Token::Underscore || self == Token::Match),
    {
        self == Token::Enum || self == Token::Let || self == Token::Struct
            || self == Token::Underscore || self.is_control_keyword()
    }

    /// The keyword token of the given text, if the text is a keyword.
    pub fn parse_keyword(text: &Vec<char>) -> (r: Option<Token>)
        ensures
            r == spec_parse_keyword(text@),
    {
        let n = text.len();
        if n == 4 && text[0] == 'e' && text[1] == 'n' && text[2] == 'u' && text[3] == 'm' {
            proof {
                assert(text@ =~= seq!['e', 'n', 'u', 'm']);
            }
            Some(Token::Enum)
        } else if n == 3 && text[0] == 'l' && text[1] == 'e' && text[2] == 't' {
            proof {
                assert(text@ =~= seq!['l', 'e', 't']);
            }
            Some(Token::Let)
        } else if n == 5 && text[0] == 'm' && text[1] == 'a' && text[2] == 't' && text[3] == 'c'
            && text[4] == 'h' {
            proof {
                assert(text@ =~= seq!['m', 'a', 't', 'c', 'h']);
            }
            Some(Token::Match)
        } else if n == 6 && text[0] == 's' && text[1] == 't' && text[2] == 'r' && text[3] == 'u'
            && text[4] == 'c' && text[5] == 't' {
            proof {
                assert(text@ =~= seq!['s', 't', 'r', 'u', 'c', 't']);
            }
            Some(Token::Struct)
        } else if n == 1 && text[0] == '_' {
            proof {
                assert(text@ =~= seq!['_']);
            }
            Some(Token::Underscore)
        } else {
            None
        }
    }
}

} // verus!
