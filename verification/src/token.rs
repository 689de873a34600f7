//! The token model: token kinds, payloads, spans, and the lexical error.

use crate::keyword::Keyword;
use vstd::prelude::*;

verus! {

/// The kind of accessor that a multi-character accessor token denotes.
#[derive(Clone, Copy, Debug, PartialEq, Eq, Structural)]
pub enum AccessType {
    StaticMember,
}

/// The delimiter a string literal was quoted with.
#[derive(Clone, Copy, Debug, PartialEq, Eq, Structural)]
pub enum StringType {
    Double,
    Single,
}

/// The decoded value of a numeric literal.
#[derive(Clone, Copy, Debug, PartialEq, Eq, Structural)]
pub enum Numeric {
    Int(u64),
}

#[derive(Clone, Copy, Debug, PartialEq, Eq, Structural)]
pub enum TokenType {
    Whitespace,
    Comment,
    Operator,
    Keyword(Keyword),
    Boolean,
    Identifier,
    NumericalLit(Numeric),
    StringLit(StringType),
    Accessor(AccessType),
    Colon,
    LeftBracket,
    RightBracket,
    LeftParenthesis,
    RightParenthesis,
    LeftBrace,
    RightBrace,
    EOS,
    Comma,
    Backslash,
    Dot,
    Variable,
    QuestionMark,
}

/// One token: its kind, its span `[start, end)` in the source, and, for the
/// kinds that carry one, a payload of text.
#[derive(Debug)]
pub struct Token {
    pub start: usize,
    pub end: usize,
    pub kind: TokenType,
    pub lexeme: Option<Vec<char>>,
}

impl Token {
    /// The payload as a sequence of characters.
    pub open spec fn lexeme_seq(&self) -> Option<Seq<char>> {
        match self.lexeme {
            Some(v) => Some(v@),
            None => None,
        }
    }
}

/// A positional lexical error: no recognizer matched the input between
/// offsets `start` and `end`.
#[derive(Clone, Copy, Debug, PartialEq, Eq, Structural)]
pub struct LexError {
    pub start: usize,
    pub end: usize,
}

} // verus!
