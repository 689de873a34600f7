//! Lexical analysis for a small scripting language: the lexer turns source
//! text into a gapless stream of classified, span-annotated tokens.
//! Whitespace and comments are tokens too, so the token spans form a
//! lossless partition of the input.

pub mod chars;
pub mod cursor;
pub mod keyword;
pub mod laws;
pub mod scan;
pub mod token;

use crate::cursor::Cursor;
use crate::scan::{lemma_scan_bounds, scan};
use crate::token::{LexError, Token};
use vstd::prelude::*;

verus! {

/// The lexer: wraps a cursor over the source text and hands out one token
/// per call of `next`, in source order.
pub struct Lexer {
    cursor: Cursor,
}

impl Lexer {
    /// The source text being lexed.
    pub closed spec fn src(&self) -> Seq<char> {
        self.cursor.src()
    }

    /// The position of the next token.
    pub closed spec fn pos(&self) -> int {
        self.cursor.pos()
    }

    pub closed spec fn wf(&self) -> bool {
        self.cursor.wf()
    }

    /// Starts a lexing session over `script`, positioned at its beginning.
    pub fn new(script: &str) -> (lexer: Lexer)
        ensures
            lexer.wf(),
            lexer.src() == script@,
            lexer.pos() == 0,
    {
        let n = script.unicode_len();
        let mut chars: Vec<char> = Vec::new();
        let mut i: usize = 0;
        while i < n
            invariant
                i <= n,
                n == script@.len(),
                chars@ == script@.subrange(0, i as int),
            decreases n - i,
        {
            let c = script.get_char(i);
            chars.push(c);
            i = i + 1;
            proof {
                assert(chars@ =~= script@.subrange(0, i as int));
            }
        }
        proof {
            assert(chars@ =~= script@);
        }
        Lexer { cursor: Cursor::new(chars) }
    }

    /// Consumes the next token. Returns `Ok(None)` once the input is
    /// exhausted; returns a lexical error spanning exactly one character
    /// when input remains but no recognizer matches it, and then resumes
    /// right after that character. A returned token starts where the
    /// previous one ended: the stream has no gaps and no overlaps.
    pub fn next(&mut self) -> (r: Result<Option<Token>, LexError>)
        requires
            old(self).wf(),
        ensures
            final(self).wf(),
            final(self).src() == old(self).src(),
            old(self).pos() == old(self).src().len() ==> (r matches Ok(t) && t is None && final(
                self).pos() == old(self).pos()),
            old(self).pos() < old(self).src().len() ==> match scan(
                old(self).src(),
                old(self).pos(),
            ) {
                Some(sr) => r matches Ok(t) && t matches Some(tok) && tok.start == old(self).pos()
                    && tok.end == sr.end && tok.kind == sr.kind && tok.lexeme_seq() == sr.lexeme
                    && final(self).pos() == sr.end && old(self).pos() < sr.end <= old(
                    self).src().len(),
                None => r matches Err(e) && e.start == old(self).pos() && e.end == old(self).pos()
                    + 1 && final(self).pos() == old(self).pos() + 1,
            },
    {
        if self.cursor.is_eof() {
            return Ok(None);
        }
        proof {
            self.cursor.lemma_wf_bounds();
            lemma_scan_bounds(self.cursor.src(), self.cursor.pos());
        }
        match self.cursor.eat() {
            Ok(token) => Ok(Some(token)),
            Err(e) => Err(e),
        }
    }
}

} // verus!
