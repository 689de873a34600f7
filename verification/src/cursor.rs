//! The forward-only scanning cursor: a read-only view of the source text
//! plus the current position, with bounded lookahead, single-character
//! advance, and predicate-driven run consumption. Its operations never fail
//! on end of file; lookahead past the end reports the sentinel character
//! instead. The recognizers themselves live here as well, one method each.

use crate::chars::{char_at, digit_value, ident_char, ident_start, is_digit,
    is_digit_char, is_ident_char, is_op, is_space, is_space_char, lemma_run_len,
    lemma_run_len_exact, run_len, END_OF_FILE};
use crate::keyword::{keyword_lookup, Keyword, MAX_KEYWORD_LENGTH};
use crate::scan::{block_rest_len, boolean_match, comment_match, dec_val, digit_pred, ident_match,
    ident_pred, keyword_match, keyword_scan, lemma_dec_val_step, not_char_pred, number_match,
    numeric_of, num_pred, operator_match, reserved_kind, scan, string_match, value_reserved_match,
    ws_len, ws_pred};
use crate::token::{AccessType, LexError, Numeric, StringType, Token, TokenType};
use vstd::prelude::*;

verus! {

pub struct Cursor {
    chars: Vec<char>,
    pos: usize,
}

impl Cursor {
    /// The source text being scanned.
    pub closed spec fn src(&self) -> Seq<char> {
        self.chars@
    }

    /// The current scan position.
    pub closed spec fn pos(&self) -> int {
        self.pos as int
    }

    /// The position never leaves the buffer (it may sit just past the last
    /// character).
    pub closed spec fn wf(&self) -> bool {
        self.pos <= self.chars@.len()
    }

    /// What well-formedness means for callers that cannot see the fields:
    /// the position stays between the start and the end of the buffer.
    pub proof fn lemma_wf_bounds(&self)
        requires
            self.wf(),
        ensures
            0 <= self.pos() <= self.src().len(),
    {
    }

    pub fn new(chars: Vec<char>) -> (cursor: Cursor)
        ensures
            cursor.wf(),
            cursor.src() == chars@,
            cursor.pos() == 0,
    {
        Cursor { chars, pos: 0 }
    }

    pub fn get_pos(&self) -> (p: usize)
        ensures
            p == self.pos(),
    {
        self.pos
    }

    /// Whether the input is exhausted.
    pub fn is_eof(&self) -> (b: bool)
        requires
            self.wf(),
        ensures
            b == (self.pos() == self.src().len()),
    {
        self.pos >= self.chars.len()
    }

    /// The character at offset `i` from the current position, without
    /// consuming; the end-of-file sentinel when that offset lies past the
    /// end of the buffer.
    pub fn nth(&self, i: usize) -> (c: char)
        requires
            self.wf(),
        ensures
            c == char_at(self.src(), self.pos() + i),
    {
        if i < self.chars.len() - self.pos {
            self.chars[self.pos + i]
        } else {
            END_OF_FILE
        }
    }

    /// Lookahead at offset 0.
    pub fn first(&self) -> (c: char)
        requires
            self.wf(),
        ensures
            c == char_at(self.src(), self.pos()),
    {
        self.nth(0)
    }

    /// Lookahead at offset 1.
    pub fn second(&self) -> (c: char)
        requires
            self.wf(),
        ensures
            c == char_at(self.src(), self.pos() + 1),
    {
        self.nth(1)
    }

    /// Consumes one character and returns it, or reports end of file.
    pub fn advance(&mut self) -> (c: Option<char>)
        requires
            old(self).wf(),
        ensures
            final(self).wf(),
            final(self).src() == old(self).src(),
            old(self).pos() < old(self).src().len() ==> (c == Some(
                old(self).src()[old(self).pos()],
            ) && final(self).pos() == old(self).pos() + 1),
            old(self).pos() == old(self).src().len() ==> (c is None && final(self).pos() == old(self).pos()),
    {
        if self.pos < self.chars.len() {
            let ch = self.chars[self.pos];
            self.pos = self.pos + 1;
            Some(ch)
        } else {
            None
        }
    }

    /// Consumes exactly `n` characters, used after a multi-character
    /// lookahead match such as `::` or `and`.
    pub fn advance_by(&mut self, n: usize)
        requires
            old(self).wf(),
            old(self).pos() + n <= old(self).src().len(),
        ensures
            final(self).wf(),
            final(self).src() == old(self).src(),
            final(self).pos() == old(self).pos() + n,
    {
        let len = self.chars.len();
        assert(self.pos + n <= len);
        self.pos = self.pos + n;
    }

    /// Repeatedly consumes characters while `p` holds of the current one,
    /// returning the consumed run; the run is empty (not an error) when `p`
    /// fails immediately. `gp` is the predicate that `p` decides.
    pub fn consume_while<F: Fn(char) -> bool>(
        &mut self,
        p: F,
        Ghost(gp): Ghost<spec_fn(char) -> bool>,
    ) -> (run: Vec<char>)
        requires
            old(self).wf(),
            forall|c: char| #[trigger] call_requires(p, (c,)),
            forall|c: char, b: bool| call_ensures(p, (c,), b) ==> b == gp(c),
        ensures
            final(self).wf(),
            final(self).src() == old(self).src(),
            final(self).pos() == old(self).pos() + run_len(old(self).src(), old(self).pos(), gp),
            run@ == old(self).src().subrange(old(self).pos(), final(self).pos()),
    {
        let ghost s = self.chars@;
        let ghost start = self.pos as int;
        let mut run: Vec<char> = Vec::new();
        loop
            invariant
                self.wf(),
                self.chars@ == s,
                0 <= start <= self.pos as int <= s.len(),
                run@ == s.subrange(start, self.pos as int),
                forall|j: int| start <= j < self.pos as int ==> #[trigger] gp(s[j]),
                forall|c: char| #[trigger] call_requires(p, (c,)),
                forall|c: char, b: bool| call_ensures(p, (c,), b) ==> b == gp(c),
            ensures
                self.wf(),
                self.chars@ == s,
                0 <= start <= self.pos as int <= s.len(),
                run@ == s.subrange(start, self.pos as int),
                forall|j: int| start <= j < self.pos as int ==> #[trigger] gp(s[j]),
                self.pos as int == s.len() || !gp(s[self.pos as int]),
            decreases s.len() - self.pos,
        {
            if self.pos >= self.chars.len() {
                break ;
            }
            let ch = self.chars[self.pos];
            if !p(ch) {
                break ;
            }
            self.pos = self.pos + 1;
            run.push(ch);
            proof {
                assert(run@ =~= s.subrange(start, self.pos as int));
            }
        }
        proof {
            lemma_run_len_exact(s, start, gp, self.pos as int - start);
        }
        run
    }

    /// Consumes the maximal run of whitespace, or nothing when the current
    /// character is not whitespace.
    pub fn eat_whitespace(&mut self) -> (r: Option<Vec<char>>)
        requires
            old(self).wf(),
        ensures
            final(self).wf(),
            final(self).src() == old(self).src(),
            ws_len(old(self).src(), old(self).pos()) == 0 ==> (r is None && final(self).pos()
                == old(self).pos()),
            ws_len(old(self).src(), old(self).pos()) > 0 ==> (r matches Some(run) && run@ == old(self).src().subrange(
                old(self).pos(),
                old(self).pos() + ws_len(old(self).src(), old(self).pos()),
            ) && final(self).pos() == old(self).pos() + ws_len(old(self).src(), old(self).pos())),
    {
        let space = |c: char| -> (b: bool)
            ensures
                b == is_space_char(c),
            { is_space(c) };
        let run = self.consume_while(space, Ghost(ws_pred()));
        if run.len() == 0 {
            None
        } else {
            Some(run)
        }
    }

    /// Consumes one single-character operator, or the reserved words `or`
    /// and `and`, recognized by explicit lookahead and consumed only on a
    /// full match.
    pub fn eat_operator(&mut self) -> (r: Option<Vec<char>>)
        requires
            old(self).wf(),
        ensures
            final(self).wf(),
            final(self).src() == old(self).src(),
            operator_match(old(self).src(), old(self).pos()) is None ==> (r is None && final(self).pos() == old(self).pos()),
            operator_match(old(self).src(), old(self).pos()) matches Some(n) ==> (r matches Some(
                run,
            ) && run@ == old(self).src().subrange(old(self).pos(), old(self).pos() + n) && final(self).pos() == old(self).pos() + n),
    {
        let ghost s = self.chars@;
        let ghost start = self.pos as int;
        let c = self.first();
        if is_op(c) {
            self.advance_by(1);
            let run = vec![c];
            proof {
                assert(run@ =~= s.subrange(start, start + 1));
            }
            Some(run)
        } else if c == 'o' {
            if self.second() == 'r' {
                self.advance_by(2);
                let run = vec!['o', 'r'];
                proof {
                    assert(run@ =~= s.subrange(start, start + 2));
                }
                Some(run)
            } else {
                None
            }
        } else if c == 'a' {
            if self.second() == 'n' && self.nth(2) == 'd' {
                self.advance_by(3);
                let run = vec!['a', 'n', 'd'];
                proof {
                    assert(run@ =~= s.subrange(start, start + 3));
                }
                Some(run)
            } else {
                None
            }
        } else {
            None
        }
    }

    /// Consumes the boolean literal `true`. The recognizer accumulates at
    /// most four characters before giving up, so `false` cannot be taken
    /// here and is left to the identifier recognizer.
    pub fn eat_boolean(&mut self) -> (r: Option<Vec<char>>)
        requires
            old(self).wf(),
        ensures
            final(self).wf(),
            final(self).src() == old(self).src(),
            boolean_match(old(self).src(), old(self).pos()) is None ==> (r is None && final(self).pos() == old(self).pos()),
            boolean_match(old(self).src(), old(self).pos()) is Some ==> (r matches Some(run)
                && run@ == old(self).src().subrange(old(self).pos(), old(self).pos() + 4) && final(self).pos() == old(self).pos() + 4),
    {
        let ghost s = self.chars@;
        let ghost start = self.pos as int;
        if self.first() == 't' && self.second() == 'r' && self.nth(2) == 'u' && self.nth(3)
            == 'e' {
            self.advance_by(4);
            let run = vec!['t', 'r', 'u', 'e'];
            proof {
                assert(run@ =~= s.subrange(start, start + 4));
            }
            Some(run)
        } else {
            None
        }
    }

    /// Consumes `::` as one static-member accessor, or a lone `:` as a
    /// colon.
    pub fn eat_value_reserved(&mut self) -> (r: Option<(TokenType, Vec<char>)>)
        requires
            old(self).wf(),
        ensures
            final(self).wf(),
            final(self).src() == old(self).src(),
            value_reserved_match(old(self).src(), old(self).pos()) is None ==> (r is None && final(self).pos() == old(self).pos()),
            value_reserved_match(old(self).src(), old(self).pos()) matches Some((kind, n)) ==> (
            r matches Some(pair) && pair.0 == kind && pair.1@ == old(self).src().subrange(
                old(self).pos(),
                old(self).pos() + n,
            ) && final(self).pos() == old(self).pos() + n),
    {
        let ghost s = self.chars@;
        let ghost start = self.pos as int;
        if self.first() == ':' {
            if self.second() == ':' {
                self.advance_by(2);
                let run = vec![':', ':'];
                proof {
                    assert(run@ =~= s.subrange(start, start + 2));
                }
                Some((TokenType::Accessor(AccessType::StaticMember), run))
            } else {
                self.advance_by(1);
                let run = vec![':'];
                proof {
                    assert(run@ =~= s.subrange(start, start + 1));
                }
                Some((TokenType::Colon, run))
            }
        } else {
            None
        }
    }

    /// One full recognizer pass: asks the recognizers in fixed priority
    /// order and wraps the first match into a token spanning exactly the
    /// characters consumed. When none matches, consumes the offending
    /// character and reports a lexical error spanning it.
    pub fn eat(&mut self) -> (r: Result<Token, LexError>)
        requires
            old(self).wf(),
            old(self).pos() < old(self).src().len(),
        ensures
            final(self).wf(),
            final(self).src() == old(self).src(),
            scan(old(self).src(), old(self).pos()) matches Some(sr) ==> (r matches Ok(t)
                && t.start == old(self).pos() && t.end == sr.end && t.kind == sr.kind
                && t.lexeme_seq() == sr.lexeme && final(self).pos() == sr.end),
            scan(old(self).src(), old(self).pos()) is None ==> (r matches Err(e) && e.start == old(
                self).pos() && e.end == old(self).pos() + 1 && final(self).pos() == old(self).pos()
                + 1),
    {
        let start = self.get_pos();
        proof {
            lemma_run_len(self.chars@, self.pos as int, ws_pred());
        }
        if let Some(spaces) = self.eat_whitespace() {
            let end = self.get_pos();
            return Ok(
                Token { start, end, kind: TokenType::Whitespace, lexeme: Some(spaces) },
            );
        }
        if let Some(comment) = self.eat_comment() {
            let end = self.get_pos();
            return Ok(Token { start, end, kind: TokenType::Comment, lexeme: Some(comment) });
        }
        if let Some(operator) = self.eat_operator() {
            let end = self.get_pos();
            return Ok(Token { start, end, kind: TokenType::Operator, lexeme: Some(operator) });
        }
        if let Some(keyword) = self.eat_keyword() {
            let end = self.get_pos();
            return Ok(Token { start, end, kind: TokenType::Keyword(keyword), lexeme: None });
        }
        if let Some(boolean) = self.eat_boolean() {
            let end = self.get_pos();
            return Ok(Token { start, end, kind: TokenType::Boolean, lexeme: Some(boolean) });
        }
        if let Some(identifier) = self.eat_identifier() {
            let end = self.get_pos();
            return Ok(
                Token { start, end, kind: TokenType::Identifier, lexeme: Some(identifier) },
            );
        }
        if let Some(n) = self.eat_number() {
            let end = self.get_pos();
            return Ok(Token { start, end, kind: TokenType::NumericalLit(n), lexeme: None });
        }
        if let Some((variant, string)) = self.eat_string() {
            // the closing delimiter, when the literal has one
            self.advance();
            let end = self.get_pos();
            return Ok(
                Token { start, end, kind: TokenType::StringLit(variant), lexeme: Some(string) },
            );
        }
        if let Some((kind, text)) = self.eat_value_reserved() {
            let end = self.get_pos();
            return Ok(Token { start, end, kind, lexeme: Some(text) });
        }
        if let Some(kind) = self.eat_reserved() {
            self.advance();
            let end = self.get_pos();
            return Ok(Token { start, end, kind, lexeme: None });
        }
        self.advance();
        let end = self.get_pos();
        Err(LexError { start, end })
    }

    /// Consumes a comment: `//` up to (not including) the next newline, or
    /// `/*` up to just after the closing `*/` (an interior `*` not directly
    /// followed by `/` terminates nothing, and an unterminated block
    /// comment runs to the end of the input). A `/` opening neither form is
    /// left for the operator recognizer.
    pub fn eat_comment(&mut self) -> (r: Option<Vec<char>>)
        requires
            old(self).wf(),
        ensures
            final(self).wf(),
            final(self).src() == old(self).src(),
            comment_match(old(self).src(), old(self).pos()) is None ==> (r is None && final(
                self).pos() == old(self).pos()),
            comment_match(old(self).src(), old(self).pos()) matches Some(n) ==> (r matches Some(
                run,
            ) && run@ == old(self).src().subrange(old(self).pos(), old(self).pos() + n) && final(
                self).pos() == old(self).pos() + n),
    {
        let c0 = self.first();
        if c0 != '/' {
            return None;
        }
        let c1 = self.second();
        if c1 == '/' {
            let notnl = |ch: char| -> (b: bool)
                ensures
                    b == (ch != '\n'),
                { ch != '\n' };
            let run = self.consume_while(notnl, Ghost(not_char_pred('\n')));
            Some(run)
        } else if c1 == '*' {
            let ghost s = self.chars@;
            let ghost start = self.pos as int;
            let ghost total = 1 + block_rest_len(s, start + 1);
            let mut out: Vec<char> = Vec::new();
            let opener = self.advance().unwrap();
            out.push(opener);
            proof {
                assert(out@ =~= s.subrange(start, start + 1));
            }
            loop
                invariant_except_break
                    start + total == self.pos as int + block_rest_len(s, self.pos as int),
                invariant
                    self.wf(),
                    self.chars@ == s,
                    0 <= start,
                    start + 1 <= self.pos as int <= s.len(),
                    out@ == s.subrange(start, self.pos as int),
                ensures
                    self.wf(),
                    self.chars@ == s,
                    out@ == s.subrange(start, self.pos as int),
                    self.pos as int == start + total,
                decreases s.len() - self.pos,
            {
                let ghost j = self.pos as int;
                match self.advance() {
                    None => {
                        proof {
                            assert(block_rest_len(s, j) == 0);
                        }
                        break ;
                    },
                    Some(ch) => {
                        out.push(ch);
                        proof {
                            assert(out@ =~= s.subrange(start, self.pos as int));
                        }
                        if ch == '*' {
                            if self.first() == '/' {
                                proof {
                                    assert(block_rest_len(s, j) == 2);
                                }
                                let closer = self.advance().unwrap();
                                out.push(closer);
                                proof {
                                    assert(out@ =~= s.subrange(start, self.pos as int));
                                }
                                break ;
                            } else {
                                proof {
                                    assert(block_rest_len(s, j) == 1 + block_rest_len(s, j + 1));
                                }
                            }
                        } else {
                            proof {
                                assert(block_rest_len(s, j) == 1 + block_rest_len(s, j + 1));
                            }
                        }
                    },
                }
            }
            Some(out)
        } else {
            None
        }
    }

    /// Tries increasing-length prefixes of the upcoming text against the
    /// keyword vocabulary, up to the maximum keyword length. The first
    /// prefix found there decides: it is consumed only when the character
    /// right after it is whitespace; otherwise no keyword is taken.
    pub fn eat_keyword(&mut self) -> (r: Option<Keyword>)
        requires
            old(self).wf(),
        ensures
            final(self).wf(),
            final(self).src() == old(self).src(),
            keyword_match(old(self).src(), old(self).pos()) is None ==> (r is None && final(
                self).pos() == old(self).pos()),
            keyword_match(old(self).src(), old(self).pos()) matches Some((kw, n)) ==> (r == Some(
                kw,
            ) && final(self).pos() == old(self).pos() + n),
    {
        let ghost s = self.chars@;
        let ghost start = self.pos as int;
        let mut len: usize = 1;
        loop
            invariant
                self.wf(),
                self.chars@ == s,
                s == old(self).src(),
                self.pos as int == start,
                start == old(self).pos(),
                0 <= start,
                1 <= len as int <= MAX_KEYWORD_LENGTH as int + 1,
                keyword_scan(s, start, 1) == keyword_scan(s, start, len as int),
            ensures
                self.wf(),
                self.chars@ == s,
                self.pos as int == start,
                keyword_scan(s, start, 1) is None,
            decreases MAX_KEYWORD_LENGTH as int + 1 - len,
        {
            if len > MAX_KEYWORD_LENGTH {
                proof {
                    assert(keyword_scan(s, start, len as int) is None);
                }
                break ;
            }
            if len <= self.chars.len() - self.pos {
                let kw_opt = keyword_lookup(&self.chars, self.pos, len);
                if let Some(kw) = kw_opt {
                    let nc = self.nth(len);
                    if is_space(nc) {
                        proof {
                            assert(keyword_scan(s, start, len as int) == Some((kw, len as int)));
                        }
                        self.advance_by(len);
                        return Some(kw);
                    } else {
                        proof {
                            assert(keyword_scan(s, start, len as int) is None);
                        }
                        return None;
                    }
                }
            }
            proof {
                assert(keyword_scan(s, start, len as int) == keyword_scan(s, start, len as int + 1));
            }
            len = len + 1;
        }
        None
    }

    /// Consumes the maximal run of identifier characters when an
    /// underscore or an ASCII letter opens one.
    pub fn eat_identifier(&mut self) -> (r: Option<Vec<char>>)
        requires
            old(self).wf(),
        ensures
            final(self).wf(),
            final(self).src() == old(self).src(),
            ident_match(old(self).src(), old(self).pos()) is None ==> (r is None && final(
                self).pos() == old(self).pos()),
            ident_match(old(self).src(), old(self).pos()) matches Some(n) ==> (r matches Some(run)
                && run@ == old(self).src().subrange(old(self).pos(), old(self).pos() + n) && final(
                self).pos() == old(self).pos() + n),
    {
        let c = self.first();
        if ident_start(c) {
            let idc = |ch: char| -> (b: bool)
                ensures
                    b == is_ident_char(ch),
                { ident_char(ch) };
            let run = self.consume_while(idc, Ghost(ident_pred()));
            Some(run)
        } else {
            None
        }
    }

    /// Consumes the maximal run of digits and dots when a decimal digit
    /// opens one, and decodes the leading digit run as the literal's value.
    pub fn eat_number(&mut self) -> (r: Option<Numeric>)
        requires
            old(self).wf(),
        ensures
            final(self).wf(),
            final(self).src() == old(self).src(),
            number_match(old(self).src(), old(self).pos()) is None ==> (r is None && final(
                self).pos() == old(self).pos()),
            number_match(old(self).src(), old(self).pos()) matches Some(n) ==> (r == Some(
                numeric_of(old(self).src().subrange(old(self).pos(), old(self).pos() + n)),
            ) && final(self).pos() == old(self).pos() + n),
    {
        let c = self.first();
        if is_digit(c) {
            let numc = |ch: char| -> (b: bool)
                ensures
                    b == (is_digit_char(ch) || ch == '.'),
                { is_digit(ch) || ch == '.' };
            let run = self.consume_while(numc, Ghost(num_pred()));
            let v = decode_digits(&run);
            Some(Numeric::Int(v))
        } else {
            None
        }
    }

    /// Consumes the opening delimiter of a string literal and the run of
    /// characters before the matching closing delimiter, which is left for
    /// the driver to consume.
    pub fn eat_string(&mut self) -> (r: Option<(StringType, Vec<char>)>)
        requires
            old(self).wf(),
        ensures
            final(self).wf(),
            final(self).src() == old(self).src(),
            string_match(old(self).src(), old(self).pos()) is None ==> (r is None && final(
                self).pos() == old(self).pos()),
            string_match(old(self).src(), old(self).pos()) matches Some((ty, inner, total)) ==> (
            r matches Some(pair) && pair.0 == ty && pair.1@ == old(self).src().subrange(
                old(self).pos() + 1,
                old(self).pos() + 1 + inner,
            ) && final(self).pos() == old(self).pos() + 1 + inner),
    {
        let c = self.first();
        if c != '"' && c != '\'' {
            return None;
        }
        self.advance();
        let notq = |ch: char| -> (b: bool)
            ensures
                b == (ch != c),
            { ch != c };
        let run = self.consume_while(notq, Ghost(not_char_pred(c)));
        let ty = if c == '"' {
            StringType::Double
        } else {
            StringType::Single
        };
        Some((ty, run))
    }

    /// Reports (without consuming) the reserved single-character
    /// punctuation mark at the current position, if any.
    pub fn eat_reserved(&self) -> (r: Option<TokenType>)
        requires
            self.wf(),
        ensures
            r == reserved_kind(char_at(self.src(), self.pos())),
    {
        let c = self.first();
        if c == '[' {
            Some(TokenType::LeftBracket)
        } else if c == ']' {
            Some(TokenType::RightBracket)
        } else if c == '(' {
            Some(TokenType::LeftParenthesis)
        } else if c == ')' {
            Some(TokenType::RightParenthesis)
        } else if c == '{' {
            Some(TokenType::LeftBrace)
        } else if c == '}' {
            Some(TokenType::RightBrace)
        } else if c == ';' {
            Some(TokenType::EOS)
        } else if c == ',' {
            Some(TokenType::Comma)
        } else if c == '\\' {
            Some(TokenType::Backslash)
        } else if c == '.' {
            Some(TokenType::Dot)
        } else if c == '$' {
            Some(TokenType::Variable)
        } else if c == '?' {
            Some(TokenType::QuestionMark)
        } else {
            None
        }
    }
}

/// Decodes the leading digit run of a numeric literal's raw text as a
/// decimal integer, clamping at the largest representable value.
pub fn decode_digits(run: &Vec<char>) -> (v: u64)
    ensures
        Numeric::Int(v) == numeric_of(run@),
{
    let ghost r = run@;
    let ghost digits = run_len(r, 0, digit_pred());
    proof {
        lemma_run_len(r, 0, digit_pred());
        assert(r.subrange(0, 0) =~= Seq::<char>::empty());
    }
    let mut i: usize = 0;
    let mut acc: u64 = 0;
    let mut over: bool = false;
    loop
        invariant
            run@ == r,
            0 <= digits <= r.len(),
            forall|j: int| 0 <= j < digits ==> #[trigger] digit_pred()(r[j]),
            digits == r.len() || !digit_pred()(r[digits]),
            0 <= i as int <= digits,
            !over ==> acc == dec_val(r.subrange(0, i as int)),
            over ==> dec_val(r.subrange(0, i as int)) > u64::MAX,
        ensures
            i as int == digits,
            !over ==> acc == dec_val(r.subrange(0, i as int)),
            over ==> dec_val(r.subrange(0, i as int)) > u64::MAX,
        decreases r.len() - i,
    {
        if i >= run.len() {
            break ;
        }
        let c = run[i];
        if !is_digit(c) {
            proof {
                if (i as int) < digits {
                    assert(digit_pred()(r[i as int]));
                }
            }
            break ;
        }
        proof {
            lemma_dec_val_step(r, i as int);
        }
        let d = digit_value(c);
        if !over {
            if acc > 1844674407370955161u64 {
                over = true;
            } else {
                let t = acc * 10;
                if d > u64::MAX - t {
                    over = true;
                } else {
                    acc = t + d;
                }
            }
        }
        i = i + 1;
    }
    proof {
        assert(r.subrange(0, digits) == r.subrange(0, i as int));
    }
    if over {
        u64::MAX
    } else {
        acc
    }
}

} // verus!
