//! The mathematical model of one recognizer pass: for each recognizer, a
//! spec function saying what it matches at a position, and `scan`, the
//! fixed-priority chain that the driver follows. The dispatch order encodes
//! precedence (comments must be tried before the operator recognizer claims
//! the leading `/`) and is part of the contract.

use crate::chars::{
    char_at, digit_val, is_digit_char, is_ident_char, is_ident_start, is_op_char, is_space_char,
    run_len,
};
use crate::keyword::{keyword_of, Keyword, MAX_KEYWORD_LENGTH};
use crate::token::{AccessType, Numeric, StringType, TokenType};
use vstd::prelude::*;

verus! {

/// The predicate for a whitespace run.
pub open spec fn ws_pred() -> spec_fn(char) -> bool {
    |c: char| is_space_char(c)
}

/// The predicate for a run of characters other than `q`.
pub open spec fn not_char_pred(q: char) -> spec_fn(char) -> bool {
    |c: char| c != q
}

/// The predicate for the continuation of an identifier.
pub open spec fn ident_pred() -> spec_fn(char) -> bool {
    |c: char| is_ident_char(c)
}

/// The predicate for the body of a numeric literal.
pub open spec fn num_pred() -> spec_fn(char) -> bool {
    |c: char| is_digit_char(c) || c == '.'
}

/// The predicate for a run of decimal digits.
pub open spec fn digit_pred() -> spec_fn(char) -> bool {
    |c: char| is_digit_char(c)
}

/// How many characters the whitespace recognizer takes at `i`: the maximal
/// whitespace run, possibly empty.
pub open spec fn ws_len(s: Seq<char>, i: int) -> int {
    run_len(s, i, ws_pred())
}

/// How many characters remain of a block comment from position `j` on: the
/// scan stops right after the first `*` directly followed by `/`, or at the
/// end of the input when the comment is unterminated.
pub open spec fn block_rest_len(s: Seq<char>, j: int) -> int
    decreases s.len() - j,
{
    if j < 0 || j >= s.len() {
        0
    } else if s[j] == '*' && j + 1 < s.len() && s[j + 1] == '/' {
        2
    } else {
        1 + block_rest_len(s, j + 1)
    }
}

/// How many characters the comment recognizer takes at `i`, if any: `//`
/// opens a comment running to (not including) the next newline, `/*` one
/// running to just after the closing `*/` (or to the end of the input).
pub open spec fn comment_match(s: Seq<char>, i: int) -> Option<int> {
    if char_at(s, i) == '/' && char_at(s, i + 1) == '/' {
        Some(run_len(s, i, not_char_pred('\n')))
    } else if char_at(s, i) == '/' && char_at(s, i + 1) == '*' {
        Some(1 + block_rest_len(s, i + 1))
    } else {
        None
    }
}

/// How many characters the operator recognizer takes at `i`, if any: one
/// single-character operator, or the reserved words `or` and `and`.
pub open spec fn operator_match(s: Seq<char>, i: int) -> Option<int> {
    if is_op_char(char_at(s, i)) {
        Some(1)
    } else if char_at(s, i) == 'o' && char_at(s, i + 1) == 'r' {
        Some(2)
    } else if char_at(s, i) == 'a' && char_at(s, i + 1) == 'n' && char_at(s, i + 2) == 'd' {
        Some(3)
    } else {
        None
    }
}

/// The keyword recognizer's scan, trying prefix lengths `len`, `len + 1`,
/// ... up to `MAX_KEYWORD_LENGTH`. The first prefix found in the vocabulary
/// decides: it is accepted only when the character right after it is
/// whitespace; otherwise the recognizer commits to "no keyword" rather than
/// trying a longer prefix.
pub open spec fn keyword_scan(s: Seq<char>, i: int, len: int) -> Option<(Keyword, int)>
    decreases MAX_KEYWORD_LENGTH + 1 - len,
{
    if len <= 0 || len > MAX_KEYWORD_LENGTH as int {
        None
    } else if i + len <= s.len() && keyword_of(s.subrange(i, i + len)) is Some {
        if is_space_char(char_at(s, i + len)) {
            Some((keyword_of(s.subrange(i, i + len)).unwrap(), len))
        } else {
            None
        }
    } else {
        keyword_scan(s, i, len + 1)
    }
}

/// The keyword and its length that the keyword recognizer takes at `i`, if
/// any.
pub open spec fn keyword_match(s: Seq<char>, i: int) -> Option<(Keyword, int)> {
    keyword_scan(s, i, 1)
}

/// How many characters the boolean recognizer takes at `i`, if any. It
/// accumulates up to four characters and accepts on an exact literal match,
/// so only `true` can be taken.
pub open spec fn boolean_match(s: Seq<char>, i: int) -> Option<int> {
    if char_at(s, i) == 't' && char_at(s, i + 1) == 'r' && char_at(s, i + 2) == 'u' && char_at(
        s,
        i + 3,
    ) == 'e' {
        Some(4)
    } else {
        None
    }
}

/// How many characters the identifier recognizer takes at `i`, if any: an
/// underscore or ASCII letter opens the maximal run of identifier
/// characters.
pub open spec fn ident_match(s: Seq<char>, i: int) -> Option<int> {
    if is_ident_start(char_at(s, i)) {
        Some(run_len(s, i, ident_pred()))
    } else {
        None
    }
}

/// How many characters the number recognizer takes at `i`, if any: a
/// decimal digit opens the maximal run of digits and dots.
pub open spec fn number_match(s: Seq<char>, i: int) -> Option<int> {
    if is_digit_char(char_at(s, i)) {
        Some(run_len(s, i, num_pred()))
    } else {
        None
    }
}

/// The decimal value of a digit string, most significant digit first.
pub open spec fn dec_val(s: Seq<char>) -> nat
    decreases s.len(),
{
    if s.len() == 0 {
        0
    } else {
        dec_val(s.drop_last()) * 10 + digit_val(s.last())
    }
}

/// The value decoded from the raw text of a numeric literal: the decimal
/// value of its leading digit run (anything from the first dot on is left
/// to later stages), clamped to the largest representable integer.
pub open spec fn numeric_of(run: Seq<char>) -> Numeric {
    let digits = run_len(run, 0, digit_pred());
    let v = dec_val(run.subrange(0, digits));
    Numeric::Int(
        if v > u64::MAX {
            u64::MAX
        } else {
            v as u64
        },
    )
}

/// The delimiter kind, content length, and total length (delimiters
/// included) that a string literal takes at `i`, if any. The content runs
/// to (not including) the matching closing delimiter; the closing delimiter
/// is consumed when present, and an unterminated literal runs to the end of
/// the input.
pub open spec fn string_match(s: Seq<char>, i: int) -> Option<(StringType, int, int)> {
    if char_at(s, i) == '"' || char_at(s, i) == '\'' {
        let q = char_at(s, i);
        let ty = if q == '"' {
            StringType::Double
        } else {
            StringType::Single
        };
        let inner = run_len(s, i + 1, not_char_pred(q));
        let closed: int = if i + 1 + inner < s.len() {
            1
        } else {
            0
        };
        Some((ty, inner, 1 + inner + closed))
    } else {
        None
    }
}

/// The token kind and length that the colon recognizer takes at `i`, if
/// any: `::` is one static-member accessor, a lone `:` a colon.
pub open spec fn value_reserved_match(s: Seq<char>, i: int) -> Option<(TokenType, int)> {
    if char_at(s, i) == ':' {
        if char_at(s, i + 1) == ':' {
            Some((TokenType::Accessor(AccessType::StaticMember), 2))
        } else {
            Some((TokenType::Colon, 1))
        }
    } else {
        None
    }
}

/// The token kind of a reserved single-character punctuation mark, if any.
pub open spec fn reserved_kind(c: char) -> Option<TokenType> {
    if c == '[' {
        Some(TokenType::LeftBracket)
    } else if c == ']' {
        Some(TokenType::RightBracket)
    } else if c == '(' {
        Some(TokenType::LeftParenthesis)
    } else if c == ')' {
        Some(TokenType::RightParenthesis)
    } else if c == '{' {
        Some(TokenType::LeftBrace)
    } else if c == '}' {
        Some(TokenType::RightBrace)
    } else if c == ';' {
        Some(TokenType::EOS)
    } else if c == ',' {
        Some(TokenType::Comma)
    } else if c == '\\' {
        Some(TokenType::Backslash)
    } else if c == '.' {
        Some(TokenType::Dot)
    } else if c == '$' {
        Some(TokenType::Variable)
    } else if c == '?' {
        Some(TokenType::QuestionMark)
    } else {
        None
    }
}

/// What one full recognizer pass at position `i` produces: the token's
/// kind, its end position, and its payload.
pub ghost struct ScanResult {
    pub kind: TokenType,
    pub end: int,
    pub lexeme: Option<Seq<char>>,
}

/// One full recognizer pass at position `i`: the recognizers are asked in
/// fixed priority order and the first match wins. `None` means a lexical
/// error if input remains there.
pub open spec fn scan(s: Seq<char>, i: int) -> Option<ScanResult> {
    if ws_len(s, i) > 0 {
        Some(
            ScanResult {
                kind: TokenType::Whitespace,
                end: i + ws_len(s, i),
                lexeme: Some(s.subrange(i, i + ws_len(s, i))),
            },
        )
    } else if comment_match(s, i) is Some {
        let n = comment_match(s, i).unwrap();
        Some(
            ScanResult { kind: TokenType::Comment, end: i + n, lexeme: Some(s.subrange(i, i + n)) },
        )
    } else if operator_match(s, i) is Some {
        let n = operator_match(s, i).unwrap();
        Some(
            ScanResult {
                kind: TokenType::Operator,
                end: i + n,
                lexeme: Some(s.subrange(i, i + n)),
            },
        )
    } else if keyword_match(s, i) is Some {
        let (kw, n) = keyword_match(s, i).unwrap();
        Some(ScanResult { kind: TokenType::Keyword(kw), end: i + n, lexeme: None })
    } else if boolean_match(s, i) is Some {
        Some(
            ScanResult { kind: TokenType::Boolean, end: i + 4, lexeme: Some(s.subrange(i, i + 4)) },
        )
    } else if ident_match(s, i) is Some {
        let n = ident_match(s, i).unwrap();
        Some(
            ScanResult {
                kind: TokenType::Identifier,
                end: i + n,
                lexeme: Some(s.subrange(i, i + n)),
            },
        )
    } else if number_match(s, i) is Some {
        let n = number_match(s, i).unwrap();
        Some(
            ScanResult {
                kind: TokenType::NumericalLit(numeric_of(s.subrange(i, i + n))),
                end: i + n,
                lexeme: None,
            },
        )
    } else if string_match(s, i) is Some {
        let (ty, inner, total) = string_match(s, i).unwrap();
        Some(
            ScanResult {
                kind: TokenType::StringLit(ty),
                end: i + total,
                lexeme: Some(s.subrange(i + 1, i + 1 + inner)),
            },
        )
    } else if value_reserved_match(s, i) is Some {
        let (kind, n) = value_reserved_match(s, i).unwrap();
        Some(ScanResult { kind, end: i + n, lexeme: Some(s.subrange(i, i + n)) })
    } else if reserved_kind(char_at(s, i)) is Some {
        Some(ScanResult { kind: reserved_kind(char_at(s, i)).unwrap(), end: i + 1, lexeme: None })
    } else {
        None
    }
}

/// Reading one more digit multiplies the value so far by ten and adds the
/// digit.
pub proof fn lemma_dec_val_step(r: Seq<char>, i: int)
    requires
        0 <= i < r.len(),
    ensures
        dec_val(r.subrange(0, i + 1)) == dec_val(r.subrange(0, i)) * 10 + digit_val(r[i]),
{
    assert(r.subrange(0, i + 1).drop_last() =~= r.subrange(0, i));
    assert(r.subrange(0, i + 1).last() == r[i]);
}

/// The block-comment scan stays inside the buffer and takes at least one
/// character while any remain.
pub proof fn lemma_block_rest_len_bounds(s: Seq<char>, j: int)
    requires
        0 <= j <= s.len(),
    ensures
        j < s.len() ==> 1 <= block_rest_len(s, j),
        j + block_rest_len(s, j) <= s.len(),
    decreases s.len() - j,
{
    if j < s.len() && !(s[j] == '*' && j + 1 < s.len() && s[j + 1] == '/') {
        lemma_block_rest_len_bounds(s, j + 1);
    }
}

/// A successful keyword scan took at least one character and stayed inside
/// the buffer.
pub proof fn lemma_keyword_scan_bounds(s: Seq<char>, i: int, len: int)
    requires
        keyword_scan(s, i, len) is Some,
    ensures
        keyword_scan(s, i, len) matches Some((kw, n)) && len <= n <= MAX_KEYWORD_LENGTH as int && i
            + n <= s.len(),
    decreases MAX_KEYWORD_LENGTH + 1 - len,
{
    if !(len <= 0 || len > MAX_KEYWORD_LENGTH as int) {
        if !(i + len <= s.len() && keyword_of(s.subrange(i, i + len)) is Some) {
            lemma_keyword_scan_bounds(s, i, len + 1);
        }
    }
}

/// Every token a recognizer pass produces is non-empty and ends inside the
/// buffer: each call consumes at least one character, so a lexing session
/// makes progress and its tokens partition the input without gaps.
pub proof fn lemma_scan_bounds(s: Seq<char>, i: int)
    requires
        0 <= i <= s.len(),
    ensures
        scan(s, i) matches Some(r) ==> i < r.end <= s.len(),
        i == s.len() ==> scan(s, i) is None,
{
    crate::chars::lemma_run_len(s, i, ws_pred());
    crate::chars::lemma_run_len(s, i, not_char_pred('\n'));
    crate::chars::lemma_run_len(s, i, ident_pred());
    crate::chars::lemma_run_len(s, i, num_pred());
    if comment_match(s, i) is Some {
        if char_at(s, i) == '/' && char_at(s, i + 1) == '/' {
            assert(i < s.len());
            assert(not_char_pred('\n')(s[i]));
            crate::chars::lemma_run_len_at_least(s, i, not_char_pred('\n'), 1);
        } else {
            assert(i < s.len());
            lemma_block_rest_len_bounds(s, i + 1);
        }
    }
    if keyword_match(s, i) is Some {
        lemma_keyword_scan_bounds(s, i, 1);
    }
    if ident_match(s, i) is Some {
        assert(i < s.len());
        assert(ident_pred()(s[i]));
        crate::chars::lemma_run_len_at_least(s, i, ident_pred(), 1);
    }
    if number_match(s, i) is Some {
        assert(i < s.len());
        assert(num_pred()(s[i]));
        crate::chars::lemma_run_len_at_least(s, i, num_pred(), 1);
    }
    if string_match(s, i) is Some {
        assert(i < s.len());
        crate::chars::lemma_run_len(s, i + 1, not_char_pred(char_at(s, i)));
    }
}

} // verus!
