//! Properties of the lexer that hold of every input, stated and proved
//! over the spec model that the executable contracts speak of.

use crate::chars::{char_at, is_digit_char, is_ident_char, is_ident_start, is_op_char,
    is_space_char, lemma_run_len, lemma_run_len_at_least, run_len};
use crate::keyword::{lemma_keyword_starts_with_letter, MAX_KEYWORD_LENGTH};
use crate::scan::{boolean_match, comment_match, ident_match, ident_pred, keyword_scan,
    number_match, operator_match, reserved_kind, scan, string_match, value_reserved_match,
    ws_len, ws_pred, ScanResult};
use crate::token::{AccessType, TokenType};
use vstd::prelude::*;

verus! {

/// The concatenation of the text under each span, in order.
pub open spec fn concat_spans(s: Seq<char>, spans: Seq<(int, int)>) -> Seq<char>
    decreases spans.len(),
{
    if spans.len() == 0 {
        Seq::empty()
    } else {
        concat_spans(s, spans.drop_last()) + s.subrange(spans.last().0, spans.last().1)
    }
}

/// Spans that sit back to back: each starts where the one before it ended.
pub open spec fn spans_contiguous(s: Seq<char>, spans: Seq<(int, int)>) -> bool {
    &&& forall|k: int| 0 <= k < spans.len() ==> 0 <= (#[trigger] spans[k]).0 <= spans[k].1
        <= s.len()
    &&& forall|k: int| 0 <= k < spans.len() - 1 ==> (#[trigger] spans[k]).1 == spans[k + 1].0
}

/// Contiguous spans running from `a` to `b` concatenate to exactly the text
/// between `a` and `b`.
proof fn lemma_concat_spans_range(s: Seq<char>, spans: Seq<(int, int)>, a: int, b: int)
    requires
        spans.len() > 0,
        spans_contiguous(s, spans),
        spans[0].0 == a,
        spans.last().1 == b,
    ensures
        concat_spans(s, spans) == s.subrange(a, b),
        0 <= a <= b <= s.len(),
    decreases spans.len(),
{
    if spans.len() == 1 {
        assert(spans.drop_last().len() == 0);
        assert(concat_spans(s, spans.drop_last()) =~= Seq::<char>::empty());
        assert(concat_spans(s, spans.drop_last()) + s.subrange(a, b) =~= s.subrange(a, b));
    } else {
        let head = spans.drop_last();
        let mid = spans[spans.len() - 2].1;
        assert(head.last() == spans[spans.len() - 2]);
        assert(spans_contiguous(s, head));
        lemma_concat_spans_range(s, head, a, mid);
        assert(mid == spans.last().0);
        assert(0 <= a <= mid <= b <= s.len());
        assert(s.subrange(a, mid) + s.subrange(mid, b) =~= s.subrange(a, b));
    }
}

/// Round-trip: a completed lexing session partitions the input into the
/// token spans (the first token starts at offset zero, each token starts
/// where the one before it ended, and the last ends at the end of the
/// input — which is what `Lexer::new` and `Lexer::next` ensure), so
/// concatenating the raw text spans of the tokens, whitespace and comments
/// included, reconstructs the input exactly.
pub proof fn lemma_round_trip(s: Seq<char>, spans: Seq<(int, int)>)
    requires
        spans_contiguous(s, spans),
        spans.len() == 0 ==> s.len() == 0,
        spans.len() > 0 ==> spans[0].0 == 0 && spans.last().1 == s.len(),
    ensures
        concat_spans(s, spans) == s,
{
    if spans.len() == 0 {
        assert(concat_spans(s, spans) =~= s);
    } else {
        lemma_concat_spans_range(s, spans, 0, s.len() as int);
        assert(s.subrange(0, s.len() as int) =~= s);
    }
}

/// Maximal munch: on input whose first character can open an identifier,
/// the identifier recognizer matches the longest run of identifier
/// characters from that position — never a shorter one: any run of `k`
/// identifier characters from `i` forces a match of at least `k`.
pub proof fn lemma_identifier_maximal_munch(s: Seq<char>, i: int, k: int)
    requires
        0 <= i <= s.len(),
        is_ident_start(char_at(s, i)),
        0 <= k,
        i + k <= s.len(),
        forall|j: int| i <= j < i + k ==> is_ident_char(#[trigger] s[j]),
    ensures
        ident_match(s, i) matches Some(n) && n >= k && n == run_len(s, i, ident_pred()),
        forall|j: int| i <= j < i + ident_match(s, i).unwrap() ==> is_ident_char(#[trigger] s[j]),
        i + ident_match(s, i).unwrap() < s.len() ==> !is_ident_char(
            s[i + ident_match(s, i).unwrap()],
        ),
{
    assert forall|j: int| i <= j < i + k implies #[trigger] ident_pred()(s[j]) by {
        assert(is_ident_char(s[j]));
    }
    lemma_run_len_at_least(s, i, ident_pred(), k);
    lemma_run_len(s, i, ident_pred());
    assert forall|j: int| i <= j < i + run_len(s, i, ident_pred()) implies is_ident_char(
        #[trigger] s[j],
    ) by {
        assert(ident_pred()(s[j]));
    }
}

/// A keyword scan from any prefix length finds nothing when the first
/// character cannot open a keyword.
proof fn lemma_keyword_scan_none(s: Seq<char>, i: int, len: int)
    requires
        0 <= i,
        !crate::chars::is_ascii_letter(char_at(s, i)),
    ensures
        keyword_scan(s, i, len) is None,
    decreases MAX_KEYWORD_LENGTH + 1 - len,
{
    if !(len <= 0 || len > MAX_KEYWORD_LENGTH as int) {
        if i + len <= s.len() && len >= 1 {
            lemma_keyword_starts_with_letter(s.subrange(i, i + len));
        }
        lemma_keyword_scan_none(s, i, len + 1);
    }
}

/// Unrecognized input: at a character that sits in no recognizer's trigger
/// set, the recognizer pass fails as a whole, so the driver reports a
/// lexical error spanning exactly that character.
pub proof fn lemma_unrecognized_char(s: Seq<char>, i: int)
    requires
        0 <= i < s.len(),
        !is_space_char(s[i]),
        s[i] != '/',
        !is_op_char(s[i]),
        !is_ident_start(s[i]),
        !is_digit_char(s[i]),
        s[i] != '"',
        s[i] != '\'',
        s[i] != ':',
        reserved_kind(s[i]) is None,
    ensures
        scan(s, i) is None,
{
    lemma_run_len(s, i, ws_pred());
    assert(ws_len(s, i) == 0);
    lemma_keyword_scan_none(s, i, 1);
}

/// Static accessor against colon: at a `:`, the recognizer pass always
/// produces a token — one two-character static-member accessor when a
/// second `:` follows directly, and one single-character colon otherwise.
pub proof fn lemma_colon_vs_accessor(s: Seq<char>, i: int)
    requires
        0 <= i < s.len(),
        s[i] == ':',
    ensures
        char_at(s, i + 1) == ':' ==> scan(s, i) == Some(
            ScanResult {
                kind: TokenType::Accessor(AccessType::StaticMember),
                end: i + 2,
                lexeme: Some(s.subrange(i, i + 2)),
            },
        ),
        char_at(s, i + 1) != ':' ==> scan(s, i) == Some(
            ScanResult { kind: TokenType::Colon, end: i + 1, lexeme: Some(s.subrange(i, i + 1)) },
        ),
{
    lemma_run_len(s, i, ws_pred());
    assert(ws_len(s, i) == 0);
    lemma_keyword_scan_none(s, i, 1);
    assert(comment_match(s, i) is None);
    assert(operator_match(s, i) is None);
    assert(boolean_match(s, i) is None);
    assert(ident_match(s, i) is None);
    assert(number_match(s, i) is None);
    assert(string_match(s, i) is None);
    assert(value_reserved_match(s, i) == if char_at(s, i + 1) == ':' {
        Some((TokenType::Accessor(AccessType::StaticMember), 2int))
    } else {
        Some((TokenType::Colon, 1int))
    });
}

} // verus!
