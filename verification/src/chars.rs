//! Character classes used by the recognizers, together with the generic
//! notion of a maximal run of characters satisfying a predicate.

use vstd::prelude::*;

verus! {

/// Sentinel character reported by lookahead past the end of the buffer.
/// Every recognizer predicate treats it as "no printable character here".
pub const END_OF_FILE: char = '\0';

/// The character of `s` at position `i`, or the end-of-file sentinel when
/// `i` lies outside the buffer.
pub open spec fn char_at(s: Seq<char>, i: int) -> char {
    if 0 <= i < s.len() {
        s[i]
    } else {
        END_OF_FILE
    }
}

/// Length of the longest run of characters of `s` satisfying `p`,
/// starting at position `i`.
pub open spec fn run_len(s: Seq<char>, i: int, p: spec_fn(char) -> bool) -> int
    decreases s.len() - i,
{
    if i < 0 || i >= s.len() || !p(s[i]) {
        0
    } else {
        1 + run_len(s, i + 1, p)
    }
}

/// Basic facts about `run_len`: the run stays inside the buffer, every
/// character of the run satisfies `p`, and the first character after the
/// run (if any) does not.
pub proof fn lemma_run_len(s: Seq<char>, i: int, p: spec_fn(char) -> bool)
    requires
        0 <= i <= s.len(),
    ensures
        0 <= run_len(s, i, p),
        i + run_len(s, i, p) <= s.len(),
        forall|j: int| i <= j < i + run_len(s, i, p) ==> #[trigger] p(s[j]),
        i + run_len(s, i, p) < s.len() ==> !p(s[i + run_len(s, i, p)]),
    decreases s.len() - i,
{
    if i < s.len() && p(s[i]) {
        lemma_run_len(s, i + 1, p);
    }
}

/// A run of `k` characters satisfying `p` forces the maximal run to have
/// length at least `k`: `run_len` never undercounts.
pub proof fn lemma_run_len_at_least(s: Seq<char>, i: int, p: spec_fn(char) -> bool, k: int)
    requires
        0 <= i,
        0 <= k,
        i + k <= s.len(),
        forall|j: int| i <= j < i + k ==> #[trigger] p(s[j]),
    ensures
        run_len(s, i, p) >= k,
    decreases k,
{
    if k > 0 {
        assert(p(s[i]));
        lemma_run_len_at_least(s, i + 1, p, k - 1);
        assert(run_len(s, i, p) == 1 + run_len(s, i + 1, p));
    } else {
        lemma_run_len(s, i, p);
    }
}

/// A run of exactly `k` characters satisfying `p`, delimited by the end of
/// the buffer or by a character that fails `p`, is the maximal run.
pub proof fn lemma_run_len_exact(s: Seq<char>, i: int, p: spec_fn(char) -> bool, k: int)
    requires
        0 <= i,
        0 <= k,
        i + k <= s.len(),
        forall|j: int| i <= j < i + k ==> #[trigger] p(s[j]),
        i + k == s.len() || !p(s[i + k]),
    ensures
        run_len(s, i, p) == k,
    decreases k,
{
    if k > 0 {
        assert(p(s[i]));
        lemma_run_len_exact(s, i + 1, p, k - 1);
    }
}

/// Unicode whitespace: the characters with the `White_Space` property.
pub open spec fn is_space_char(c: char) -> bool {
    ||| c == ' '
    ||| c == '\t'
    ||| c == '\n'
    ||| c == '\r'
    ||| c == '\u{b}'
    ||| c == '\u{c}'
    ||| c == '\u{85}'
    ||| c == '\u{a0}'
    ||| c == '\u{1680}'
    ||| (0x2000 <= c as u32 && c as u32 <= 0x200a)
    ||| c == '\u{2028}'
    ||| c == '\u{2029}'
    ||| c == '\u{202f}'
    ||| c == '\u{205f}'
    ||| c == '\u{3000}'
}

pub fn is_space(c: char) -> (b: bool)
    ensures
        b == is_space_char(c),
{
    let u = c as u32;
    c == ' ' || c == '\t' || c == '\n' || c == '\r' || c == '\u{b}' || c == '\u{c}'
        || c == '\u{85}' || c == '\u{a0}' || c == '\u{1680}' || (0x2000 <= u && u <= 0x200a)
        || c == '\u{2028}' || c == '\u{2029}' || c == '\u{202f}' || c == '\u{205f}'
        || c == '\u{3000}'
}

/// The single-character operators.
pub open spec fn is_op_char(c: char) -> bool {
    ||| c == '+'
    ||| c == '-'
    ||| c == '*'
    ||| c == '/'
    ||| c == '%'
    ||| c == '='
    ||| c == '<'
    ||| c == '>'
    ||| c == '&'
    ||| c == '|'
    ||| c == '^'
    ||| c == '~'
}

pub fn is_op(c: char) -> (b: bool)
    ensures
        b == is_op_char(c),
{
    c == '+' || c == '-' || c == '*' || c == '/' || c == '%' || c == '=' || c == '<' || c == '>'
        || c == '&' || c == '|' || c == '^' || c == '~'
}

/// Decimal digits.
pub open spec fn is_digit_char(c: char) -> bool {
    48 <= c as u32 && c as u32 <= 57
}

pub fn is_digit(c: char) -> (b: bool)
    ensures
        b == is_digit_char(c),
{
    let u = c as u32;
    48 <= u && u <= 57
}

/// The numeric value of a decimal digit (0 for any other character).
pub open spec fn digit_val(c: char) -> nat {
    if is_digit_char(c) {
        (c as u32 - 48) as nat
    } else {
        0
    }
}

pub fn digit_value(c: char) -> (v: u64)
    requires
        is_digit_char(c),
    ensures
        v == digit_val(c),
        v <= 9,
{
    (c as u32 - 48) as u64
}

pub open spec fn is_ascii_letter(c: char) -> bool {
    (97 <= c as u32 && c as u32 <= 122) || (65 <= c as u32 && c as u32 <= 90)
}

/// A character that may open an identifier: an underscore or an ASCII
/// letter. `'A'..='z'` would also admit the punctuation between the two
/// letter ranges, which is claimed by other recognizers.
pub open spec fn is_ident_start(c: char) -> bool {
    c == '_' || is_ascii_letter(c)
}

pub fn ident_start(c: char) -> (b: bool)
    ensures
        b == is_ident_start(c),
{
    let u = c as u32;
    c == '_' || (97 <= u && u <= 122) || (65 <= u && u <= 90)
}

/// What `char::is_alphanumeric` returns: it depends on the character alone.
pub uninterp spec fn is_alnum_char(c: char) -> bool;

/// Relies on `char::is_alphanumeric`: a character is alphanumeric exactly
/// when it is Unicode alphabetic or a Unicode digit; in particular every
/// ASCII letter and every decimal digit is alphanumeric.
#[verifier::external_body]
pub(crate) fn is_alnum(c: char) -> (b: bool)
    ensures
        b == is_alnum_char(c),
        is_ascii_letter(c) || is_digit_char(c) ==> b,
{
    c.is_alphanumeric()
}

/// A character that may continue an identifier: anything alphanumeric or an
/// underscore, whitespace excluded. ASCII letters and digits are named
/// outright, so that what holds of them needs no appeal to
/// `is_alnum_char`; the latter only widens the set beyond ASCII.
pub open spec fn is_ident_char(c: char) -> bool {
    !is_space_char(c) && (is_alnum_char(c) || is_ascii_letter(c) || is_digit_char(c) || c == '_')
}

pub fn ident_char(c: char) -> (b: bool)
    ensures
        b == is_ident_char(c),
{
    !is_space(c) && (is_alnum(c) || c == '_')
}

} // verus!
