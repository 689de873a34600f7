//! The keyword vocabulary: a lookup oracle from candidate text to keyword,
//! together with the upper bound on keyword length that the keyword
//! recognizer scans up to.

use vstd::prelude::*;

verus! {

#[derive(Clone, Copy, Debug, PartialEq, Eq, Structural)]
pub enum Keyword {
    If,
    Else,
    While,
    For,
    Foreach,
    Function,
    Return,
    Echo,
    Class,
    New,
}

/// No keyword is longer than this many characters.
pub const MAX_KEYWORD_LENGTH: usize = 8;

/// The keyword named by `s`, if any: the vocabulary as a lookup table.
pub open spec fn keyword_of(s: Seq<char>) -> Option<Keyword> {
    if s.len() == 2 && s[0] == 'i' && s[1] == 'f' {
        Some(Keyword::If)
    } else if s.len() == 3 && s[0] == 'f' && s[1] == 'o' && s[2] == 'r' {
        Some(Keyword::For)
    } else if s.len() == 3 && s[0] == 'n' && s[1] == 'e' && s[2] == 'w' {
        Some(Keyword::New)
    } else if s.len() == 4 && s[0] == 'e' && s[1] == 'l' && s[2] == 's' && s[3] == 'e' {
        Some(Keyword::Else)
    } else if s.len() == 4 && s[0] == 'e' && s[1] == 'c' && s[2] == 'h' && s[3] == 'o' {
        Some(Keyword::Echo)
    } else if s.len() == 5 && s[0] == 'w' && s[1] == 'h' && s[2] == 'i' && s[3] == 'l' && s[4]
        == 'e' {
        Some(Keyword::While)
    } else if s.len() == 5 && s[0] == 'c' && s[1] == 'l' && s[2] == 'a' && s[3] == 's' && s[4]
        == 's' {
        Some(Keyword::Class)
    } else if s.len() == 6 && s[0] == 'r' && s[1] == 'e' && s[2] == 't' && s[3] == 'u' && s[4]
        == 'r' && s[5] == 'n' {
        Some(Keyword::Return)
    } else if s.len() == 7 && s[0] == 'f' && s[1] == 'o' && s[2] == 'r' && s[3] == 'e' && s[4]
        == 'a' && s[5] == 'c' && s[6] == 'h' {
        Some(Keyword::Foreach)
    } else if s.len() == 8 && s[0] == 'f' && s[1] == 'u' && s[2] == 'n' && s[3] == 'c' && s[4]
        == 't' && s[5] == 'i' && s[6] == 'o' && s[7] == 'n' {
        Some(Keyword::Function)
    } else {
        None
    }
}

/// Every keyword opens with an ASCII letter, so a candidate that opens with
/// anything else names no keyword.
pub proof fn lemma_keyword_starts_with_letter(s: Seq<char>)
    requires
        s.len() > 0,
        !crate::chars::is_ascii_letter(s[0]),
    ensures
        keyword_of(s) is None,
{
}

/// Looks the slice `chars[start .. start + len]` up in the vocabulary.
pub fn keyword_lookup(chars: &Vec<char>, start: usize, len: usize) -> (r: Option<Keyword>)
    requires
        start + len <= chars@.len(),
    ensures
        r == keyword_of(chars@.subrange(start as int, start as int + len as int)),
{
    let ghost s = chars@.subrange(start as int, start as int + len as int);
    let n = chars.len();
    assert(start + len <= n);
    if len == 2 && chars[start] == 'i' && chars[start + 1] == 'f' {
        Some(Keyword::If)
    } else if len == 3 && chars[start] == 'f' && chars[start + 1] == 'o' && chars[start + 2]
        == 'r' {
        Some(Keyword::For)
    } else if len == 3 && chars[start] == 'n' && chars[start + 1] == 'e' && chars[start + 2]
        == 'w' {
        Some(Keyword::New)
    } else if len == 4 && chars[start] == 'e' && chars[start + 1] == 'l' && chars[start + 2]
        == 's' && chars[start + 3] == 'e' {
        Some(Keyword::Else)
    } else if len == 4 && chars[start] == 'e' && chars[start + 1] == 'c' && chars[start + 2]
        == 'h' && chars[start + 3] == 'o' {
        Some(Keyword::Echo)
    } else if len == 5 && chars[start] == 'w' && chars[start + 1] == 'h' && chars[start + 2]
        == 'i' && chars[start + 3] == 'l' && chars[start + 4] == 'e' {
        Some(Keyword::While)
    } else if len == 5 && chars[start] == 'c' && chars[start + 1] == 'l' && chars[start + 2]
        == 'a' && chars[start + 3] == 's' && chars[start + 4] == 's' {
        Some(Keyword::Class)
    } else if len == 6 && chars[start] == 'r' && chars[start + 1] == 'e' && chars[start + 2]
        == 't' && chars[start + 3] == 'u' && chars[start + 4] == 'r' && chars[start + 5] == 'n' {
        Some(Keyword::Return)
    } else if len == 7 && chars[start] == 'f' && chars[start + 1] == 'o' && chars[start + 2]
        == 'r' && chars[start + 3] == 'e' && chars[start + 4] == 'a' && chars[start + 5] == 'c'
        && chars[start + 6] == 'h' {
        Some(Keyword::Foreach)
    } else if len == 8 && chars[start] == 'f' && chars[start + 1] == 'u' && chars[start + 2]
        == 'n' && chars[start + 3] == 'c' && chars[start + 4] == 't' && chars[start + 5] == 'i'
        && chars[start + 6] == 'o' && chars[start + 7] == 'n' {
        Some(Keyword::Function)
    } else {
        None
    }
}

} // verus!
