//! End-to-end lexing: token streams, spans, payloads, and errors.

use lexer::keyword::Keyword;
use lexer::token::{AccessType, LexError, Numeric, StringType, Token, TokenType};
use lexer::Lexer;

/// Lexes `src` to completion, panicking on any lexical error.
fn lex_tokens(src: &str) -> Vec<Token> {
    let mut lx = Lexer::new(src);
    let mut out = Vec::new();
    loop {
        match lx.next() {
            Ok(Some(t)) => out.push(t),
            Ok(None) => return out,
            Err(e) => panic!("lexical error at {}..{}", e.start, e.end),
        }
    }
}

fn chars_of(s: &str) -> Vec<char> {
    s.chars().collect()
}

fn assert_lexeme(t: &Token, expected: &str) {
    assert_eq!(t.lexeme.as_ref().expect("token should carry a payload"), &chars_of(expected));
}

#[test]
fn empty_input_is_exhausted_at_once() {
    let mut lx = Lexer::new("");
    assert!(matches!(lx.next(), Ok(None)));
    assert!(matches!(lx.next(), Ok(None)));
}

#[test]
fn whitespace_is_one_maximal_token() {
    let toks = lex_tokens(" \t\n ");
    assert_eq!(toks.len(), 1);
    assert_eq!(toks[0].kind, TokenType::Whitespace);
    assert_eq!((toks[0].start, toks[0].end), (0, 4));
    assert_lexeme(&toks[0], " \t\n ");
}

#[test]
fn keyword_needs_trailing_whitespace() {
    let toks = lex_tokens("if ");
    assert_eq!(toks.len(), 2);
    assert_eq!(toks[0].kind, TokenType::Keyword(Keyword::If));
    assert_eq!((toks[0].start, toks[0].end), (0, 2));
    assert!(toks[0].lexeme.is_none());
    assert_eq!(toks[1].kind, TokenType::Whitespace);
    assert_eq!((toks[1].start, toks[1].end), (2, 3));
}

#[test]
fn keyword_prefix_of_identifier_is_identifier() {
    let toks = lex_tokens("ifx");
    assert_eq!(toks.len(), 1);
    assert_eq!(toks[0].kind, TokenType::Identifier);
    assert_lexeme(&toks[0], "ifx");
}

#[test]
fn keyword_at_end_of_input_is_identifier() {
    let toks = lex_tokens("if");
    assert_eq!(toks.len(), 1);
    assert_eq!(toks[0].kind, TokenType::Identifier);
    assert_lexeme(&toks[0], "if");
}

#[test]
fn keyword_before_punctuation_is_identifier() {
    let toks = lex_tokens("if(");
    assert_eq!(toks.len(), 2);
    assert_eq!(toks[0].kind, TokenType::Identifier);
    assert_lexeme(&toks[0], "if");
    assert_eq!(toks[1].kind, TokenType::LeftParenthesis);
}

#[test]
fn keyword_scan_commits_to_first_vocabulary_prefix() {
    // "for" is found first and is not whitespace-terminated, so the longer
    // "foreach" is never tried and the identifier recognizer takes over.
    let toks = lex_tokens("foreach ");
    assert_eq!(toks[0].kind, TokenType::Identifier);
    assert_lexeme(&toks[0], "foreach");
}

#[test]
fn longer_keywords_are_recognized() {
    let toks = lex_tokens("return x");
    assert_eq!(toks.len(), 3);
    assert_eq!(toks[0].kind, TokenType::Keyword(Keyword::Return));
    assert_eq!((toks[0].start, toks[0].end), (0, 6));
    assert_eq!(toks[1].kind, TokenType::Whitespace);
    assert_eq!(toks[2].kind, TokenType::Identifier);
    assert_lexeme(&toks[2], "x");
}

#[test]
fn boolean_true_is_taken_with_its_text() {
    let toks = lex_tokens("true ");
    assert_eq!(toks.len(), 2);
    assert_eq!(toks[0].kind, TokenType::Boolean);
    assert_lexeme(&toks[0], "true");
    assert_eq!((toks[0].start, toks[0].end), (0, 4));
}

#[test]
fn boolean_false_falls_to_the_identifier_recognizer() {
    // the boolean recognizer accumulates at most four characters
    let toks = lex_tokens("false");
    assert_eq!(toks.len(), 1);
    assert_eq!(toks[0].kind, TokenType::Identifier);
    assert_lexeme(&toks[0], "false");
}

#[test]
fn boolean_has_no_boundary_check() {
    let toks = lex_tokens("truex");
    assert_eq!(toks.len(), 2);
    assert_eq!(toks[0].kind, TokenType::Boolean);
    assert_eq!(toks[1].kind, TokenType::Identifier);
    assert_lexeme(&toks[1], "x");
}

#[test]
fn identifier_with_underscore_and_digits() {
    let toks = lex_tokens("_ab1_c");
    assert_eq!(toks.len(), 1);
    assert_eq!(toks[0].kind, TokenType::Identifier);
    assert_lexeme(&toks[0], "_ab1_c");
    assert_eq!((toks[0].start, toks[0].end), (0, 6));
}

#[test]
fn word_or_is_an_operator_even_inside_a_word() {
    let toks = lex_tokens("orange");
    assert_eq!(toks.len(), 2);
    assert_eq!(toks[0].kind, TokenType::Operator);
    assert_lexeme(&toks[0], "or");
    assert_eq!(toks[1].kind, TokenType::Identifier);
    assert_lexeme(&toks[1], "ange");
}

#[test]
fn word_and_is_an_operator() {
    let toks = lex_tokens("and ");
    assert_eq!(toks.len(), 2);
    assert_eq!(toks[0].kind, TokenType::Operator);
    assert_lexeme(&toks[0], "and");
    assert_eq!((toks[0].start, toks[0].end), (0, 3));
}

#[test]
fn lone_a_is_an_identifier() {
    let toks = lex_tokens("a");
    assert_eq!(toks.len(), 1);
    assert_eq!(toks[0].kind, TokenType::Identifier);
}

#[test]
fn line_comment_runs_to_newline_exclusive() {
    let toks = lex_tokens("// hi\nx");
    assert_eq!(toks.len(), 3);
    assert_eq!(toks[0].kind, TokenType::Comment);
    assert_lexeme(&toks[0], "// hi");
    assert_eq!((toks[0].start, toks[0].end), (0, 5));
    assert_eq!(toks[1].kind, TokenType::Whitespace);
    assert_eq!(toks[2].kind, TokenType::Identifier);
}

#[test]
fn block_comment_interior_star_does_not_terminate() {
    let toks = lex_tokens("/* a * b */");
    assert_eq!(toks.len(), 1);
    assert_eq!(toks[0].kind, TokenType::Comment);
    assert_eq!((toks[0].start, toks[0].end), (0, 11));
    assert_lexeme(&toks[0], "/* a * b */");
}

#[test]
fn unterminated_block_comment_runs_to_end() {
    let toks = lex_tokens("/* abc");
    assert_eq!(toks.len(), 1);
    assert_eq!(toks[0].kind, TokenType::Comment);
    assert_eq!((toks[0].start, toks[0].end), (0, 6));
}

#[test]
fn opening_star_may_close_the_block_comment() {
    let toks = lex_tokens("/*/x");
    assert_eq!(toks.len(), 2);
    assert_eq!(toks[0].kind, TokenType::Comment);
    assert_eq!((toks[0].start, toks[0].end), (0, 3));
    assert_eq!(toks[1].kind, TokenType::Identifier);
    assert_lexeme(&toks[1], "x");
}

#[test]
fn lone_slash_is_an_operator() {
    let toks = lex_tokens("/");
    assert_eq!(toks.len(), 1);
    assert_eq!(toks[0].kind, TokenType::Operator);
    assert_lexeme(&toks[0], "/");
}

#[test]
fn each_single_character_operator_in_isolation() {
    for op in ['+', '-', '*', '/', '%', '=', '<', '>', '&', '|', '^', '~'] {
        let src = format!(" {} ", op);
        let toks = lex_tokens(&src);
        assert_eq!(toks.len(), 3, "operator {}", op);
        assert_eq!(toks[0].kind, TokenType::Whitespace);
        assert_eq!(toks[1].kind, TokenType::Operator, "operator {}", op);
        assert_eq!((toks[1].start, toks[1].end), (1, 2));
        assert_eq!(toks[1].lexeme.as_ref().unwrap(), &vec![op]);
        assert_eq!(toks[2].kind, TokenType::Whitespace);
    }
}

#[test]
fn number_decodes_its_leading_digits() {
    let toks = lex_tokens("42");
    assert_eq!(toks.len(), 1);
    assert_eq!(toks[0].kind, TokenType::NumericalLit(Numeric::Int(42)));
    assert_eq!((toks[0].start, toks[0].end), (0, 2));
    assert!(toks[0].lexeme.is_none());
}

#[test]
fn number_with_leading_zeroes() {
    let toks = lex_tokens("007");
    assert_eq!(toks[0].kind, TokenType::NumericalLit(Numeric::Int(7)));
}

#[test]
fn number_consumes_digits_and_dots_as_one_token() {
    let toks = lex_tokens("1.2.3");
    assert_eq!(toks.len(), 1);
    assert_eq!(toks[0].kind, TokenType::NumericalLit(Numeric::Int(1)));
    assert_eq!((toks[0].start, toks[0].end), (0, 5));
}

#[test]
fn number_too_large_saturates() {
    let toks = lex_tokens("99999999999999999999999");
    assert_eq!(toks[0].kind, TokenType::NumericalLit(Numeric::Int(u64::MAX)));
}

#[test]
fn number_at_the_saturation_boundary() {
    let toks = lex_tokens("18446744073709551615");
    assert_eq!(toks[0].kind, TokenType::NumericalLit(Numeric::Int(u64::MAX)));
    let toks = lex_tokens("18446744073709551616");
    assert_eq!(toks[0].kind, TokenType::NumericalLit(Numeric::Int(u64::MAX)));
    let toks = lex_tokens("18446744073709551614");
    assert_eq!(toks[0].kind, TokenType::NumericalLit(Numeric::Int(u64::MAX - 1)));
}

#[test]
fn double_quoted_string_with_closing_delimiter() {
    let toks = lex_tokens("\"abc\"");
    assert_eq!(toks.len(), 1);
    assert_eq!(toks[0].kind, TokenType::StringLit(StringType::Double));
    assert_lexeme(&toks[0], "abc");
    assert_eq!((toks[0].start, toks[0].end), (0, 5));
}

#[test]
fn single_quoted_string() {
    let toks = lex_tokens("'a'x");
    assert_eq!(toks.len(), 2);
    assert_eq!(toks[0].kind, TokenType::StringLit(StringType::Single));
    assert_lexeme(&toks[0], "a");
    assert_eq!((toks[0].start, toks[0].end), (0, 3));
    assert_eq!(toks[1].kind, TokenType::Identifier);
}

#[test]
fn unterminated_string_runs_to_end() {
    let toks = lex_tokens("\"ab");
    assert_eq!(toks.len(), 1);
    assert_eq!(toks[0].kind, TokenType::StringLit(StringType::Double));
    assert_lexeme(&toks[0], "ab");
    assert_eq!((toks[0].start, toks[0].end), (0, 3));
}

#[test]
fn double_colon_is_one_static_member_accessor() {
    let toks = lex_tokens("::");
    assert_eq!(toks.len(), 1);
    assert_eq!(toks[0].kind, TokenType::Accessor(AccessType::StaticMember));
    assert_eq!((toks[0].start, toks[0].end), (0, 2));
    assert_lexeme(&toks[0], "::");
}

#[test]
fn lone_colon_is_a_colon() {
    let toks = lex_tokens(":");
    assert_eq!(toks.len(), 1);
    assert_eq!(toks[0].kind, TokenType::Colon);
    assert_eq!((toks[0].start, toks[0].end), (0, 1));
    assert_lexeme(&toks[0], ":");
}

#[test]
fn colon_before_identifier_stays_single() {
    let toks = lex_tokens(":x");
    assert_eq!(toks.len(), 2);
    assert_eq!(toks[0].kind, TokenType::Colon);
    assert_eq!(toks[1].kind, TokenType::Identifier);
}

#[test]
fn every_reserved_punctuation_mark() {
    let expected = [
        ('[', TokenType::LeftBracket),
        (']', TokenType::RightBracket),
        ('(', TokenType::LeftParenthesis),
        (')', TokenType::RightParenthesis),
        ('{', TokenType::LeftBrace),
        ('}', TokenType::RightBrace),
        (';', TokenType::EOS),
        (',', TokenType::Comma),
        ('\\', TokenType::Backslash),
        ('.', TokenType::Dot),
        ('$', TokenType::Variable),
        ('?', TokenType::QuestionMark),
    ];
    for (c, kind) in expected {
        let src = c.to_string();
        let toks = lex_tokens(&src);
        assert_eq!(toks.len(), 1, "mark {}", c);
        assert_eq!(toks[0].kind, kind, "mark {}", c);
        assert_eq!((toks[0].start, toks[0].end), (0, 1));
        assert!(toks[0].lexeme.is_none());
    }
}

#[test]
fn unrecognized_character_is_an_error_spanning_it() {
    let mut lx = Lexer::new("@");
    match lx.next() {
        Err(e) => assert_eq!(e, LexError { start: 0, end: 1 }),
        other => panic!("expected a lexical error, got {:?}", other),
    }
    assert!(matches!(lx.next(), Ok(None)));
}

#[test]
fn lexing_resumes_after_an_error() {
    let mut lx = Lexer::new("@x");
    match lx.next() {
        Err(e) => {
            assert_eq!((e.start, e.end), (0, 1));
        },
        other => panic!("expected a lexical error, got {:?}", other),
    }
    match lx.next() {
        Ok(Some(t)) => {
            assert_eq!(t.kind, TokenType::Identifier);
            assert_eq!((t.start, t.end), (1, 2));
        },
        other => panic!("expected an identifier, got {:?}", other),
    }
    assert!(matches!(lx.next(), Ok(None)));
}

#[test]
fn backtick_matches_no_recognizer() {
    let mut lx = Lexer::new("`x`");
    match lx.next() {
        Err(e) => assert_eq!((e.start, e.end), (0, 1)),
        other => panic!("expected a lexical error, got {:?}", other),
    }
}

#[test]
fn identifier_continues_through_unicode_letters() {
    let toks = lex_tokens("caf\u{e9}");
    assert_eq!(toks.len(), 1);
    assert_eq!(toks[0].kind, TokenType::Identifier);
    assert_lexeme(&toks[0], "caf\u{e9}");
    assert_eq!((toks[0].start, toks[0].end), (0, 4));
}

#[test]
fn identifier_stops_at_a_non_alphanumeric_character() {
    let mut lx = Lexer::new("a\u{a7}");
    match lx.next() {
        Ok(Some(t)) => {
            assert_eq!(t.kind, TokenType::Identifier);
            assert_eq!((t.start, t.end), (0, 1));
        },
        other => panic!("expected an identifier, got {:?}", other),
    }
    match lx.next() {
        Err(e) => assert_eq!((e.start, e.end), (1, 2)),
        other => panic!("expected a lexical error, got {:?}", other),
    }
}

#[test]
fn unicode_whitespace_is_whitespace() {
    let toks = lex_tokens("a\u{3000}b");
    assert_eq!(toks.len(), 3);
    assert_eq!(toks[0].kind, TokenType::Identifier);
    assert_eq!(toks[1].kind, TokenType::Whitespace);
    assert_lexeme(&toks[1], "\u{3000}");
    assert_eq!(toks[2].kind, TokenType::Identifier);
}

#[test]
fn token_spans_partition_a_small_program() {
    let src = "$x = 1; // init\necho \"hi\"";
    let input: Vec<char> = src.chars().collect();
    let toks = lex_tokens(src);
    assert!(!toks.is_empty());
    assert_eq!(toks[0].start, 0);
    for w in toks.windows(2) {
        assert_eq!(w[0].end, w[1].start, "gap or overlap between tokens");
    }
    assert_eq!(toks.last().unwrap().end, input.len());
    let mut rebuilt: Vec<char> = Vec::new();
    for t in &toks {
        rebuilt.extend_from_slice(&input[t.start..t.end]);
    }
    assert_eq!(rebuilt, input);
}

#[test]
fn mixed_program_token_kinds() {
    let toks = lex_tokens("echo $a::b;");
    let kinds: Vec<&TokenType> = toks.iter().map(|t| &t.kind).collect();
    assert_eq!(
        kinds,
        vec![
            &TokenType::Keyword(Keyword::Echo),
            &TokenType::Whitespace,
            &TokenType::Variable,
            &TokenType::Identifier,
            &TokenType::Accessor(AccessType::StaticMember),
            &TokenType::Identifier,
            &TokenType::EOS,
        ]
    );
}
