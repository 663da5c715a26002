//! The lexer: tokens, spans, and lexical errors.

use inlet::ast::literal::NumLit;
use inlet::lexer::Lexer;
use inlet::span::{Location, Span};
use inlet::token::Token;

fn chars(s: &str) -> Vec<char> {
    s.chars().collect()
}

fn lex(s: &str) -> (Vec<Token>, Vec<Span>) {
    let src = chars(s);
    let mut lexer = Lexer::new(&src);
    lexer.lex().expect("input should lex")
}

fn loc(line: usize, column: usize) -> Location {
    Location { line, column }
}

#[test]
fn keywords_idents_and_symbols() {
    let (tokens, spans) = lex("fn main(x: {a}) -> {*} { let y = x + 2 * 3; return y; }");
    assert_eq!(tokens.len(), spans.len());
    assert_eq!(tokens[0], Token::KwFn);
    match &tokens[1] {
        Token::Ident(id) => assert_eq!(id.raw.iter().collect::<String>(), "main"),
        t => panic!("expected an identifier, got {:?}", t.to_chars().iter().collect::<String>()),
    }
    assert_eq!(tokens[2], Token::LParen);
    assert_eq!(*tokens.last().unwrap(), Token::EOF);
    // only the last token is EOF
    for t in &tokens[..tokens.len() - 1] {
        assert!(*t != Token::EOF);
    }
}

#[test]
fn return_is_a_keyword() {
    let (tokens, _) = lex("return");
    assert_eq!(tokens[0], Token::KwReturn);
}

#[test]
fn numbers_parse_to_their_value() {
    let (tokens, _) = lex("40 + 2");
    match &tokens[0] {
        Token::NumLit(n) => assert_eq!(n.value(), 40),
        _ => panic!("expected a number"),
    }
    assert_eq!(tokens[1], Token::Plus);
    match &tokens[2] {
        Token::NumLit(n) => assert_eq!(*n, NumLit::new().with_value(2)),
        _ => panic!("expected a number"),
    }
}

#[test]
fn spans_run_forward_and_match_tokens() {
    let (tokens, spans) = lex("fn  foo\n  bar");
    assert_eq!(tokens.len(), spans.len());
    // `fn` covers columns 1..2 of line 1
    assert_eq!(spans[0], Span { from: loc(1, 1), to: loc(1, 2) });
    // `foo` covers columns 5..7 of line 1
    assert_eq!(spans[1], Span { from: loc(1, 5), to: loc(1, 7) });
    // `bar` sits on line 2 after the newline reset
    assert_eq!(spans[2], Span { from: loc(2, 3), to: loc(2, 5) });
    for s in &spans {
        assert!(s.from.line < s.to.line || (s.from.line == s.to.line && s.from.column <= s.to.column));
    }
}

#[test]
fn double_colon_is_one_token() {
    let (tokens, _) = lex("a::b:c");
    assert_eq!(tokens[1], Token::ColonColon);
    assert_eq!(tokens[3], Token::Colon);
}

#[test]
fn arrow_requires_its_tail() {
    let src = chars("-x");
    let mut lexer = Lexer::new(&src);
    let err = lexer.lex().expect_err("a lone minus is not a token");
    assert_eq!(err.reason.iter().collect::<String>(), "Expected '->' but found x");
}

#[test]
fn unexpected_character_is_reported() {
    let src = chars("fn f!");
    let mut lexer = Lexer::new(&src);
    let err = lexer.lex().expect_err("bang is not a token");
    assert_eq!(err.reason.iter().collect::<String>(), "Unexpected character '!'");
}

#[test]
fn number_overflow_is_a_lexical_error() {
    let src = chars("2147483648");
    let mut lexer = Lexer::new(&src);
    let err = lexer.lex().expect_err("the value does not fit an i32");
    assert_eq!(
        err.reason.iter().collect::<String>(),
        "Could not convert '2147483648' into an `i32`"
    );
    let src2 = chars("2147483647");
    let mut lexer2 = Lexer::new(&src2);
    let (tokens, _) = lexer2.lex().expect("the maximum value fits");
    match &tokens[0] {
        Token::NumLit(n) => assert_eq!(n.value(), 2147483647),
        _ => panic!("expected a number"),
    }
}

#[test]
fn empty_input_is_just_eof() {
    let (tokens, spans) = lex("");
    assert_eq!(tokens.len(), 1);
    assert_eq!(spans.len(), 1);
    assert_eq!(tokens[0], Token::EOF);
    assert_eq!(spans[0].from, spans[0].to);
}

#[test]
fn trailing_newline_is_skipped() {
    let (tokens, _) = lex("fn\n");
    assert_eq!(tokens.len(), 2);
    assert_eq!(tokens[0], Token::KwFn);
}
