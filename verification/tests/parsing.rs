//! The parser: tree shape, precedence, spans, and parse errors.

use inlet::ast::expr::{Expr, Op};
use inlet::ast::item::Item;
use inlet::ast::stmt::Stmt;
use inlet::lexer::Lexer;
use inlet::parser::Parser;
use inlet::span::Span;
use inlet::token::Token;

fn chars(s: &str) -> Vec<char> {
    s.chars().collect()
}

fn parse(s: &str) -> inlet::ast::file::File {
    let src = chars(s);
    let mut lexer = Lexer::new(&src);
    let (tokens, spans) = lexer.lex().expect("input should lex");
    let mut parser = Parser::new(&tokens, &spans);
    parser.parse_file().expect("input should parse")
}

fn parse_err(s: &str) -> String {
    let src = chars(s);
    let mut lexer = Lexer::new(&src);
    let (tokens, spans) = lexer.lex().expect("input should lex");
    let mut parser = Parser::new(&tokens, &spans);
    let err = parser.parse_file().expect_err("input should not parse");
    err.reason.iter().collect()
}

#[test]
fn function_item_shape() {
    let file = parse("fn f(x: {a}, y: {*}) -> {b::c} { let z = x; return z; }");
    assert_eq!(file.items.len(), 1);
    match &file.items[0] {
        Item::ItemFn(f) => {
            assert_eq!(f.ident.raw.iter().collect::<String>(), "f");
            assert_eq!(f.params.len(), 2);
            assert_eq!(
                f.params[0].ident.raw.iter().collect::<String>(),
                "x"
            );
            assert_eq!(f.ret_origin.to_chars().iter().collect::<String>(), "b::c");
            assert_eq!(f.body.stmts.len(), 2);
            assert!(matches!(f.body.stmts[0], Stmt::Local(_)));
            assert!(matches!(f.body.stmts[1], Stmt::Return(_)));
        },
        Item::ItemMod(_) => panic!("expected a function"),
    }
}

#[test]
fn modules_nest() {
    let file = parse("mod outer { mod inner { fn f() -> {*} { return 1; } } }");
    match &file.items[0] {
        Item::ItemMod(outer) => {
            assert_eq!(outer.ident.raw.iter().collect::<String>(), "outer");
            match &outer.file.items[0] {
                Item::ItemMod(inner) => {
                    assert_eq!(inner.ident.raw.iter().collect::<String>(), "inner");
                    assert!(matches!(inner.file.items[0], Item::ItemFn(_)));
                },
                Item::ItemFn(_) => panic!("expected a module"),
            }
        },
        Item::ItemFn(_) => panic!("expected a module"),
    }
}

fn return_expr(file: &inlet::ast::file::File) -> &Expr {
    match &file.items[0] {
        Item::ItemFn(f) => match &f.body.stmts[0] {
            Stmt::Return(r) => &r.expr,
            _ => panic!("expected a return"),
        },
        _ => panic!("expected a function"),
    }
}

#[test]
fn multiplication_binds_tighter_than_addition() {
    let file = parse("fn f() -> {*} { return 1 + 2 * 3; }");
    match return_expr(&file) {
        Expr::Bin(top) => {
            assert!(matches!(top.op, Op::Add));
            assert!(matches!(*top.lhs, Expr::Lit(_)));
            match &*top.rhs {
                Expr::Bin(inner) => assert!(matches!(inner.op, Op::Multiply)),
                _ => panic!("expected the product on the right"),
            }
        },
        _ => panic!("expected a binary expression"),
    }
}

#[test]
fn addition_folds_to_the_left() {
    let file = parse("fn f() -> {*} { return 1 + 2 + 3; }");
    match return_expr(&file) {
        Expr::Bin(top) => {
            // (1 + 2) + 3: the first pair becomes the left operand.
            assert!(matches!(*top.lhs, Expr::Bin(_)));
            assert!(matches!(*top.rhs, Expr::Lit(_)));
        },
        _ => panic!("expected a binary expression"),
    }
}

#[test]
fn parentheses_group() {
    let file = parse("fn f() -> {*} { return (1 + 2) * 3; }");
    match return_expr(&file) {
        Expr::Bin(top) => {
            assert!(matches!(top.op, Op::Multiply));
            assert!(matches!(*top.lhs, Expr::Bin(_)));
        },
        _ => panic!("expected a binary expression"),
    }
}

#[test]
fn calls_carry_their_arguments() {
    let file = parse("fn f() -> {*} { return a::b(1, 2 + 3, c); }");
    match return_expr(&file) {
        Expr::FunCall(call) => {
            assert_eq!(call.path.to_chars().iter().collect::<String>(), "a::b");
            assert_eq!(call.args.len(), 3);
            assert!(matches!(call.args[2], Expr::Path(_)));
        },
        _ => panic!("expected a call"),
    }
}

#[test]
fn node_spans_nest_in_the_file_span() {
    let file = parse("fn f() -> {*} { return 1; }");
    let within = |inner: &Span, outer: &Span| -> bool {
        let le = |a: &inlet::span::Location, b: &inlet::span::Location| {
            a.line < b.line || (a.line == b.line && a.column <= b.column)
        };
        le(&outer.from, &inner.from) && le(&inner.to, &outer.to)
    };
    match &file.items[0] {
        Item::ItemFn(f) => {
            assert!(within(&f.span, &file.span));
            assert!(within(&f.body.span, &f.span));
            match &f.body.stmts[0] {
                Stmt::Return(r) => {
                    assert!(within(&r.span, &f.body.span));
                    assert!(within(&r.expr.span(), &r.span));
                },
                _ => panic!("expected a return"),
            }
        },
        _ => panic!("expected a function"),
    }
}

#[test]
fn item_must_begin_with_fn_or_mod() {
    assert_eq!(parse_err("let x = 1;"), "Expected 'fn' or 'mod', found let");
}

#[test]
fn missing_semicolon_is_reported() {
    let msg = parse_err("fn f() -> {*} { return 1 }");
    assert!(msg.starts_with("Expected ';' but found '}'"), "got: {msg}");
}

#[test]
fn missing_identifier_is_reported() {
    assert_eq!(parse_err("fn () -> {*} { }"), "Expected identifier, found (");
}

#[test]
fn origin_wants_star_or_path() {
    let msg = parse_err("fn f() -> {1} { return 1; }");
    assert!(msg.starts_with("Expected '*' but found '1'"), "got: {msg}");
}

#[test]
fn empty_file_parses() {
    let file = parse("");
    assert_eq!(file.items.len(), 0);
}

#[test]
fn token_display_names_tokens() {
    assert_eq!(Token::KwReturn.to_chars().iter().collect::<String>(), "return");
    assert_eq!(Token::RArrow.to_chars().iter().collect::<String>(), "->");
    assert_eq!(Token::EOF.to_chars().iter().collect::<String>(), "EOF");
}
