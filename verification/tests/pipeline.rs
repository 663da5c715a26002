//! End-to-end runs of the front end on small crates.

use inlet::driver::process_source;
use inlet::semantics::function::FunctionData;
use inlet::symbol::SymbolTable;

fn chars(s: &str) -> Vec<char> {
    s.chars().collect()
}

fn text(cs: &[char]) -> String {
    cs.iter().collect()
}

fn run(
    source: &str,
    crate_name: &str,
) -> (Vec<String>, Vec<String>) {
    let src = chars(source);
    let name = chars(crate_name);
    let table: SymbolTable<FunctionData> = SymbolTable::new();
    let out = process_source(&src, &name, &table).expect("source should lex and parse");
    let ident: Vec<String> = out.1.iter().map(|e| text(&e.message)).collect();
    let origin: Vec<String> = out.2.iter().map(|e| text(&e.message)).collect();
    (ident, origin)
}

#[test]
fn universal_return_is_clean() {
    let (ident, origin) = run("fn f() -> {*} { return 1; }", "example");
    assert_eq!(ident.len(), 0);
    assert_eq!(origin.len(), 0);
}

#[test]
fn exact_self_return_is_clean() {
    let (ident, origin) = run("fn f() -> {example} { return 1; }", "example");
    assert_eq!(ident.len(), 0);
    assert_eq!(origin.len(), 0);
}

#[test]
fn foreign_return_origin_is_reported() {
    let (ident, origin) = run("fn f() -> {other} { return 1; }", "example");
    assert_eq!(ident.len(), 0);
    assert_eq!(origin.len(), 1);
    assert_eq!(
        origin[0],
        "Function 'f' should return a value with origin 'other', \
         but a value with origin 'example' is returned instead"
    );
}

#[test]
fn fresh_argument_cannot_narrow() {
    let (ident, origin) = run(
        "fn f(x: {a}) -> {*} { return x; } fn g() -> {*} { return f(1); }",
        "example",
    );
    assert_eq!(ident.len(), 0);
    assert_eq!(origin.len(), 1);
    assert_eq!(
        origin[0],
        "Parameter 'x' of function 'f' must have an origin of 'a', \
         but a value with origin 'example' was provided"
    );
}

#[test]
fn unbound_identifier_is_reported() {
    let (ident, _origin) = run("fn f() -> {*} { let x = 1; return y; }", "example");
    assert_eq!(ident.len(), 1);
    assert_eq!(ident[0], "Couldn't find a definition for 'y'");
}

#[test]
fn unknown_callee_is_reported() {
    let (ident, _origin) = run("fn f() -> {*} { return g(); }", "example");
    assert_eq!(ident.len(), 1);
    assert_eq!(ident[0], "Couldn't find a definition for function 'g'");
}

#[test]
fn let_binding_carries_origin_to_return() {
    let (ident, origin) = run("fn f() -> {example} { let x = 1; return x; }", "example");
    assert_eq!(ident.len(), 0);
    assert_eq!(origin.len(), 0);
}

#[test]
fn binding_not_in_scope_in_own_initializer() {
    let (ident, _origin) = run("fn f() -> {*} { let x = x; return 1; }", "example");
    assert_eq!(ident.len(), 1);
    assert_eq!(ident[0], "Couldn't find a definition for 'x'");
}

#[test]
fn call_origin_is_callee_return_origin() {
    // g returns a value of origin `other`; f's return declares `other`.
    let (ident, origin) = run(
        "fn g() -> {other} { return 1; } fn f() -> {other} { return g(); }",
        "example",
    );
    assert_eq!(ident.len(), 0);
    // g's own body returns a fresh `example` value against `other`.
    assert_eq!(origin.len(), 1);
    assert_eq!(
        origin[0],
        "Function 'g' should return a value with origin 'other', \
         but a value with origin 'example' is returned instead"
    );
}

#[test]
fn arity_mismatch_is_reported() {
    let (ident, _origin) = run(
        "fn f(x: {*}) -> {*} { return 1; } fn g() -> {*} { return f(); }",
        "example",
    );
    assert_eq!(ident.len(), 1);
    assert_eq!(ident[0], "Function 'f' expects 1 arguments, but 0 were provided");
}

#[test]
fn module_prefix_extends_origin() {
    // A fresh value inside module m is born in example::m, which satisfies
    // the prefix `example`.
    let (ident, origin) = run(
        "mod m { fn f() -> {example} { return 1; } }",
        "example",
    );
    assert_eq!(ident.len(), 0);
    assert_eq!(origin.len(), 0);
}

#[test]
fn module_prefix_does_not_satisfy_sibling() {
    let (ident, origin) = run(
        "mod m { fn f() -> {example::n} { return 1; } }",
        "example",
    );
    assert_eq!(ident.len(), 0);
    assert_eq!(origin.len(), 1);
    assert_eq!(
        origin[0],
        "Function 'f' should return a value with origin 'example::n', \
         but a value with origin 'example::m' is returned instead"
    );
}

#[test]
fn pipeline_is_deterministic() {
    let src = "fn f(x: {a}) -> {*} { return x; } fn g() -> {*} { return f(1); }";
    let first = run(src, "example");
    let second = run(src, "example");
    assert_eq!(first, second);
}

#[test]
fn lex_error_aborts_the_file() {
    let src = chars("fn f() -> {*} { return 9999999999999; }");
    let name = chars("example");
    let table: SymbolTable<FunctionData> = SymbolTable::new();
    let out = process_source(&src, &name, &table);
    match out {
        Err(inlet::driver::PipelineError::Lex(e)) => {
            assert_eq!(text(&e.reason), "Could not convert '9999999999999' into an `i32`");
        },
        _ => panic!("expected a lexical error"),
    }
}

#[test]
fn parse_error_aborts_the_file() {
    let src = chars("fn f() -> {*} { 1; }");
    let name = chars("example");
    let table: SymbolTable<FunctionData> = SymbolTable::new();
    let out = process_source(&src, &name, &table);
    match out {
        Err(inlet::driver::PipelineError::Parse(e)) => {
            assert_eq!(text(&e.reason), "Unknown statement beginning with '1'");
        },
        _ => panic!("expected a parse error"),
    }
}

#[test]
fn function_table_threads_across_crates() {
    let table: SymbolTable<FunctionData> = SymbolTable::new();
    let dep = process_source(&chars("fn h() -> {*} { return 1; }"), &chars("dep"), &table)
        .expect("dep should analyze");
    // The accumulated table carries dep::h into the next crate.
    assert!(dep.0.find(&chars("dep::h")).is_some());
    let root = process_source(
        &chars("fn f() -> {*} { return 2; }"),
        &chars("example"),
        &dep.0,
    )
    .expect("root should analyze");
    assert!(root.0.find(&chars("dep::h")).is_some());
    assert!(root.0.find(&chars("example::f")).is_some());
}
