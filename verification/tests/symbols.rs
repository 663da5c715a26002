//! The scoped symbol table and the driver's decisions.

use inlet::driver::{entry_shape, CrateShape, DepCheck, ProcessContext, ShapeError};
use inlet::symbol::SymbolTable;

fn chars(s: &str) -> Vec<char> {
    s.chars().collect()
}

#[test]
fn find_falls_through_to_the_parent() {
    let mut parent: SymbolTable<Vec<char>> = SymbolTable::new();
    parent.insert(chars("a"), chars("outer"));
    let mut table = SymbolTable::new().with_previous(parent);
    table.insert(chars("b"), chars("inner"));
    assert_eq!(table.find(&chars("a")), Some(chars("outer")));
    assert_eq!(table.find(&chars("b")), Some(chars("inner")));
    assert_eq!(table.find(&chars("c")), None);
}

#[test]
fn later_insertions_win() {
    let mut table: SymbolTable<Vec<char>> = SymbolTable::new();
    table.insert(chars("k"), chars("first"));
    table.insert(chars("k"), chars("second"));
    assert_eq!(table.find(&chars("k")), Some(chars("second")));
}

#[test]
fn own_entries_shadow_the_parent() {
    let mut parent: SymbolTable<Vec<char>> = SymbolTable::new();
    parent.insert(chars("k"), chars("outer"));
    let mut table = SymbolTable::new().with_previous(parent);
    table.insert(chars("k"), chars("inner"));
    assert_eq!(table.find(&chars("k")), Some(chars("inner")));
}

#[test]
fn clear_keeps_the_parent() {
    let mut parent: SymbolTable<Vec<char>> = SymbolTable::new();
    parent.insert(chars("a"), chars("outer"));
    let mut table = SymbolTable::new().with_previous(parent);
    table.insert(chars("b"), chars("inner"));
    table.clear();
    assert_eq!(table.find(&chars("b")), None);
    assert_eq!(table.find(&chars("a")), Some(chars("outer")));
}

#[test]
fn cloning_snapshots_the_table() {
    let mut table: SymbolTable<Vec<char>> = SymbolTable::new();
    table.insert(chars("k"), chars("v"));
    let snapshot = table.clone();
    table.insert(chars("k"), chars("changed"));
    assert_eq!(snapshot.find(&chars("k")), Some(chars("v")));
    assert_eq!(table.find(&chars("k")), Some(chars("changed")));
}

#[test]
fn entry_shape_requires_an_entry_file() {
    assert!(matches!(entry_shape(false, false, false), Err(ShapeError::NoEntry)));
    assert!(matches!(entry_shape(false, true, false), Ok(CrateShape::Binary)));
    assert!(matches!(entry_shape(false, false, true), Ok(CrateShape::Library)));
    assert!(matches!(entry_shape(false, true, true), Ok(CrateShape::Binary)));
}

#[test]
fn a_binary_cannot_depend_on_a_binary() {
    assert!(matches!(
        entry_shape(true, true, false),
        Err(ShapeError::BinaryDependency)
    ));
    assert!(matches!(entry_shape(true, false, true), Ok(CrateShape::Library)));
}

#[test]
fn dependency_registration_detects_conflicts() {
    let mut ctx = ProcessContext::new();
    assert!(matches!(
        ctx.check_dependency(chars("dep"), &chars("../dep")),
        DepCheck::Fresh
    ));
    assert!(matches!(
        ctx.check_dependency(chars("dep"), &chars("../dep")),
        DepCheck::Seen
    ));
    assert!(matches!(
        ctx.check_dependency(chars("dep"), &chars("../elsewhere")),
        DepCheck::Conflict
    ));
}
