//! Lexical and parse errors.
//!
//! Both are single-shot and fatal for the offending file: they carry a
//! human-readable reason and recovery is not attempted.

use vstd::prelude::*;

verus! {

/// A lexical error.
#[derive(Debug)]
pub struct LexError {
    pub reason: Vec<char>,
}

impl View for LexError {
    type V = Seq<char>;

    open spec fn view(&self) -> Seq<char> {
        self.reason@
    }
}

impl LexError {
    pub fn new(reason: Vec<char>) -> (r: Self)
        ensures
            r@ == reason@,
    {
        LexError { reason }
    }
}

/// A parse error.
#[derive(Debug)]
pub struct ParseError {
    pub reason: Vec<char>,
}

impl View for ParseError {
    type V = Seq<char>;

    open spec fn view(&self) -> Seq<char> {
        self.reason@
    }
}

impl ParseError {
    pub fn new(reason: Vec<char>) -> (r: Self)
        ensures
            r@ == reason@,
    {
        ParseError { reason }
    }
}

} // verus!
