//! Literals: numbers and the unit value.

use vstd::prelude::*;

use crate::ast::expr::Unit;
use crate::span::{unknown_span, Span};

verus! {

/// A literal expression.
#[derive(Clone, Copy, PartialEq, Eq, Structural, Debug)]
pub enum Lit {
    NumLit(NumLit),
    UnitLit(Unit),
}

impl Lit {
    /// The span of the literal, whichever variant holds it.
    pub open spec fn spec_span(self) -> Span {
        match self {
            Lit::NumLit(num_lit) => num_lit.span,
            Lit::UnitLit(unit_lit) => unit_lit.span,
        }
    }

    pub fn span(&self) -> (r: Span)
        ensures
            r == self.spec_span(),
    {
        match self {
            Lit::NumLit(num_lit) => num_lit.span,
            Lit::UnitLit(unit_lit) => unit_lit.span,
        }
    }
}

/// A numeric literal: a 32-bit value and the span it was read from.
#[derive(Clone, Copy, PartialEq, Eq, Structural, Debug)]
pub struct NumLit {
    pub value: i32,
    pub span: Span,
}

impl NumLit {
    /// Zero at the unknown position.
    pub fn new() -> (r: Self)
        ensures
            r == (NumLit { value: 0, span: unknown_span() }),
    {
        NumLit { value: 0, span: Span::new() }
    }

    pub fn with_value(self, value: i32) -> (r: Self)
        ensures
            r == (NumLit { value, span: self.span }),
    {
        NumLit { value, ..self }
    }

    pub fn with_span(self, span: Span) -> (r: Self)
        ensures
            r == (NumLit { value: self.value, span }),
    {
        NumLit { span, ..self }
    }

    pub fn value(&self) -> (r: i32)
        ensures
            r == self.value,
    {
        self.value
    }
}

} // verus!
