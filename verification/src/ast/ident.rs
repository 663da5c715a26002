//! Identifiers.

use vstd::prelude::*;
use vstd::slice::slice_to_vec;

use crate::span::{Location, Span};

verus! {

/// An identifier: its raw characters and the span it was read from.
/// Equality of identifiers is structural on `raw`.
#[derive(Debug)]
pub struct Ident {
    pub raw: Vec<char>,
    pub span: Span,
}

/// The view of an `Ident`.
#[verifier::ext_equal]
pub ghost struct IdentV {
    pub raw: Seq<char>,
    pub span: Span,
}

impl View for Ident {
    type V = IdentV;

    open spec fn view(&self) -> IdentV {
        IdentV { raw: self.raw@, span: self.span }
    }
}

impl Ident {
    /// An empty identifier at the unknown position.
    pub fn new() -> (r: Self)
        ensures
            r@ == (IdentV { raw: Seq::<char>::empty(), span: crate::span::unknown_span() }),
    {
        Ident { raw: Vec::new(), span: Span::new() }
    }

    pub fn with_raw(self, raw: Vec<char>) -> (r: Self)
        ensures
            r@ == (IdentV { raw: raw@, span: self@.span }),
    {
        Ident { raw, ..self }
    }

    pub fn with_span(self, span: Span) -> (r: Self)
        ensures
            r@ == (IdentV { raw: self@.raw, span }),
    {
        Ident { span, ..self }
    }

    /// The raw characters of the identifier.
    pub fn raw(&self) -> (r: &Vec<char>)
        ensures
            r@ == self@.raw,
    {
        &self.raw
    }
}

impl Clone for Ident {
    fn clone(&self) -> (r: Self)
        ensures
            r@ == self@,
    {
        Ident { raw: slice_to_vec(self.raw.as_slice()), span: self.span }
    }
}

} // verus!
