//! Semantic errors: a message and the span it points at.

use vstd::prelude::*;
use vstd::slice::slice_to_vec;

use crate::span::{unknown_span, Span};

verus! {

/// A pass returns its value, or every error it accumulated.
pub type SemaResult<T> = Result<T, Vec<SemaError>>;

/// One semantic error.
#[derive(Debug)]
pub struct SemaError {
    pub message: Vec<char>,
    pub span: Span,
}

/// The view of a `SemaError`.
#[verifier::ext_equal]
pub ghost struct SemaErrorV {
    pub message: Seq<char>,
    pub span: Span,
}

impl View for SemaError {
    type V = SemaErrorV;

    open spec fn view(&self) -> SemaErrorV {
        SemaErrorV { message: self.message@, span: self.span }
    }
}

/// The views of an error sequence, in order.
pub open spec fn err_views(s: Seq<SemaError>) -> Seq<SemaErrorV> {
    s.map_values(|e: SemaError| e@)
}

impl SemaError {
    /// An empty message at the unknown position.
    pub fn new() -> (r: Self)
        ensures
            r@ == (SemaErrorV { message: Seq::<char>::empty(), span: unknown_span() }),
    {
        SemaError { message: Vec::new(), span: Span::new() }
    }

    pub fn with_message(self, message: Vec<char>) -> (r: Self)
        ensures
            r@ == (SemaErrorV { message: message@, span: self@.span }),
    {
        SemaError { message, ..self }
    }

    pub fn with_span(self, span: Span) -> (r: Self)
        ensures
            r@ == (SemaErrorV { message: self@.message, span }),
    {
        SemaError { span, ..self }
    }
}

impl Clone for SemaError {
    fn clone(&self) -> (r: Self)
        ensures
            r@ == self@,
    {
        SemaError { message: slice_to_vec(self.message.as_slice()), span: self.span }
    }
}

} // verus!
