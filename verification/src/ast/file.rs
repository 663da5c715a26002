//! Files: the items of one parsed source text.

use vstd::prelude::*;

use crate::ast::item::{file_view, item_view_seq, Item, ItemV};
use crate::span::{unknown_span, Span};

verus! {

/// The items of one parsed source text, with its span.
#[derive(Debug)]
pub struct File {
    pub items: Vec<Item>,
    pub span: Span,
}

/// The view of a `File`.
#[verifier::ext_equal]
pub ghost struct FileV {
    pub items: Seq<ItemV>,
    pub span: Span,
}

impl View for File {
    type V = FileV;

    open spec fn view(&self) -> FileV {
        file_view(*self)
    }
}

impl File {
    /// An empty file at the unknown position.
    pub fn new() -> (r: Self)
        ensures
            r@ == (FileV { items: Seq::<ItemV>::empty(), span: unknown_span() }),
    {
        let r = File { items: Vec::new(), span: Span::new() };
        proof {
            assert(r@.items =~= Seq::<ItemV>::empty());
        }
        r
    }

    pub fn with_items(self, items: Vec<Item>) -> (r: Self)
        ensures
            r@ == (FileV { items: item_view_seq(items@), span: self@.span }),
    {
        File { items, ..self }
    }

    pub fn with_span(self, span: Span) -> (r: Self)
        ensures
            r@ == (FileV { items: self@.items, span }),
    {
        File { span, ..self }
    }
}

} // verus!
