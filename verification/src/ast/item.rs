//! Items: function definitions and modules.
//!
//! Items and files are mutually recursive (a module holds a file of
//! items), so the views of `File`, `Item` and item sequences are defined
//! together here.

use vstd::prelude::*;

use crate::ast::block::{Block, BlockV};
use crate::ast::file::{File, FileV};
use crate::ast::ident::{Ident, IdentV};
use crate::ast::origin::{Origin, OriginV};
use crate::span::{unknown_span, Span};

verus! {

/// An item: a function or a module.
#[derive(Debug)]
pub enum Item {
    ItemFn(ItemFn),
    ItemMod(ItemMod),
}

/// A function definition: name, parameters, body, and declared return
/// origin.
#[derive(Debug)]
pub struct ItemFn {
    pub ident: Ident,
    pub params: Vec<FnParam>,
    pub body: Block,
    pub ret_origin: Origin,
    pub span: Span,
}

/// A function parameter: name and declared origin.
#[derive(Debug)]
pub struct FnParam {
    pub ident: Ident,
    pub origin: Origin,
    pub span: Span,
}

/// A module: a name and the file of items it encloses.
#[derive(Debug)]
pub struct ItemMod {
    pub ident: Ident,
    pub file: File,
    pub span: Span,
}

/// The view of an `Item`.
#[verifier::ext_equal]
pub ghost enum ItemV {
    ItemFn(ItemFnV),
    ItemMod(ItemModV),
}

/// The view of an `ItemFn`.
#[verifier::ext_equal]
pub ghost struct ItemFnV {
    pub ident: IdentV,
    pub params: Seq<FnParamV>,
    pub body: BlockV,
    pub ret_origin: OriginV,
    pub span: Span,
}

/// The view of an `FnParam`.
#[verifier::ext_equal]
pub ghost struct FnParamV {
    pub ident: IdentV,
    pub origin: OriginV,
    pub span: Span,
}

/// The view of an `ItemMod`.
#[verifier::ext_equal]
pub ghost struct ItemModV {
    pub ident: IdentV,
    pub file: FileV,
    pub span: Span,
}

/// The view of a file of items.
pub open spec fn file_view(f: File) -> FileV
    decreases f,
{
    FileV { items: item_view_seq(f.items@), span: f.span }
}

/// The views of a sequence of items, in order.
pub open spec fn item_view_seq(s: Seq<Item>) -> Seq<ItemV>
    decreases s,
{
    if s.len() == 0 {
        Seq::empty()
    } else {
        item_view_seq(s.drop_last()).push(item_view(s.last()))
    }
}

/// The view of one item.
pub open spec fn item_view(i: Item) -> ItemV
    decreases i,
{
    match i {
        Item::ItemFn(f) => ItemV::ItemFn(
            ItemFnV {
                ident: f.ident@,
                params: f.params@.map_values(|p: FnParam| p@),
                body: f.body@,
                ret_origin: f.ret_origin@,
                span: f.span,
            },
        ),
        Item::ItemMod(m) => ItemV::ItemMod(
            ItemModV { ident: m.ident@, file: file_view(m.file), span: m.span },
        ),
    }
}

/// `item_view_seq` maps `item_view` over the sequence.
pub proof fn lemma_item_view_seq(s: Seq<Item>)
    ensures
        item_view_seq(s).len() == s.len(),
        forall|i: int| 0 <= i < s.len() ==> item_view_seq(s)[i] == item_view(#[trigger] s[i]),
    decreases s,
{
    if s.len() > 0 {
        lemma_item_view_seq(s.drop_last());
        assert forall|i: int| 0 <= i < s.len() implies item_view_seq(s)[i] == item_view(#[trigger] s[i]) by {
            if i < s.len() - 1 {
                assert(s.drop_last()[i] == s[i]);
            } else {
                assert(s[i] == s.last());
            }
        }
    }
}

impl View for Item {
    type V = ItemV;

    open spec fn view(&self) -> ItemV {
        item_view(*self)
    }
}

impl View for ItemFn {
    type V = ItemFnV;

    open spec fn view(&self) -> ItemFnV {
        ItemFnV {
            ident: self.ident@,
            params: self.params@.map_values(|p: FnParam| p@),
            body: self.body@,
            ret_origin: self.ret_origin@,
            span: self.span,
        }
    }
}

impl View for FnParam {
    type V = FnParamV;

    open spec fn view(&self) -> FnParamV {
        FnParamV { ident: self.ident@, origin: self.origin@, span: self.span }
    }
}

impl View for ItemMod {
    type V = ItemModV;

    open spec fn view(&self) -> ItemModV {
        ItemModV { ident: self.ident@, file: file_view(self.file), span: self.span }
    }
}

impl ItemFn {
    /// A function with the empty name, no parameters, an empty body, and
    /// the `Universal` return origin.
    pub fn new() -> (r: Self)
        ensures
            r@ == (ItemFnV {
                ident: IdentV { raw: Seq::<char>::empty(), span: unknown_span() },
                params: Seq::<FnParamV>::empty(),
                body: BlockV { stmts: Seq::<crate::ast::stmt::StmtV>::empty(), span: unknown_span() },
                ret_origin: OriginV::Universal,
                span: unknown_span(),
            }),
    {
        let r = ItemFn {
            ident: Ident::new(),
            params: Vec::new(),
            body: Block::new(),
            ret_origin: Origin::Universal,
            span: Span::new(),
        };
        proof {
            assert(r@.params =~= Seq::<FnParamV>::empty());
        }
        r
    }

    pub fn with_ident(self, ident: Ident) -> (r: Self)
        ensures
            r@ == (ItemFnV {
                ident: ident@,
                params: self@.params,
                body: self@.body,
                ret_origin: self@.ret_origin,
                span: self@.span,
            }),
    {
        ItemFn { ident, ..self }
    }

    pub fn with_params(self, params: Vec<FnParam>) -> (r: Self)
        ensures
            r@ == (ItemFnV {
                ident: self@.ident,
                params: params@.map_values(|p: FnParam| p@),
                body: self@.body,
                ret_origin: self@.ret_origin,
                span: self@.span,
            }),
    {
        ItemFn { params, ..self }
    }

    pub fn with_body(self, body: Block) -> (r: Self)
        ensures
            r@ == (ItemFnV {
                ident: self@.ident,
                params: self@.params,
                body: body@,
                ret_origin: self@.ret_origin,
                span: self@.span,
            }),
    {
        ItemFn { body, ..self }
    }

    pub fn with_ret_origin(self, ret_origin: Origin) -> (r: Self)
        ensures
            r@ == (ItemFnV {
                ident: self@.ident,
                params: self@.params,
                body: self@.body,
                ret_origin: ret_origin@,
                span: self@.span,
            }),
    {
        ItemFn { ret_origin, ..self }
    }

    pub fn with_span(self, span: Span) -> (r: Self)
        ensures
            r@ == (ItemFnV {
                ident: self@.ident,
                params: self@.params,
                body: self@.body,
                ret_origin: self@.ret_origin,
                span,
            }),
    {
        ItemFn { span, ..self }
    }
}

impl FnParam {
    /// A parameter with the empty name and the `Universal` origin.
    pub fn new() -> (r: Self)
        ensures
            r@ == (FnParamV {
                ident: IdentV { raw: Seq::<char>::empty(), span: unknown_span() },
                origin: OriginV::Universal,
                span: unknown_span(),
            }),
    {
        FnParam { ident: Ident::new(), origin: Origin::Universal, span: Span::new() }
    }

    pub fn with_ident(self, ident: Ident) -> (r: Self)
        ensures
            r@ == (FnParamV { ident: ident@, origin: self@.origin, span: self@.span }),
    {
        FnParam { ident, ..self }
    }

    pub fn with_origin(self, origin: Origin) -> (r: Self)
        ensures
            r@ == (FnParamV { ident: self@.ident, origin: origin@, span: self@.span }),
    {
        FnParam { origin, ..self }
    }

    pub fn with_span(self, span: Span) -> (r: Self)
        ensures
            r@ == (FnParamV { ident: self@.ident, origin: self@.origin, span }),
    {
        FnParam { span, ..self }
    }
}

impl ItemMod {
    /// A module with the empty name and an empty file.
    pub fn new() -> (r: Self)
        ensures
            r@ == (ItemModV {
                ident: IdentV { raw: Seq::<char>::empty(), span: unknown_span() },
                file: FileV { items: Seq::<ItemV>::empty(), span: unknown_span() },
                span: unknown_span(),
            }),
    {
        let r = ItemMod { ident: Ident::new(), file: File::new(), span: Span::new() };
        proof {
            assert(file_view(r.file).items =~= Seq::<ItemV>::empty());
        }
        r
    }

    pub fn with_ident(self, ident: Ident) -> (r: Self)
        ensures
            r@ == (ItemModV { ident: ident@, file: self@.file, span: self@.span }),
    {
        ItemMod { ident, ..self }
    }

    pub fn with_file(self, body: File) -> (r: Self)
        ensures
            r@ == (ItemModV { ident: self@.ident, file: file_view(body), span: self@.span }),
    {
        ItemMod { file: body, ..self }
    }

    pub fn with_span(self, span: Span) -> (r: Self)
        ensures
            r@ == (ItemModV { ident: self@.ident, file: self@.file, span }),
    {
        ItemMod { span, ..self }
    }
}

} // verus!
