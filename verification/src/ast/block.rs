//! Blocks: ordered statement sequences.

use vstd::prelude::*;

use crate::ast::stmt::{Stmt, StmtV};
use crate::span::{unknown_span, Span};

verus! {

/// A block: the ordered statements of a function body, with its span.
#[derive(Debug)]
pub struct Block {
    pub stmts: Vec<Stmt>,
    pub span: Span,
}

/// The view of a `Block`.
#[verifier::ext_equal]
pub ghost struct BlockV {
    pub stmts: Seq<StmtV>,
    pub span: Span,
}

impl View for Block {
    type V = BlockV;

    open spec fn view(&self) -> BlockV {
        BlockV { stmts: self.stmts@.map_values(|s: Stmt| s@), span: self.span }
    }
}

impl Block {
    /// An empty block at the unknown position.
    pub fn new() -> (r: Self)
        ensures
            r@ == (BlockV { stmts: Seq::<StmtV>::empty(), span: unknown_span() }),
    {
        let r = Block { stmts: Vec::new(), span: Span::new() };
        proof {
            assert(r@.stmts =~= Seq::<StmtV>::empty());
        }
        r
    }

    pub fn with_calls(self, calls: Vec<Stmt>) -> (r: Self)
        ensures
            r@ == (BlockV { stmts: calls@.map_values(|s: Stmt| s@), span: self@.span }),
    {
        Block { stmts: calls, ..self }
    }

    pub fn with_span(self, span: Span) -> (r: Self)
        ensures
            r@ == (BlockV { stmts: self@.stmts, span }),
    {
        Block { span, ..self }
    }
}

} // verus!
