//! Expressions: binary operations, literals, paths and calls.

use vstd::prelude::*;

use crate::ast::ident::{Ident, IdentV};
use crate::ast::literal::Lit;
use crate::ast::path::{Path, PathV};
use crate::span::{unknown_span, Span};

verus! {

/// An expression.
#[derive(Debug)]
pub enum Expr {
    Bin(BinExp),
    Lit(Lit),
    Ident(Ident),
    FunCall(FnCall),
    Path(Path),
}

/// A binary operator. `Multiply` binds tighter than `Add`.
#[derive(Clone, Copy, PartialEq, Eq, Structural, Debug)]
pub enum Op {
    Add,
    Multiply,
}

/// A binary expression owning both operands.
#[derive(Debug)]
pub struct BinExp {
    pub lhs: Box<Expr>,
    pub op: Op,
    pub rhs: Box<Expr>,
    pub span: Span,
}

/// The unit value.
#[derive(Clone, Copy, PartialEq, Eq, Structural, Debug)]
pub struct Unit {
    pub span: Span,
}

/// A function call: a `::`-qualified callee path and positional arguments.
#[derive(Debug)]
pub struct FnCall {
    pub path: Path,
    pub args: Vec<Expr>,
    pub span: Span,
}

/// The view of an `Expr`.
#[verifier::ext_equal]
pub ghost enum ExprV {
    Bin(BinExpV),
    Lit(Lit),
    Ident(IdentV),
    FunCall(FnCallV),
    Path(PathV),
}

/// The view of a `BinExp`.
#[verifier::ext_equal]
pub ghost struct BinExpV {
    pub lhs: Box<ExprV>,
    pub op: Op,
    pub rhs: Box<ExprV>,
    pub span: Span,
}

/// The view of an `FnCall`.
#[verifier::ext_equal]
pub ghost struct FnCallV {
    pub path: PathV,
    pub args: Seq<ExprV>,
    pub span: Span,
}

/// The view of an expression tree.
pub open spec fn expr_view(e: Expr) -> ExprV
    decreases e,
{
    match e {
        Expr::Bin(b) => ExprV::Bin(
            BinExpV {
                lhs: Box::new(expr_view(*b.lhs)),
                op: b.op,
                rhs: Box::new(expr_view(*b.rhs)),
                span: b.span,
            },
        ),
        Expr::Lit(l) => ExprV::Lit(l),
        Expr::Ident(id) => ExprV::Ident(id@),
        Expr::FunCall(c) => ExprV::FunCall(
            FnCallV { path: c.path@, args: expr_view_seq(c.args@), span: c.span },
        ),
        Expr::Path(p) => ExprV::Path(p@),
    }
}

/// The views of a sequence of expressions, in order.
pub open spec fn expr_view_seq(s: Seq<Expr>) -> Seq<ExprV>
    decreases s,
{
    if s.len() == 0 {
        Seq::empty()
    } else {
        expr_view_seq(s.drop_last()).push(expr_view(s.last()))
    }
}

/// `expr_view_seq` maps `expr_view` over the sequence.
pub proof fn lemma_expr_view_seq(s: Seq<Expr>)
    ensures
        expr_view_seq(s).len() == s.len(),
        forall|i: int| 0 <= i < s.len() ==> expr_view_seq(s)[i] == expr_view(#[trigger] s[i]),
    decreases s,
{
    if s.len() > 0 {
        lemma_expr_view_seq(s.drop_last());
        assert forall|i: int| 0 <= i < s.len() implies expr_view_seq(s)[i] == expr_view(#[trigger] s[i]) by {
            if i < s.len() - 1 {
                assert(s.drop_last()[i] == s[i]);
            } else {
                assert(s[i] == s.last());
            }
        }
    }
}

impl View for Expr {
    type V = ExprV;

    open spec fn view(&self) -> ExprV {
        expr_view(*self)
    }
}

impl View for BinExp {
    type V = BinExpV;

    open spec fn view(&self) -> BinExpV {
        BinExpV {
            lhs: Box::new(expr_view(*self.lhs)),
            op: self.op,
            rhs: Box::new(expr_view(*self.rhs)),
            span: self.span,
        }
    }
}

impl View for FnCall {
    type V = FnCallV;

    open spec fn view(&self) -> FnCallV {
        FnCallV { path: self.path@, args: expr_view_seq(self.args@), span: self.span }
    }
}

/// The span of an expression, whichever variant holds it.
pub open spec fn expr_span(e: ExprV) -> Span {
    match e {
        ExprV::Bin(b) => b.span,
        ExprV::Lit(l) => l.spec_span(),
        ExprV::Ident(id) => id.span,
        ExprV::FunCall(c) => c.span,
        ExprV::Path(p) => p.span,
    }
}

impl Expr {
    /// The span of the expression.
    pub fn span(&self) -> (r: Span)
        ensures
            r == expr_span(self@),
    {
        match self {
            Expr::Bin(b) => b.span,
            Expr::Lit(l) => l.span(),
            Expr::Ident(id) => id.span,
            Expr::FunCall(c) => c.span,
            Expr::Path(p) => p.span,
        }
    }
}

impl BinExp {
    /// A binary expression over both operands, with the unknown span.
    pub fn new(lhs: Expr, op: Op, rhs: Expr) -> (r: Self)
        ensures
            r@ == (BinExpV {
                lhs: Box::new(lhs@),
                op,
                rhs: Box::new(rhs@),
                span: unknown_span(),
            }),
    {
        BinExp { lhs: Box::new(lhs), op, rhs: Box::new(rhs), span: Span::new() }
    }

    pub fn with_span(self, span: Span) -> (r: Self)
        ensures
            r@ == (BinExpV { lhs: self@.lhs, op: self@.op, rhs: self@.rhs, span }),
    {
        BinExp { span, ..self }
    }
}

impl Unit {
    /// The unit value at the unknown position.
    pub fn new() -> (r: Self)
        ensures
            r == (Unit { span: unknown_span() }),
    {
        Unit { span: Span::new() }
    }

    pub fn with_span(self, span: Span) -> (r: Self)
        ensures
            r == (Unit { span }),
    {
        Unit { span }
    }
}

impl FnCall {
    /// A call of the empty path with no arguments, at the unknown position.
    pub fn new() -> (r: Self)
        ensures
            r@ == (FnCallV {
                path: PathV { segments: Seq::<IdentV>::empty(), span: unknown_span() },
                args: Seq::<ExprV>::empty(),
                span: unknown_span(),
            }),
    {
        let r = FnCall { path: Path::new(), args: Vec::new(), span: Span::new() };
        proof {
            assert(expr_view_seq(r.args@) =~= Seq::<ExprV>::empty());
        }
        r
    }

    pub fn with_path(self, path: Path) -> (r: Self)
        ensures
            r@ == (FnCallV { path: path@, args: self@.args, span: self@.span }),
    {
        FnCall { path, ..self }
    }

    pub fn with_args(self, args: Vec<Expr>) -> (r: Self)
        ensures
            r@ == (FnCallV { path: self@.path, args: expr_view_seq(args@), span: self@.span }),
    {
        FnCall { args, ..self }
    }

    pub fn with_span(self, span: Span) -> (r: Self)
        ensures
            r@ == (FnCallV { path: self@.path, args: self@.args, span }),
    {
        FnCall { span, ..self }
    }
}

} // verus!
