//! Statements: let bindings, returns, and the reserved claim form.

use vstd::prelude::*;

use crate::ast::expr::{expr_view, Expr, ExprV, Unit};
use crate::ast::ident::{Ident, IdentV};
use crate::ast::literal::Lit;
use crate::span::{unknown_span, Span};

verus! {

/// A statement. `Claim` is reserved: the parser never produces it and no
/// pass consumes it; its intent is an open question of the language.
#[derive(Debug)]
pub enum Stmt {
    Local(Local),
    Return(Return),
    Claim(Claim),
}

/// A let binding: `let ident = expr`.
#[derive(Debug)]
pub struct Local {
    pub ident: Ident,
    pub expr: Expr,
    pub span: Span,
}

/// A return statement: `return expr`.
#[derive(Debug)]
pub struct Return {
    pub expr: Expr,
    pub span: Span,
}

/// The reserved claim statement.
#[derive(Debug)]
pub struct Claim {
    pub ident: Ident,
    pub span: Span,
}

/// The view of a `Stmt`.
#[verifier::ext_equal]
pub ghost enum StmtV {
    Local(LocalV),
    Return(ReturnV),
    Claim(ClaimV),
}

/// The view of a `Local`.
#[verifier::ext_equal]
pub ghost struct LocalV {
    pub ident: IdentV,
    pub expr: ExprV,
    pub span: Span,
}

/// The view of a `Return`.
#[verifier::ext_equal]
pub ghost struct ReturnV {
    pub expr: ExprV,
    pub span: Span,
}

/// The view of a `Claim`.
#[verifier::ext_equal]
pub ghost struct ClaimV {
    pub ident: IdentV,
    pub span: Span,
}

impl View for Local {
    type V = LocalV;

    open spec fn view(&self) -> LocalV {
        LocalV { ident: self.ident@, expr: expr_view(self.expr), span: self.span }
    }
}

impl View for Return {
    type V = ReturnV;

    open spec fn view(&self) -> ReturnV {
        ReturnV { expr: expr_view(self.expr), span: self.span }
    }
}

impl View for Claim {
    type V = ClaimV;

    open spec fn view(&self) -> ClaimV {
        ClaimV { ident: self.ident@, span: self.span }
    }
}

impl View for Stmt {
    type V = StmtV;

    open spec fn view(&self) -> StmtV {
        match self {
            Stmt::Local(l) => StmtV::Local(l@),
            Stmt::Return(r) => StmtV::Return(r@),
            Stmt::Claim(c) => StmtV::Claim(c@),
        }
    }
}

impl Local {
    /// A binding of the empty identifier to the unit literal.
    pub fn new() -> (r: Self)
        ensures
            r@ == (LocalV {
                ident: IdentV { raw: Seq::<char>::empty(), span: unknown_span() },
                expr: ExprV::Lit(Lit::UnitLit(Unit { span: unknown_span() })),
                span: unknown_span(),
            }),
    {
        Local {
            ident: Ident::new(),
            span: Span::new(),
            expr: Expr::Lit(Lit::UnitLit(Unit::new())),
        }
    }

    pub fn with_ident(self, ident: Ident) -> (r: Self)
        ensures
            r@ == (LocalV { ident: ident@, expr: self@.expr, span: self@.span }),
    {
        Local { ident, ..self }
    }

    pub fn with_span(self, span: Span) -> (r: Self)
        ensures
            r@ == (LocalV { ident: self@.ident, expr: self@.expr, span }),
    {
        Local { span, ..self }
    }

    pub fn with_expr(self, expr: Expr) -> (r: Self)
        ensures
            r@ == (LocalV { ident: self@.ident, expr: expr@, span: self@.span }),
    {
        Local { expr, ..self }
    }
}

impl Return {
    /// A return of the unit literal.
    pub fn new() -> (r: Self)
        ensures
            r@ == (ReturnV {
                expr: ExprV::Lit(Lit::UnitLit(Unit { span: unknown_span() })),
                span: unknown_span(),
            }),
    {
        Return { expr: Expr::Lit(Lit::UnitLit(Unit::new())), span: Span::new() }
    }

    pub fn with_expr(self, expr: Expr) -> (r: Self)
        ensures
            r@ == (ReturnV { expr: expr@, span: self@.span }),
    {
        Return { expr, ..self }
    }

    pub fn with_span(self, span: Span) -> (r: Self)
        ensures
            r@ == (ReturnV { expr: self@.expr, span }),
    {
        Return { span, ..self }
    }
}

impl Claim {
    /// A claim of the empty identifier.
    pub fn new() -> (r: Self)
        ensures
            r@ == (ClaimV {
                ident: IdentV { raw: Seq::<char>::empty(), span: unknown_span() },
                span: unknown_span(),
            }),
    {
        Claim { ident: Ident::new(), span: Span::new() }
    }

    pub fn with_ident(self, ident: Ident) -> (r: Self)
        ensures
            r@ == (ClaimV { ident: ident@, span: self@.span }),
    {
        Claim { ident, ..self }
    }

    pub fn with_span(self, span: Span) -> (r: Self)
        ensures
            r@ == (ClaimV { ident: self@.ident, span }),
    {
        Claim { span, ..self }
    }
}

} // verus!
