//! The recursive-descent parser: tokens to the syntax tree.
//!
//! The parser walks the parallel token and span sequences produced by the
//! lexer, keeping an index and a stack of start marks. Every production
//! brackets itself with `start` (push the current token's span) and
//! `span` (pop it and combine it with the span of the token before the
//! cursor) to give each node its range. Failures are fatal for the file:
//! there is no recovery, and each error carries a message naming the
//! offending token.
//!
//! Every production is mirrored by a spec function (`sp_file` downwards):
//! the executable parser returns exactly what they describe, which pins
//! down the syntax tree as a function of the token stream.

use vstd::prelude::*;

use crate::ast::block::{Block, BlockV};
use crate::ast::expr::{expr_span, expr_view_seq, BinExp, BinExpV, Expr, ExprV, FnCall, FnCallV, Op};
use crate::ast::file::{File, FileV};
use crate::ast::ident::{Ident, IdentV};
use crate::ast::item::{
    file_view, item_view_seq, FnParam, FnParamV, Item, ItemFn, ItemFnV, ItemMod, ItemModV, ItemV,
};
use crate::ast::literal::{Lit, NumLit};
use crate::ast::origin::{Origin, OriginV};
use crate::ast::path::{Path, PathV};
use crate::ast::stmt::{Local, LocalV, Return, ReturnV, Stmt, StmtV};
use crate::chars::{chars_of, push_all};
use crate::error::ParseError;
use crate::lexer::token_views;
use crate::span::{spec_span_chars, unknown_span, Span};
use crate::token::{spec_token_chars, Token, TokenV};

verus! {

broadcast use vstd::std_specs::control_flow::group_control_flow_axioms;

pub type ParseResult<T> = Result<T, ParseError>;

/// The parser cursor: the token index and the stack of start marks.
#[verifier::ext_equal]
pub ghost struct ParserSt {
    pub index: int,
    pub starts: Seq<Span>,
}

/// A well-formed token stream for parsing: spans parallel the tokens and
/// exactly the last token is `EOF`.
pub open spec fn input_wf(toks: Seq<TokenV>, spans: Seq<Span>) -> bool {
    &&& toks.len() <= usize::MAX
    &&& toks.len() == spans.len()
    &&& toks.len() >= 1
    &&& toks.last() == TokenV::EOF
    &&& forall|i: int| 0 <= i < toks.len() - 1 ==> !((#[trigger] toks[i]) is EOF)
}

/// The token under the cursor; `EOF` past the end.
pub open spec fn cur_tok(toks: Seq<TokenV>, i: int) -> TokenV {
    if 0 <= i < toks.len() {
        toks[i]
    } else {
        TokenV::EOF
    }
}

/// The message of a failed `expect`.
#[verifier::opaque]
pub open spec fn expect_msg(kind: TokenV, cur: TokenV, sp: Span) -> Seq<char> {
    "Expected '"@ + spec_token_chars(kind) + "' but found '"@ + spec_token_chars(cur) + "' ("@
        + spec_span_chars(sp) + ")"@
}

/// The message of a failed identifier read.
#[verifier::opaque]
pub open spec fn ident_msg(cur: TokenV) -> Seq<char> {
    "Expected identifier, found "@ + spec_token_chars(cur)
}

/// The message of an unrecognized statement.
#[verifier::opaque]
pub open spec fn stmt_msg(cur: TokenV) -> Seq<char> {
    "Unknown statement beginning with '"@ + spec_token_chars(cur) + "'"@
}

/// The message of an unrecognized item.
#[verifier::opaque]
pub open spec fn item_msg(cur: TokenV) -> Seq<char> {
    "Expected 'fn' or 'mod', found "@ + spec_token_chars(cur)
}

/// The message of an unrecognized factor.
#[verifier::opaque]
pub open spec fn factor_msg(cur: TokenV) -> Seq<char> {
    "Expected number or identifier, found '"@ + spec_token_chars(cur) + "'"@
}

/// Pushes the current token's span as a start mark.
pub open spec fn sp_start(spans: Seq<Span>, st: ParserSt) -> ParserSt {
    let mark = if 0 <= st.index < spans.len() {
        spans[st.index]
    } else {
        unknown_span()
    };
    ParserSt { index: st.index, starts: st.starts.push(mark) }
}

/// The span of the token just before the cursor; the outermost start mark
/// when no token was consumed yet.
pub open spec fn sp_prev_span(spans: Seq<Span>, st: ParserSt) -> Span {
    if 0 < st.index <= spans.len() {
        spans[st.index - 1]
    } else {
        st.starts[0]
    }
}

/// Pops the most recent start mark and combines it with the span of the
/// token before the cursor: the completed node's span.
pub open spec fn sp_pop_span(spans: Seq<Span>, st: ParserSt) -> (Span, ParserSt) {
    let end = sp_prev_span(spans, st);
    let span = Span { from: st.starts.last().from, to: end.to };
    (span, ParserSt { index: st.index, starts: st.starts.drop_last() })
}

/// Consumes one expected token, or fails naming the offending token and
/// the current span.
pub open spec fn sp_expect(toks: Seq<TokenV>, spans: Seq<Span>, st: ParserSt, kind: TokenV)
    -> Result<ParserSt, Seq<char>> {
    let st1 = sp_start(spans, st);
    if cur_tok(toks, st.index) == kind {
        Ok(ParserSt { index: st.index + 1, starts: st.starts })
    } else {
        let (sp, _) = sp_pop_span(spans, st1);
        Err(expect_msg(kind, cur_tok(toks, st.index), sp))
    }
}

/// Consumes one identifier token, giving it the span just parsed.
pub open spec fn sp_ident(toks: Seq<TokenV>, spans: Seq<Span>, st: ParserSt) -> Result<
    (IdentV, ParserSt),
    Seq<char>,
> {
    let st1 = sp_start(spans, st);
    match cur_tok(toks, st.index) {
        TokenV::Ident(id) => {
            let st2 = ParserSt { index: st.index + 1, starts: st1.starts };
            let (sp, st3) = sp_pop_span(spans, st2);
            Ok((IdentV { raw: id.raw, span: sp }, st3))
        },
        t => Err(ident_msg(t)),
    }
}

/// The remaining `::`-separated segments of a path.
pub open spec fn sp_path_rest(
    toks: Seq<TokenV>,
    spans: Seq<Span>,
    st: ParserSt,
    acc: Seq<IdentV>,
) -> Result<(Seq<IdentV>, ParserSt), Seq<char>>
    decreases toks.len() - st.index,
    when 0 <= st.index
{
    if cur_tok(toks, st.index) == TokenV::ColonColon {
        match sp_expect(toks, spans, st, TokenV::ColonColon) {
            Err(m) => Err(m),
            Ok(st1) => match sp_ident(toks, spans, st1) {
                Err(m) => Err(m),
                Ok((id, st2)) => if st.index < st2.index <= toks.len() {
                    sp_path_rest(toks, spans, st2, acc.push(id))
                } else {
                    Err(Seq::empty())
                },
            },
        }
    } else {
        Ok((acc, st))
    }
}

/// A path: one identifier, then `::`-separated identifiers.
pub open spec fn sp_path(toks: Seq<TokenV>, spans: Seq<Span>, st: ParserSt) -> Result<
    (PathV, ParserSt),
    Seq<char>,
> {
    let st1 = sp_start(spans, st);
    match sp_ident(toks, spans, st1) {
        Err(m) => Err(m),
        Ok((id, st2)) => match sp_path_rest(toks, spans, st2, seq![id]) {
            Err(m) => Err(m),
            Ok((segs, st3)) => {
                let (sp, st4) = sp_pop_span(spans, st3);
                Ok((PathV { segments: segs, span: sp }, st4))
            },
        },
    }
}

/// An origin annotation: `{` then `*` or a path, then `}`.
pub open spec fn sp_origin(toks: Seq<TokenV>, spans: Seq<Span>, st: ParserSt) -> Result<
    (OriginV, ParserSt),
    Seq<char>,
> {
    match sp_expect(toks, spans, st, TokenV::LBrace) {
        Err(m) => Err(m),
        Ok(st1) => match cur_tok(toks, st1.index) {
            TokenV::Ident(_) => match sp_path(toks, spans, st1) {
                Err(m) => Err(m),
                Ok((p, st2)) => match sp_expect(toks, spans, st2, TokenV::RBrace) {
                    Err(m) => Err(m),
                    Ok(st3) => Ok((OriginV::Exact(p), st3)),
                },
            },
            _ => match sp_expect(toks, spans, st1, TokenV::Star) {
                Err(m) => Err(m),
                Ok(st2) => match sp_expect(toks, spans, st2, TokenV::RBrace) {
                    Err(m) => Err(m),
                    Ok(st3) => Ok((OriginV::Universal, st3)),
                },
            },
        },
    }
}

/// One parameter: an identifier, `:`, and an origin.
pub open spec fn sp_param(toks: Seq<TokenV>, spans: Seq<Span>, st: ParserSt) -> Result<
    (FnParamV, ParserSt),
    Seq<char>,
> {
    let st1 = sp_start(spans, st);
    match sp_ident(toks, spans, st1) {
        Err(m) => Err(m),
        Ok((id, st2)) => match sp_expect(toks, spans, st2, TokenV::Colon) {
            Err(m) => Err(m),
            Ok(st3) => match sp_origin(toks, spans, st3) {
                Err(m) => Err(m),
                Ok((o, st4)) => {
                    let (sp, st5) = sp_pop_span(spans, st4);
                    Ok((FnParamV { ident: id, origin: o, span: sp }, st5))
                },
            },
        },
    }
}

/// The comma-separated parameters after the first.
pub open spec fn sp_params_rest(
    toks: Seq<TokenV>,
    spans: Seq<Span>,
    st: ParserSt,
    acc: Seq<FnParamV>,
) -> Result<(Seq<FnParamV>, ParserSt), Seq<char>>
    decreases toks.len() - st.index,
    when 0 <= st.index
{
    if cur_tok(toks, st.index) == TokenV::Comma {
        let st1 = ParserSt { index: st.index + 1, starts: st.starts };
        match sp_param(toks, spans, st1) {
            Err(m) => Err(m),
            Ok((p, st2)) => if st.index < st2.index <= toks.len() {
                sp_params_rest(toks, spans, st2, acc.push(p))
            } else {
                Err(Seq::empty())
            },
        }
    } else {
        Ok((acc, st))
    }
}

/// A possibly empty parameter list, up to the closing `)`.
pub open spec fn sp_param_list(toks: Seq<TokenV>, spans: Seq<Span>, st: ParserSt) -> Result<
    (Seq<FnParamV>, ParserSt),
    Seq<char>,
> {
    if cur_tok(toks, st.index) == TokenV::RParen {
        Ok((Seq::empty(), st))
    } else {
        match sp_param(toks, spans, st) {
            Err(m) => Err(m),
            Ok((p, st1)) => sp_params_rest(toks, spans, st1, seq![p]),
        }
    }
}

/// A factor: a numeric literal, a path or call, or a parenthesized
/// expression.
pub open spec fn sp_factor(toks: Seq<TokenV>, spans: Seq<Span>, st: ParserSt) -> Result<
    (ExprV, ParserSt),
    Seq<char>,
>
    decreases toks.len() - st.index, 2int,
    when 0 <= st.index
{
    match cur_tok(toks, st.index) {
        TokenV::NumLit(n) => {
            let st1 = sp_start(spans, st);
            let st2 = ParserSt { index: st.index + 1, starts: st1.starts };
            let (sp, st3) = sp_pop_span(spans, st2);
            Ok((ExprV::Lit(Lit::NumLit(NumLit { value: n.value, span: sp })), st3))
        },
        TokenV::Ident(_) => {
            let st1 = sp_start(spans, st);
            match sp_path(toks, spans, st1) {
                Err(m) => Err(m),
                Ok((p, st2)) => if cur_tok(toks, st2.index) == TokenV::LParen {
                    let st3 = ParserSt { index: st2.index + 1, starts: st2.starts };
                    if st.index < st3.index <= toks.len() {
                        match sp_arg_list(toks, spans, st3) {
                            Err(m) => Err(m),
                            Ok((args, st4)) => match sp_expect(toks, spans, st4, TokenV::RParen) {
                                Err(m) => Err(m),
                                Ok(st5) => {
                                    let (sp, st6) = sp_pop_span(spans, st5);
                                    Ok(
                                        (
                                            ExprV::FunCall(
                                                FnCallV { path: p, args, span: sp },
                                            ),
                                            st6,
                                        ),
                                    )
                                },
                            },
                        }
                    } else {
                        Err(Seq::empty())
                    }
                } else {
                    let (sp, st3) = sp_pop_span(spans, st2);
                    Ok((ExprV::Path(PathV { segments: p.segments, span: sp }), st3))
                },
            }
        },
        TokenV::LParen => {
            let st1 = ParserSt { index: st.index + 1, starts: st.starts };
            if st.index < st1.index <= toks.len() {
                match sp_expr(toks, spans, st1) {
                    Err(m) => Err(m),
                    Ok((e, st2)) => match sp_expect(toks, spans, st2, TokenV::RParen) {
                        Err(m) => Err(m),
                        Ok(st3) => Ok((e, st3)),
                    },
                }
            } else {
                Err(Seq::empty())
            }
        },
        t => Err(factor_msg(t)),
    }
}

/// The `*`-chain after a factor, folded to the left.
pub open spec fn sp_term_rest(
    toks: Seq<TokenV>,
    spans: Seq<Span>,
    st: ParserSt,
    lhs: ExprV,
) -> Result<(ExprV, ParserSt), Seq<char>>
    decreases toks.len() - st.index, 0int,
    when 0 <= st.index
{
    if cur_tok(toks, st.index) == TokenV::Star {
        match sp_expect(toks, spans, st, TokenV::Star) {
            Err(m) => Err(m),
            Ok(st1) => match sp_factor(toks, spans, st1) {
                Err(m) => Err(m),
                Ok((rhs, st2)) => {
                    let span = Span {
                        from: expr_span(lhs).from,
                        to: sp_prev_span(spans, st2).to,
                    };
                    let bin = ExprV::Bin(
                        BinExpV {
                            lhs: Box::new(lhs),
                            op: Op::Multiply,
                            rhs: Box::new(rhs),
                            span,
                        },
                    );
                    if st.index < st2.index <= toks.len() {
                        sp_term_rest(toks, spans, st2, bin)
                    } else {
                        Err(Seq::empty())
                    }
                },
            },
        }
    } else {
        Ok((lhs, st))
    }
}

/// A term: factors folded to the left over `*`.
pub open spec fn sp_term(toks: Seq<TokenV>, spans: Seq<Span>, st: ParserSt) -> Result<
    (ExprV, ParserSt),
    Seq<char>,
>
    decreases toks.len() - st.index, 3int,
    when 0 <= st.index
{
    match sp_factor(toks, spans, st) {
        Err(m) => Err(m),
        Ok((e, st1)) => if st.index <= st1.index <= toks.len() {
            sp_term_rest(toks, spans, st1, e)
        } else {
            Err(Seq::empty())
        },
    }
}

/// The `+`-chain after a term, folded to the left.
pub open spec fn sp_expr_rest(
    toks: Seq<TokenV>,
    spans: Seq<Span>,
    st: ParserSt,
    lhs: ExprV,
) -> Result<(ExprV, ParserSt), Seq<char>>
    decreases toks.len() - st.index, 1int,
    when 0 <= st.index
{
    if cur_tok(toks, st.index) == TokenV::Plus {
        match sp_expect(toks, spans, st, TokenV::Plus) {
            Err(m) => Err(m),
            Ok(st1) => match sp_term(toks, spans, st1) {
                Err(m) => Err(m),
                Ok((rhs, st2)) => {
                    let span = Span {
                        from: expr_span(lhs).from,
                        to: sp_prev_span(spans, st2).to,
                    };
                    let bin = ExprV::Bin(
                        BinExpV { lhs: Box::new(lhs), op: Op::Add, rhs: Box::new(rhs), span },
                    );
                    if st.index < st2.index <= toks.len() {
                        sp_expr_rest(toks, spans, st2, bin)
                    } else {
                        Err(Seq::empty())
                    }
                },
            },
        }
    } else {
        Ok((lhs, st))
    }
}

/// An expression: terms folded to the left over `+`.
pub open spec fn sp_expr(toks: Seq<TokenV>, spans: Seq<Span>, st: ParserSt) -> Result<
    (ExprV, ParserSt),
    Seq<char>,
>
    decreases toks.len() - st.index, 4int,
    when 0 <= st.index
{
    match sp_term(toks, spans, st) {
        Err(m) => Err(m),
        Ok((e, st1)) => if st.index <= st1.index <= toks.len() {
            sp_expr_rest(toks, spans, st1, e)
        } else {
            Err(Seq::empty())
        },
    }
}

/// The comma-separated arguments after the first.
pub open spec fn sp_args_rest(
    toks: Seq<TokenV>,
    spans: Seq<Span>,
    st: ParserSt,
    acc: Seq<ExprV>,
) -> Result<(Seq<ExprV>, ParserSt), Seq<char>>
    decreases toks.len() - st.index, 0int,
    when 0 <= st.index
{
    if cur_tok(toks, st.index) == TokenV::Comma {
        let st1 = ParserSt { index: st.index + 1, starts: st.starts };
        match sp_expr(toks, spans, st1) {
            Err(m) => Err(m),
            Ok((e, st2)) => if st.index < st2.index <= toks.len() {
                sp_args_rest(toks, spans, st2, acc.push(e))
            } else {
                Err(Seq::empty())
            },
        }
    } else {
        Ok((acc, st))
    }
}

/// A possibly empty argument list, up to the closing `)`.
pub open spec fn sp_arg_list(toks: Seq<TokenV>, spans: Seq<Span>, st: ParserSt) -> Result<
    (Seq<ExprV>, ParserSt),
    Seq<char>,
>
    decreases toks.len() - st.index, 5int,
    when 0 <= st.index
{
    if cur_tok(toks, st.index) == TokenV::RParen {
        Ok((Seq::empty(), st))
    } else {
        match sp_expr(toks, spans, st) {
            Err(m) => Err(m),
            Ok((e, st1)) => if st.index <= st1.index <= toks.len() {
                sp_args_rest(toks, spans, st1, seq![e])
            } else {
                Err(Seq::empty())
            },
        }
    }
}

/// A let binding: `let` identifier `=` expression.
pub open spec fn sp_local(toks: Seq<TokenV>, spans: Seq<Span>, st: ParserSt) -> Result<
    (LocalV, ParserSt),
    Seq<char>,
> {
    let st1 = sp_start(spans, st);
    match sp_expect(toks, spans, st1, TokenV::KwLet) {
        Err(m) => Err(m),
        Ok(st2) => match sp_ident(toks, spans, st2) {
            Err(m) => Err(m),
            Ok((id, st3)) => match sp_expect(toks, spans, st3, TokenV::Equal) {
                Err(m) => Err(m),
                Ok(st4) => match sp_expr(toks, spans, st4) {
                    Err(m) => Err(m),
                    Ok((e, st5)) => {
                        let (sp, st6) = sp_pop_span(spans, st5);
                        Ok((LocalV { ident: id, expr: e, span: sp }, st6))
                    },
                },
            },
        },
    }
}

/// A return statement: `return` expression.
pub open spec fn sp_return(toks: Seq<TokenV>, spans: Seq<Span>, st: ParserSt) -> Result<
    (ReturnV, ParserSt),
    Seq<char>,
> {
    let st1 = sp_start(spans, st);
    match sp_expect(toks, spans, st1, TokenV::KwReturn) {
        Err(m) => Err(m),
        Ok(st2) => match sp_expr(toks, spans, st2) {
            Err(m) => Err(m),
            Ok((e, st3)) => {
                let (sp, st4) = sp_pop_span(spans, st3);
                Ok((ReturnV { expr: e, span: sp }, st4))
            },
        },
    }
}

/// A statement: a let binding or a return.
pub open spec fn sp_stmt(toks: Seq<TokenV>, spans: Seq<Span>, st: ParserSt) -> Result<
    (StmtV, ParserSt),
    Seq<char>,
> {
    if cur_tok(toks, st.index) == TokenV::KwLet {
        match sp_local(toks, spans, st) {
            Err(m) => Err(m),
            Ok((l, st1)) => Ok((StmtV::Local(l), st1)),
        }
    } else if cur_tok(toks, st.index) == TokenV::KwReturn {
        match sp_return(toks, spans, st) {
            Err(m) => Err(m),
            Ok((r, st1)) => Ok((StmtV::Return(r), st1)),
        }
    } else {
        Err(stmt_msg(cur_tok(toks, st.index)))
    }
}

/// The `;`-terminated statements of a block, up to the closing `}`.
pub open spec fn sp_stmts(toks: Seq<TokenV>, spans: Seq<Span>, st: ParserSt) -> Result<
    (Seq<StmtV>, ParserSt),
    Seq<char>,
>
    decreases toks.len() - st.index,
    when 0 <= st.index
{
    if cur_tok(toks, st.index) == TokenV::RBrace {
        Ok((Seq::empty(), st))
    } else {
        match sp_stmt(toks, spans, st) {
            Err(m) => Err(m),
            Ok((s, st1)) => match sp_expect(toks, spans, st1, TokenV::Semi) {
                Err(m) => Err(m),
                Ok(st2) => if st.index < st2.index <= toks.len() {
                    match sp_stmts(toks, spans, st2) {
                        Err(m) => Err(m),
                        Ok((rest, st3)) => Ok((seq![s] + rest, st3)),
                    }
                } else {
                    Err(Seq::empty())
                },
            },
        }
    }
}

/// A block: statements up to the closing `}`.
pub open spec fn sp_block(toks: Seq<TokenV>, spans: Seq<Span>, st: ParserSt) -> Result<
    (BlockV, ParserSt),
    Seq<char>,
> {
    let st1 = sp_start(spans, st);
    match sp_stmts(toks, spans, st1) {
        Err(m) => Err(m),
        Ok((stmts, st2)) => {
            let (sp, st3) = sp_pop_span(spans, st2);
            Ok((BlockV { stmts, span: sp }, st3))
        },
    }
}

/// A function item: `fn` name `(` parameters `)` `->` origin `{` body `}`.
#[verifier::opaque]
pub open spec fn sp_item_fn(toks: Seq<TokenV>, spans: Seq<Span>, st: ParserSt) -> Result<
    (ItemFnV, ParserSt),
    Seq<char>,
> {
    let st1 = sp_start(spans, st);
    match sp_expect(toks, spans, st1, TokenV::KwFn) {
        Err(m) => Err(m),
        Ok(st2) => match sp_ident(toks, spans, st2) {
            Err(m) => Err(m),
            Ok((id, st3)) => match sp_expect(toks, spans, st3, TokenV::LParen) {
                Err(m) => Err(m),
                Ok(st4) => match sp_param_list(toks, spans, st4) {
                    Err(m) => Err(m),
                    Ok((params, st5)) => match sp_expect(toks, spans, st5, TokenV::RParen) {
                        Err(m) => Err(m),
                        Ok(st6) => match sp_expect(toks, spans, st6, TokenV::RArrow) {
                            Err(m) => Err(m),
                            Ok(st7) => match sp_origin(toks, spans, st7) {
                                Err(m) => Err(m),
                                Ok((ret, st8)) => match sp_expect(
                                    toks,
                                    spans,
                                    st8,
                                    TokenV::LBrace,
                                ) {
                                    Err(m) => Err(m),
                                    Ok(st9) => match sp_block(toks, spans, st9) {
                                        Err(m) => Err(m),
                                        Ok((body, st10)) => match sp_expect(
                                            toks,
                                            spans,
                                            st10,
                                            TokenV::RBrace,
                                        ) {
                                            Err(m) => Err(m),
                                            Ok(st11) => {
                                                let (sp, st12) = sp_pop_span(spans, st11);
                                                Ok(
                                                    (
                                                        ItemFnV {
                                                            ident: id,
                                                            params,
                                                            body,
                                                            ret_origin: ret,
                                                            span: sp,
                                                        },
                                                        st12,
                                                    ),
                                                )
                                            },
                                        },
                                    },
                                },
                            },
                        },
                    },
                },
            },
        },
    }
}

/// A module item: `mod` name `{` file `}`.
pub open spec fn sp_item_mod(toks: Seq<TokenV>, spans: Seq<Span>, st: ParserSt) -> Result<
    (ItemModV, ParserSt),
    Seq<char>,
>
    decreases toks.len() - st.index, 0int,
    when 0 <= st.index
{
    let st1 = sp_start(spans, st);
    match sp_expect(toks, spans, st1, TokenV::KwMod) {
        Err(m) => Err(m),
        Ok(st2) => match sp_ident(toks, spans, st2) {
            Err(m) => Err(m),
            Ok((id, st3)) => match sp_expect(toks, spans, st3, TokenV::LBrace) {
                Err(m) => Err(m),
                Ok(st4) => if st.index < st4.index <= toks.len() {
                    match sp_file(toks, spans, st4) {
                        Err(m) => Err(m),
                        Ok((f, st5)) => match sp_expect(toks, spans, st5, TokenV::RBrace) {
                            Err(m) => Err(m),
                            Ok(st6) => {
                                let (sp, st7) = sp_pop_span(spans, st6);
                                Ok((ItemModV { ident: id, file: f, span: sp }, st7))
                            },
                        },
                    }
                } else {
                    Err(Seq::empty())
                },
            },
        },
    }
}

/// An item: a function or a module.
pub open spec fn sp_item(toks: Seq<TokenV>, spans: Seq<Span>, st: ParserSt) -> Result<
    (ItemV, ParserSt),
    Seq<char>,
>
    decreases toks.len() - st.index, 1int,
{
    if cur_tok(toks, st.index) == TokenV::KwFn {
        match sp_item_fn(toks, spans, st) {
            Err(m) => Err(m),
            Ok((f, st1)) => Ok((ItemV::ItemFn(f), st1)),
        }
    } else if cur_tok(toks, st.index) == TokenV::KwMod {
        match sp_item_mod(toks, spans, st) {
            Err(m) => Err(m),
            Ok((m2, st1)) => Ok((ItemV::ItemMod(m2), st1)),
        }
    } else {
        Err(item_msg(cur_tok(toks, st.index)))
    }
}

/// The items of a file, up to `EOF` or a closing `}`.
pub open spec fn sp_items(toks: Seq<TokenV>, spans: Seq<Span>, st: ParserSt) -> Result<
    (Seq<ItemV>, ParserSt),
    Seq<char>,
>
    decreases toks.len() - st.index, 2int,
    when 0 <= st.index
{
    if cur_tok(toks, st.index) == TokenV::EOF || cur_tok(toks, st.index) == TokenV::RBrace {
        Ok((Seq::empty(), st))
    } else {
        match sp_item(toks, spans, st) {
            Err(m) => Err(m),
            Ok((item, st1)) => if st.index < st1.index <= toks.len() {
                match sp_items(toks, spans, st1) {
                    Err(m) => Err(m),
                    Ok((rest, st2)) => Ok((seq![item] + rest, st2)),
                }
            } else {
                Err(Seq::empty())
            },
        }
    }
}

/// A whole file: items until `EOF` or a closing `}`.
pub open spec fn sp_file(toks: Seq<TokenV>, spans: Seq<Span>, st: ParserSt) -> Result<
    (FileV, ParserSt),
    Seq<char>,
>
    decreases toks.len() - st.index, 3int,
    when 0 <= st.index
{
    let st1 = sp_start(spans, st);
    match sp_items(toks, spans, st1) {
        Err(m) => Err(m),
        Ok((items, st2)) => {
            let (sp, st3) = sp_pop_span(spans, st2);
            Ok((FileV { items, span: sp }, st3))
        },
    }
}

/// The parser over borrowed token and span slices.
pub struct Parser<'a> {
    pub input: &'a [Token],
    pub spans: &'a [Span],
    pub index: usize,
    pub starts: Vec<Span>,
}

impl<'a> Parser<'a> {
    /// The views of the input tokens.
    pub open spec fn toks(self) -> Seq<TokenV> {
        token_views(self.input@)
    }

    /// The cursor state of this parser.
    pub open spec fn st(self) -> ParserSt {
        ParserSt { index: self.index as int, starts: self.starts@ }
    }

    /// A well-formed parser: a lexer-shaped input stream, the cursor in
    /// bounds, and at least the outermost start mark on the stack.
    pub open spec fn wf(self) -> bool {
        &&& input_wf(self.toks(), self.spans@)
        &&& 0 <= self.index < self.toks().len()
        &&& self.starts@.len() >= 1
    }

    /// A parser at the first token, with the first token's span as the
    /// outermost start mark.
    pub fn new(input: &'a [Token], spans: &'a [Span]) -> (r: Self)
        requires
            input_wf(token_views(input@), spans@),
        ensures
            r.wf(),
            r.toks() == token_views(input@),
            r.spans@ == spans@,
            r.st() == (ParserSt { index: 0, starts: seq![spans@[0]] }),
    {
        let r = Parser { input, spans, index: 0, starts: vec![spans[0]] };
        proof {
            assert(r.starts@ =~= seq![spans@[0]]);
        }
        r
    }

    /// The token under the cursor.
    fn current(&self) -> (t: &Token)
        requires
            self.wf(),
        ensures
            t@ == cur_tok(self.toks(), self.st().index),
    {
        &self.input[self.index]
    }

    /// The span of the token under the cursor.
    fn current_span(&self) -> (r: Span)
        requires
            self.wf(),
        ensures
            r == (if self.st().index < self.spans@.len() {
                self.spans@[self.st().index]
            } else {
                unknown_span()
            }),
    {
        if self.index < self.spans.len() {
            self.spans[self.index]
        } else {
            Span::new()
        }
    }

    /// Moves the cursor forward.
    fn advance(&mut self, times: usize)
        requires
            old(self).wf(),
            old(self).index + times < old(self).toks().len(),
        ensures
            final(self).wf(),
            final(self).input == old(self).input,
            final(self).spans == old(self).spans,
            final(self).starts == old(self).starts,
            final(self).index == old(self).index + times,
    {
        self.index += times;
    }

    /// Pushes the current token's span as a start mark.
    fn start(&mut self)
        requires
            old(self).wf(),
        ensures
            final(self).wf(),
            final(self).input == old(self).input,
            final(self).spans == old(self).spans,
            final(self).index == old(self).index,
            final(self).st() == sp_start(old(self).spans@, old(self).st()),
    {
        let mut span = Span::new();
        if self.index < self.spans.len() {
            span = self.spans[self.index];
        }
        self.starts.push(span);
    }

    /// Pops the most recent start mark.
    fn finish(&mut self)
        requires
            old(self).wf(),
            old(self).starts@.len() >= 2,
        ensures
            final(self).wf(),
            final(self).input == old(self).input,
            final(self).spans == old(self).spans,
            final(self).index == old(self).index,
            final(self).starts@ == old(self).starts@.drop_last(),
    {
        self.starts.pop();
    }

    /// Completes a node's span: pops the most recent start mark and
    /// combines it with the span of the token before the cursor.
    fn span(&mut self) -> (r: Span)
        requires
            old(self).wf(),
            old(self).starts@.len() >= 2,
        ensures
            final(self).wf(),
            final(self).input == old(self).input,
            final(self).spans == old(self).spans,
            final(self).index == old(self).index,
            (r, final(self).st()) == sp_pop_span(old(self).spans@, old(self).st()),
    {
        let mut end = self.starts[0];
        if self.index > 0 && self.index <= self.spans.len() {
            end = self.spans[self.index - 1];
        }
        let span = Span::new().from(self.starts[self.starts.len() - 1].from).to(end.to);
        self.finish();
        span
    }

    /// The span a node completed here would get, without popping.
    fn previous_span(&self) -> (r: Span)
        requires
            self.wf(),
            self.starts@.len() >= 1,
        ensures
            r.to == sp_prev_span(self.spans@, self.st()).to,
    {
        let mut end = self.starts[0];
        if self.index > 0 && self.index <= self.spans.len() {
            end = self.spans[self.index - 1];
        }
        Span::new().from(self.starts[self.starts.len() - 1].from).to(end.to)
    }

    /// Consumes the current token if it matches, reporting whether it did.
    fn _eat(&mut self, kind: Token) -> (r: bool)
        requires
            old(self).wf(),
            kind@ != TokenV::EOF,
        ensures
            final(self).wf(),
            final(self).input == old(self).input,
            final(self).spans == old(self).spans,
            final(self).starts == old(self).starts,
            r == (cur_tok(old(self).toks(), old(self).st().index) == kind@),
            r ==> final(self).index == old(self).index + 1,
            !r ==> final(self).index == old(self).index,
    {
        if self.current() == &kind {
            proof {
                assert(self.toks()[self.index as int] != TokenV::EOF ==> self.index as int
                    != self.toks().len() - 1);
            }
            self.advance(1);
            return true;
        }
        false
    }

    /// Consumes one expected token, or fails with a message naming the
    /// offending token and the current span.
    fn expect(&mut self, kind: Token) -> (r: ParseResult<()>)
        requires
            old(self).wf(),
            kind@ != TokenV::EOF,
        ensures
            final(self).wf(),
            final(self).input == old(self).input,
            final(self).spans == old(self).spans,
            (match r {
                Ok(_) => sp_expect(old(self).toks(), old(self).spans@, old(self).st(), kind@)
                    == Ok::<ParserSt, Seq<char>>(final(self).st()) && final(self).index == old(
                    self,
                ).index + 1 && final(self).starts@ == old(self).starts@,
                Err(e) => sp_expect(old(self).toks(), old(self).spans@, old(self).st(), kind@)
                    == Err::<ParserSt, Seq<char>>(e@) && final(self).st() == old(self).st(),
            }),
    {
        self.start();
        if self.current() == &kind {
            proof {
                assert(self.toks()[self.index as int] != TokenV::EOF ==> self.index as int
                    != self.toks().len() - 1);
            }
            self.advance(1);
            self.finish();
            proof {
                assert(self.starts@ =~= old(self).starts@);
                assert(self.st() =~= (ParserSt {
                    index: old(self).index + 1,
                    starts: old(self).starts@,
                }));
            }
            return Ok(());
        }
        let err_span = self.span();
        let mut m = chars_of("Expected '");
        let kc = kind.to_chars();
        push_all(&mut m, kc.as_slice());
        let mid = chars_of("' but found '");
        push_all(&mut m, mid.as_slice());
        let cc = self.current().to_chars();
        push_all(&mut m, cc.as_slice());
        let mid2 = chars_of("' (");
        push_all(&mut m, mid2.as_slice());
        let sc = err_span.to_chars();
        push_all(&mut m, sc.as_slice());
        let close = chars_of(")");
        push_all(&mut m, close.as_slice());
        proof {
            let sp = sp_pop_span(old(self).spans@, sp_start(old(self).spans@, old(self).st())).0;
            reveal(expect_msg);
            assert(m@ =~= expect_msg(
                kind@,
                cur_tok(old(self).toks(), old(self).st().index),
                sp,
            ));
            assert(self.st() =~= old(self).st());
        }
        Err(ParseError::new(m))
    }

    /// Reads one identifier, giving it the span just parsed.
    pub fn parse_ident(&mut self) -> (r: ParseResult<Ident>)
        requires
            old(self).wf(),
        ensures
            final(self).wf(),
            final(self).input == old(self).input,
            final(self).spans == old(self).spans,
            (match r {
                Ok(node) => sp_ident(old(self).toks(), old(self).spans@, old(self).st())
                    == Ok::<(IdentV, ParserSt), Seq<char>>((node@, final(self).st())) && old(
                    self,
                ).index < final(self).index && final(self).starts@ == old(
                    self,
                ).starts@,
                Err(e) => sp_ident(old(self).toks(), old(self).spans@, old(self).st()) == Err::<
                    (IdentV, ParserSt),
                    Seq<char>,
                >(e@),
            }),
    {
        self.start();
        let cur = self.current().clone();
        match cur {
            Token::Ident(ident) => {
                proof {
                    assert(self.toks()[self.index as int] != TokenV::EOF);
                }
                self.advance(1);
                let sp = self.span();
                Ok(ident.with_span(sp))
            },
            _ => {
                let mut m = chars_of("Expected identifier, found ");
                let cc = self.current().to_chars();
                push_all(&mut m, cc.as_slice());
                proof {
                    reveal(ident_msg);
                    assert(m@ =~= ident_msg(cur_tok(old(self).toks(), old(self).st().index)));
                }
                Err(ParseError::new(m))
            },
        }
    }

    /// Reads a `::`-separated path.
    pub fn parse_path(&mut self) -> (r: ParseResult<Path>)
        requires
            old(self).wf(),
        ensures
            final(self).wf(),
            final(self).input == old(self).input,
            final(self).spans == old(self).spans,
            (match r {
                Ok(node) => sp_path(old(self).toks(), old(self).spans@, old(self).st())
                    == Ok::<(PathV, ParserSt), Seq<char>>((node@, final(self).st())) && old(
                    self,
                ).index < final(self).index && final(self).starts@ == old(
                    self,
                ).starts@,
                Err(e) => sp_path(old(self).toks(), old(self).spans@, old(self).st()) == Err::<
                    (PathV, ParserSt),
                    Seq<char>,
                >(e@),
            }),
    {
        let ghost toks = self.toks();
        let ghost spans = self.spans@;
        let ghost st0 = self.st();
        self.start();
        let mut segments: Vec<Ident> = Vec::new();
        let first = self.parse_ident()?;
        let ghost first_v = first@;
        segments.push(first);
        let ghost st_after_first = self.st();
        let ghost mut accv: Seq<IdentV> = seq![first_v];
        proof {
            assert(sp_ident(toks, spans, sp_start(spans, st0)) == Ok::<
                (IdentV, ParserSt),
                Seq<char>,
            >((first_v, st_after_first)));
        }
        while self.current() == &Token::ColonColon
            invariant
                self.wf(),
                self.input == old(self).input,
                self.spans == old(self).spans,
                toks == old(self).toks(),
                spans == old(self).spans@,
                st0 == old(self).st(),
                st0.index < self.st().index,
                accv.len() == segments@.len(),
                forall|j: int| 0 <= j < accv.len() ==> accv[j] == (#[trigger] segments@[j])@,
                self.st().starts == sp_start(spans, st0).starts,
                st0.index < st_after_first.index <= toks.len(),
                st_after_first.index <= self.st().index,
                sp_ident(toks, spans, sp_start(spans, st0)) == Ok::<(IdentV, ParserSt), Seq<char>>(
                    (first_v, st_after_first),
                ),
                sp_path_rest(toks, spans, self.st(), accv) == sp_path_rest(
                    toks,
                    spans,
                    st_after_first,
                    seq![first_v],
                ),
            decreases toks.len() - self.st().index,
        {
            self.expect(Token::ColonColon)?;
            let seg = self.parse_ident()?;
            proof {
                accv = accv.push(seg@);
            }
            segments.push(seg);
        }
        proof {
            assert(sp_path_rest(toks, spans, self.st(), accv) == Ok::<
                (Seq<IdentV>, ParserSt),
                Seq<char>,
            >((accv, self.st())));
        }
        let sp = self.span();
        let r = Path { segments, span: sp };
        proof {
            assert(r@.segments =~= accv);
        }
        Ok(r)
    }

    /// Reads an origin annotation: `{` then `*` or a path, then `}`.
    #[verifier::rlimit(100)]
    pub fn parse_origin(&mut self) -> (r: ParseResult<Origin>)
        requires
            old(self).wf(),
        ensures
            final(self).wf(),
            final(self).input == old(self).input,
            final(self).spans == old(self).spans,
            (match r {
                Ok(node) => sp_origin(old(self).toks(), old(self).spans@, old(self).st())
                    == Ok::<(OriginV, ParserSt), Seq<char>>((node@, final(self).st())) && old(
                    self,
                ).index < final(self).index && final(self).starts@ == old(
                    self,
                ).starts@,
                Err(e) => sp_origin(old(self).toks(), old(self).spans@, old(self).st()) == Err::<
                    (OriginV, ParserSt),
                    Seq<char>,
                >(e@),
            }),
    {
        self.expect(Token::LBrace)?;
        let mut origin = Origin::Universal;
        let is_path = match self.current() {
            Token::Ident(_) => true,
            _ => false,
        };
        if is_path {
            let path = self.parse_path()?;
            origin = Origin::Exact(path);
        } else {
            self.expect(Token::Star)?;
        }
        self.expect(Token::RBrace)?;
        Ok(origin)
    }

    /// Reads one parameter: an identifier, `:`, and an origin.
    #[verifier::rlimit(100)]
    pub fn parse_param(&mut self) -> (r: ParseResult<FnParam>)
        requires
            old(self).wf(),
        ensures
            final(self).wf(),
            final(self).input == old(self).input,
            final(self).spans == old(self).spans,
            (match r {
                Ok(node) => sp_param(old(self).toks(), old(self).spans@, old(self).st())
                    == Ok::<(FnParamV, ParserSt), Seq<char>>((node@, final(self).st())) && old(
                    self,
                ).index < final(self).index && final(self).starts@ == old(
                    self,
                ).starts@,
                Err(e) => sp_param(old(self).toks(), old(self).spans@, old(self).st()) == Err::<
                    (FnParamV, ParserSt),
                    Seq<char>,
                >(e@),
            }),
    {
        self.start();
        let ident = self.parse_ident()?;
        self.expect(Token::Colon)?;
        let origin = self.parse_origin()?;
        let sp = self.span();
        Ok(FnParam::new().with_ident(ident).with_origin(origin).with_span(sp))
    }

    /// Reads a possibly empty comma-separated parameter list.
    #[verifier::rlimit(100)]
    pub fn parse_param_list(&mut self) -> (r: ParseResult<Vec<FnParam>>)
        requires
            old(self).wf(),
        ensures
            final(self).wf(),
            final(self).input == old(self).input,
            final(self).spans == old(self).spans,
            (match r {
                Ok(params) => sp_param_list(old(self).toks(), old(self).spans@, old(self).st())
                    == Ok::<(Seq<FnParamV>, ParserSt), Seq<char>>(
                    (param_views(params@), final(self).st()),
                ) && old(self).index <= final(self).index && final(self).starts@
                    == old(self).starts@,
                Err(e) => sp_param_list(old(self).toks(), old(self).spans@, old(self).st())
                    == Err::<(Seq<FnParamV>, ParserSt), Seq<char>>(e@),
            }),
    {
        let ghost toks = self.toks();
        let ghost spans = self.spans@;
        let ghost st0 = self.st();
        let mut args: Vec<FnParam> = Vec::new();
        if self.current() == &Token::RParen {
            proof {
                assert(param_views(args@) =~= Seq::<FnParamV>::empty());
            }
            return Ok(args);
        }
        let first = self.parse_param()?;
        let ghost first_v = first@;
        let ghost st1 = self.st();
        args.push(first);
        let ghost mut accv: Seq<FnParamV> = seq![first_v];
        while self.current() == &Token::Comma
            invariant
                self.wf(),
                self.input == old(self).input,
                self.spans == old(self).spans,
                toks == old(self).toks(),
                spans == old(self).spans@,
                st0 == old(self).st(),
                st0.index < self.st().index,
                self.st().starts == st0.starts,
                cur_tok(toks, st0.index) != TokenV::RParen,
                accv.len() == args@.len(),
                forall|j: int| 0 <= j < accv.len() ==> accv[j] == (#[trigger] args@[j])@,
                st0.index < st1.index <= toks.len(),
                st1.index <= self.st().index,
                sp_param(toks, spans, st0) == Ok::<(FnParamV, ParserSt), Seq<char>>(
                    (first_v, st1),
                ),
                sp_params_rest(toks, spans, self.st(), accv) == sp_params_rest(
                    toks,
                    spans,
                    st1,
                    seq![first_v],
                ),
            decreases toks.len() - self.st().index,
        {
            proof {
                assert(self.toks()[self.index as int] != TokenV::EOF);
            }
            self.advance(1);
            let p = self.parse_param()?;
            proof {
                accv = accv.push(p@);
            }
            args.push(p);
        }
        proof {
            assert(sp_params_rest(toks, spans, self.st(), accv) == Ok::<
                (Seq<FnParamV>, ParserSt),
                Seq<char>,
            >((accv, self.st())));
            assert(param_views(args@) =~= accv);
        }
        Ok(args)
    }

    /// Reads a factor: a numeric literal, a path or call, or a
    /// parenthesized expression.
    #[verifier::rlimit(100)]
    pub fn parse_factor(&mut self) -> (r: ParseResult<Expr>)
        requires
            old(self).wf(),
        ensures
            final(self).wf(),
            final(self).input == old(self).input,
            final(self).spans == old(self).spans,
            (match r {
                Ok(node) => sp_factor(old(self).toks(), old(self).spans@, old(self).st())
                    == Ok::<(ExprV, ParserSt), Seq<char>>((node@, final(self).st())) && old(
                    self,
                ).index < final(self).index && final(self).starts@ == old(
                    self,
                ).starts@,
                Err(e) => sp_factor(old(self).toks(), old(self).spans@, old(self).st()) == Err::<
                    (ExprV, ParserSt),
                    Seq<char>,
                >(e@),
            }),
        decreases old(self).toks().len() - old(self).index, 2int,
    {
        let current = self.current().clone();
        match current {
            Token::NumLit(num_lit) => {
                self.start();
                proof {
                    assert(self.toks()[self.index as int] != TokenV::EOF);
                }
                self.advance(1);
                let sp = self.span();
                Ok(Expr::Lit(Lit::NumLit(num_lit.with_span(sp))))
            },
            Token::Ident(_) => {
                self.start();
                let path = self.parse_path()?;
                if self._eat(Token::LParen) {
                    let args = self.parse_arg_list()?;
                    self.expect(Token::RParen)?;
                    let sp = self.span();
                    return Ok(
                        Expr::FunCall(FnCall::new().with_path(path).with_args(args).with_span(sp)),
                    );
                }
                let sp = self.span();
                Ok(Expr::Path(path.with_span(sp)))
            },
            Token::LParen => {
                proof {
                    assert(self.toks()[self.index as int] != TokenV::EOF);
                }
                self.advance(1);
                let expr = self.parse_expr()?;
                self.expect(Token::RParen)?;
                Ok(expr)
            },
            _ => {
                let mut m = chars_of("Expected number or identifier, found '");
                let cc = self.current().to_chars();
                push_all(&mut m, cc.as_slice());
                let close = chars_of("'");
                push_all(&mut m, close.as_slice());
                proof {
                    reveal(factor_msg);
                    assert(m@ =~= factor_msg(cur_tok(old(self).toks(), old(self).st().index)));
                }
                Err(ParseError::new(m))
            },
        }
    }

    /// Reads a term: factors folded to the left over `*`.
    #[verifier::rlimit(100)]
    pub fn parse_term(&mut self) -> (r: ParseResult<Expr>)
        requires
            old(self).wf(),
        ensures
            final(self).wf(),
            final(self).input == old(self).input,
            final(self).spans == old(self).spans,
            (match r {
                Ok(node) => sp_term(old(self).toks(), old(self).spans@, old(self).st())
                    == Ok::<(ExprV, ParserSt), Seq<char>>((node@, final(self).st())) && old(
                    self,
                ).index < final(self).index && final(self).starts@ == old(
                    self,
                ).starts@,
                Err(e) => sp_term(old(self).toks(), old(self).spans@, old(self).st()) == Err::<
                    (ExprV, ParserSt),
                    Seq<char>,
                >(e@),
            }),
        decreases old(self).toks().len() - old(self).index, 3int,
    {
        let ghost toks = self.toks();
        let ghost spans = self.spans@;
        let ghost st0 = self.st();
        let mut expr = self.parse_factor()?;
        let ghost lhs0 = expr@;
        let ghost st1 = self.st();
        let start = expr.span();
        while self.current() == &Token::Star
            invariant
                self.wf(),
                self.input == old(self).input,
                self.spans == old(self).spans,
                toks == old(self).toks(),
                spans == old(self).spans@,
                st0 == old(self).st(),
                st0.index < self.st().index,
                self.st().starts == st0.starts,
                expr_span(expr@).from == start.from,
                st0.index < st1.index <= toks.len(),
                st1.index <= self.st().index,
                sp_factor(toks, spans, st0) == Ok::<(ExprV, ParserSt), Seq<char>>((lhs0, st1)),
                sp_term_rest(toks, spans, self.st(), expr@) == sp_term_rest(
                    toks,
                    spans,
                    st1,
                    lhs0,
                ),
            decreases toks.len() - self.st().index,
        {
            self.expect(Token::Star)?;
            let rhs = self.parse_factor()?;
            let prev = self.previous_span();
            expr = Expr::Bin(
                BinExp::new(expr, Op::Multiply, rhs).with_span(
                    Span::new().from(start.from).to(prev.to),
                ),
            );
        }
        proof {
            assert(sp_term_rest(toks, spans, self.st(), expr@) == Ok::<
                (ExprV, ParserSt),
                Seq<char>,
            >((expr@, self.st())));
        }
        Ok(expr)
    }

    /// Reads an expression: terms folded to the left over `+`.
    #[verifier::rlimit(100)]
    pub fn parse_expr(&mut self) -> (r: ParseResult<Expr>)
        requires
            old(self).wf(),
        ensures
            final(self).wf(),
            final(self).input == old(self).input,
            final(self).spans == old(self).spans,
            (match r {
                Ok(node) => sp_expr(old(self).toks(), old(self).spans@, old(self).st())
                    == Ok::<(ExprV, ParserSt), Seq<char>>((node@, final(self).st())) && old(
                    self,
                ).index < final(self).index && final(self).starts@ == old(
                    self,
                ).starts@,
                Err(e) => sp_expr(old(self).toks(), old(self).spans@, old(self).st()) == Err::<
                    (ExprV, ParserSt),
                    Seq<char>,
                >(e@),
            }),
        decreases old(self).toks().len() - old(self).index, 4int,
    {
        let ghost toks = self.toks();
        let ghost spans = self.spans@;
        let ghost st0 = self.st();
        let mut expr = self.parse_term()?;
        let ghost lhs0 = expr@;
        let ghost st1 = self.st();
        let start = expr.span();
        while self.current() == &Token::Plus
            invariant
                self.wf(),
                self.input == old(self).input,
                self.spans == old(self).spans,
                toks == old(self).toks(),
                spans == old(self).spans@,
                st0 == old(self).st(),
                st0.index < self.st().index,
                self.st().starts == st0.starts,
                expr_span(expr@).from == start.from,
                st0.index < st1.index <= toks.len(),
                st1.index <= self.st().index,
                sp_term(toks, spans, st0) == Ok::<(ExprV, ParserSt), Seq<char>>((lhs0, st1)),
                sp_expr_rest(toks, spans, self.st(), expr@) == sp_expr_rest(
                    toks,
                    spans,
                    st1,
                    lhs0,
                ),
            decreases toks.len() - self.st().index,
        {
            self.expect(Token::Plus)?;
            let rhs = self.parse_term()?;
            let prev = self.previous_span();
            expr = Expr::Bin(
                BinExp::new(expr, Op::Add, rhs).with_span(
                    Span::new().from(start.from).to(prev.to),
                ),
            );
        }
        proof {
            assert(sp_expr_rest(toks, spans, self.st(), expr@) == Ok::<
                (ExprV, ParserSt),
                Seq<char>,
            >((expr@, self.st())));
        }
        Ok(expr)
    }

    /// Reads a possibly empty comma-separated argument list.
    #[verifier::rlimit(100)]
    pub fn parse_arg_list(&mut self) -> (r: ParseResult<Vec<Expr>>)
        requires
            old(self).wf(),
        ensures
            final(self).wf(),
            final(self).input == old(self).input,
            final(self).spans == old(self).spans,
            (match r {
                Ok(args) => sp_arg_list(old(self).toks(), old(self).spans@, old(self).st())
                    == Ok::<(Seq<ExprV>, ParserSt), Seq<char>>(
                    (expr_view_seq(args@), final(self).st()),
                ) && old(self).index <= final(self).index && final(self).starts@
                    == old(self).starts@,
                Err(e) => sp_arg_list(old(self).toks(), old(self).spans@, old(self).st())
                    == Err::<(Seq<ExprV>, ParserSt), Seq<char>>(e@),
            }),
        decreases old(self).toks().len() - old(self).index, 5int,
    {
        let ghost toks = self.toks();
        let ghost spans = self.spans@;
        let ghost st0 = self.st();
        let mut args: Vec<Expr> = Vec::new();
        if self.current() == &Token::RParen {
            proof {
                assert(expr_view_seq(args@) =~= Seq::<ExprV>::empty());
            }
            return Ok(args);
        }
        let first = self.parse_expr()?;
        let ghost first_v = first@;
        let ghost st1 = self.st();
        args.push(first);
        let ghost mut accv: Seq<ExprV> = seq![first_v];
        proof {
            assert(args@.drop_last() =~= Seq::<Expr>::empty());
            assert(expr_view_seq(Seq::<Expr>::empty()) =~= Seq::<ExprV>::empty());
            assert(expr_view_seq(args@) =~= accv);
        }
        while self.current() == &Token::Comma
            invariant
                self.wf(),
                self.input == old(self).input,
                self.spans == old(self).spans,
                toks == old(self).toks(),
                spans == old(self).spans@,
                st0 == old(self).st(),
                st0.index < self.st().index,
                self.st().starts == st0.starts,
                cur_tok(toks, st0.index) != TokenV::RParen,
                accv == expr_view_seq(args@),
                st0.index < st1.index <= toks.len(),
                st1.index <= self.st().index,
                sp_expr(toks, spans, st0) == Ok::<(ExprV, ParserSt), Seq<char>>(
                    (first_v, st1),
                ),
                sp_args_rest(toks, spans, self.st(), accv) == sp_args_rest(
                    toks,
                    spans,
                    st1,
                    seq![first_v],
                ),
            decreases toks.len() - self.st().index,
        {
            proof {
                assert(self.toks()[self.index as int] != TokenV::EOF);
            }
            self.advance(1);
            let e = self.parse_expr()?;
            proof {
                accv = accv.push(e@);
                assert(args@.push(e).drop_last() =~= args@);
                assert(args@.push(e).last() == e);
                assert(expr_view_seq(args@.push(e)) == expr_view_seq(args@).push(e@));
            }
            args.push(e);
        }
        proof {
            assert(sp_args_rest(toks, spans, self.st(), accv) == Ok::<
                (Seq<ExprV>, ParserSt),
                Seq<char>,
            >((accv, self.st())));
        }
        Ok(args)
    }

    /// Reads a let binding: `let` identifier `=` expression.
    #[verifier::rlimit(100)]
    pub fn parse_local(&mut self) -> (r: ParseResult<Local>)
        requires
            old(self).wf(),
        ensures
            final(self).wf(),
            final(self).input == old(self).input,
            final(self).spans == old(self).spans,
            (match r {
                Ok(node) => sp_local(old(self).toks(), old(self).spans@, old(self).st())
                    == Ok::<(LocalV, ParserSt), Seq<char>>((node@, final(self).st())) && old(
                    self,
                ).index < final(self).index && final(self).starts@ == old(
                    self,
                ).starts@,
                Err(e) => sp_local(old(self).toks(), old(self).spans@, old(self).st()) == Err::<
                    (LocalV, ParserSt),
                    Seq<char>,
                >(e@),
            }),
    {
        self.start();
        self.expect(Token::KwLet)?;
        let ident = self.parse_ident()?;
        self.expect(Token::Equal)?;
        let expr = self.parse_expr()?;
        let sp = self.span();
        Ok(Local::new().with_ident(ident).with_expr(expr).with_span(sp))
    }

    /// Reads a return statement: `return` expression.
    #[verifier::rlimit(100)]
    pub fn parse_return(&mut self) -> (r: ParseResult<Return>)
        requires
            old(self).wf(),
        ensures
            final(self).wf(),
            final(self).input == old(self).input,
            final(self).spans == old(self).spans,
            (match r {
                Ok(node) => sp_return(old(self).toks(), old(self).spans@, old(self).st())
                    == Ok::<(ReturnV, ParserSt), Seq<char>>((node@, final(self).st())) && old(
                    self,
                ).index < final(self).index && final(self).starts@ == old(
                    self,
                ).starts@,
                Err(e) => sp_return(old(self).toks(), old(self).spans@, old(self).st()) == Err::<
                    (ReturnV, ParserSt),
                    Seq<char>,
                >(e@),
            }),
    {
        self.start();
        self.expect(Token::KwReturn)?;
        let expr = self.parse_expr()?;
        let sp = self.span();
        Ok(Return::new().with_expr(expr).with_span(sp))
    }

    /// Reads a statement: a let binding or a return.
    pub fn parse_stmt(&mut self) -> (r: ParseResult<Stmt>)
        requires
            old(self).wf(),
        ensures
            final(self).wf(),
            final(self).input == old(self).input,
            final(self).spans == old(self).spans,
            (match r {
                Ok(node) => sp_stmt(old(self).toks(), old(self).spans@, old(self).st())
                    == Ok::<(StmtV, ParserSt), Seq<char>>((node@, final(self).st())) && old(
                    self,
                ).index < final(self).index && final(self).starts@ == old(
                    self,
                ).starts@,
                Err(e) => sp_stmt(old(self).toks(), old(self).spans@, old(self).st()) == Err::<
                    (StmtV, ParserSt),
                    Seq<char>,
                >(e@),
            }),
    {
        if self.current() == &Token::KwLet {
            let l = self.parse_local()?;
            return Ok(Stmt::Local(l));
        }
        if self.current() == &Token::KwReturn {
            let ret = self.parse_return()?;
            return Ok(Stmt::Return(ret));
        }
        let mut m = chars_of("Unknown statement beginning with '");
        let cc = self.current().to_chars();
        push_all(&mut m, cc.as_slice());
        let close = chars_of("'");
        push_all(&mut m, close.as_slice());
        proof {
            reveal(stmt_msg);
            assert(m@ =~= stmt_msg(cur_tok(old(self).toks(), old(self).st().index)));
        }
        Err(ParseError::new(m))
    }

    /// Reads a block: `;`-terminated statements up to the closing `}`.
    #[verifier::rlimit(100)]
    pub fn parse_block(&mut self) -> (r: ParseResult<Block>)
        requires
            old(self).wf(),
        ensures
            final(self).wf(),
            final(self).input == old(self).input,
            final(self).spans == old(self).spans,
            (match r {
                Ok(node) => sp_block(old(self).toks(), old(self).spans@, old(self).st())
                    == Ok::<(BlockV, ParserSt), Seq<char>>((node@, final(self).st())) && old(
                    self,
                ).index <= final(self).index && final(self).starts@ == old(
                    self,
                ).starts@,
                Err(e) => sp_block(old(self).toks(), old(self).spans@, old(self).st()) == Err::<
                    (BlockV, ParserSt),
                    Seq<char>,
                >(e@),
            }),
    {
        let ghost toks = self.toks();
        let ghost spans = self.spans@;
        let ghost st0 = self.st();
        self.start();
        let ghost st1 = self.st();
        let mut calls: Vec<Stmt> = Vec::new();
        let ghost mut accv: Seq<StmtV> = Seq::empty();
        while self.current() != &Token::RBrace
            invariant
                self.wf(),
                self.input == old(self).input,
                self.spans == old(self).spans,
                toks == old(self).toks(),
                spans == old(self).spans@,
                st0 == old(self).st(),
                st1 == sp_start(spans, st0),
                st0.index <= self.st().index,
                self.st().starts == st1.starts,
                accv.len() == calls@.len(),
                forall|j: int| 0 <= j < accv.len() ==> accv[j] == (#[trigger] calls@[j])@,
                (match sp_stmts(toks, spans, self.st()) {
                    Err(m) => sp_stmts(toks, spans, st1) == Err::<
                        (Seq<StmtV>, ParserSt),
                        Seq<char>,
                    >(m),
                    Ok(rest) => sp_stmts(toks, spans, st1) == Ok::<
                        (Seq<StmtV>, ParserSt),
                        Seq<char>,
                    >((accv + rest.0, rest.1)),
                }),
            decreases toks.len() - self.st().index,
        {
            let ghost st_head = self.st();
            let ghost acc_head = accv;
            let s = self.parse_stmt()?;
            self.expect(Token::Semi)?;
            proof {
                accv = accv.push(s@);
                if sp_stmts(toks, spans, self.st()) is Ok {
                    let rest = sp_stmts(toks, spans, self.st())->Ok_0;
                    assert(acc_head + (seq![s@] + rest.0) =~= accv + rest.0);
                }
            }
            calls.push(s);
        }
        proof {
            assert(sp_stmts(toks, spans, self.st()) == Ok::<(Seq<StmtV>, ParserSt), Seq<char>>(
                (Seq::empty(), self.st()),
            ));
            assert(accv + Seq::<StmtV>::empty() =~= accv);
        }
        let sp = self.span();
        let node = Block::new().with_calls(calls).with_span(sp);
        proof {
            assert(node@ =~= (BlockV { stmts: accv, span: sp }));
        }
        Ok(node)
    }

    /// Reads a function item.
    #[verifier::rlimit(100)]
    #[verifier::spinoff_prover]
    pub fn parse_item_fn(&mut self) -> (r: ParseResult<Item>)
        requires
            old(self).wf(),
        ensures
            final(self).wf(),
            final(self).input == old(self).input,
            final(self).spans == old(self).spans,
            (match r {
                Ok(node) => ({
                    let res = sp_item_fn(old(self).toks(), old(self).spans@, old(self).st());
                    &&& res is Ok
                    &&& node@ == ItemV::ItemFn(res->Ok_0.0)
                    &&& final(self).st() == res->Ok_0.1
                    &&& old(self).index < final(self).index
                    &&& final(self).starts@ == old(self).starts@
                }),
                Err(e) => sp_item_fn(old(self).toks(), old(self).spans@, old(self).st())
                    == Err::<(ItemFnV, ParserSt), Seq<char>>(e@),
            }),
    {
        proof {
            reveal(sp_item_fn);
        }
        let ghost toks = self.toks();
        let ghost spans = self.spans@;
        let ghost st0 = self.st();
        self.start();
        let ghost st_a = self.st();
        self.expect(Token::KwFn)?;
        let ghost st_b = self.st();
        let ident = self.parse_ident()?;
        let ghost identv = ident@;
        let ghost st_c = self.st();
        self.expect(Token::LParen)?;
        let ghost st_d = self.st();
        let params = self.parse_param_list()?;
        let ghost paramsv = param_views(params@);
        let ghost st_e = self.st();
        self.expect(Token::RParen)?;
        let ghost st_f = self.st();
        self.expect(Token::RArrow)?;
        let ghost st_g = self.st();
        let ret_origin = self.parse_origin()?;
        let ghost retv = ret_origin@;
        let ghost st_h = self.st();
        self.expect(Token::LBrace)?;
        let ghost st_i = self.st();
        let body = self.parse_block()?;
        let ghost bodyv = body@;
        let ghost st_j = self.st();
        self.expect(Token::RBrace)?;
        let ghost st_k = self.st();
        let sp = self.span();
        let ghost st_l = self.st();
        let node = ItemFn::new().with_ident(ident).with_params(params).with_body(
            body,
        ).with_ret_origin(ret_origin).with_span(sp);
        proof {
            assert(node@.params =~= paramsv);
            assert(node@ == (ItemFnV {
                ident: identv,
                params: node@.params,
                body: bodyv,
                ret_origin: retv,
                span: sp,
            }));
            assert(sp_item_fn(toks, spans, st0) == Ok::<(ItemFnV, ParserSt), Seq<char>>(
                (node@, st_l),
            )) by {
                assert(sp_expect(toks, spans, st_a, TokenV::KwFn) == Ok::<ParserSt, Seq<char>>(
                    st_b,
                ));
                assert(sp_ident(toks, spans, st_b) == Ok::<(IdentV, ParserSt), Seq<char>>(
                    (identv, st_c),
                ));
                assert(sp_expect(toks, spans, st_c, TokenV::LParen) == Ok::<ParserSt, Seq<char>>(
                    st_d,
                ));
                assert(sp_param_list(toks, spans, st_d) == Ok::<
                    (Seq<FnParamV>, ParserSt),
                    Seq<char>,
                >((paramsv, st_e)));
                assert(sp_expect(toks, spans, st_e, TokenV::RParen) == Ok::<ParserSt, Seq<char>>(
                    st_f,
                ));
                assert(sp_expect(toks, spans, st_f, TokenV::RArrow) == Ok::<ParserSt, Seq<char>>(
                    st_g,
                ));
                assert(sp_origin(toks, spans, st_g) == Ok::<(OriginV, ParserSt), Seq<char>>(
                    (retv, st_h),
                ));
                assert(sp_expect(toks, spans, st_h, TokenV::LBrace) == Ok::<ParserSt, Seq<char>>(
                    st_i,
                ));
                assert(sp_block(toks, spans, st_i) == Ok::<(BlockV, ParserSt), Seq<char>>(
                    (bodyv, st_j),
                ));
                assert(sp_expect(toks, spans, st_j, TokenV::RBrace) == Ok::<ParserSt, Seq<char>>(
                    st_k,
                ));
                assert((sp, st_l) == sp_pop_span(spans, st_k));
            }
            assert(Item::ItemFn(node)@ == ItemV::ItemFn(node@));
        }
        Ok(Item::ItemFn(node))
    }

    /// Reads a module item.
    #[verifier::rlimit(100)]
    #[verifier::spinoff_prover]
    pub fn parse_item_mod(&mut self) -> (r: ParseResult<Item>)
        requires
            old(self).wf(),
        ensures
            final(self).wf(),
            final(self).input == old(self).input,
            final(self).spans == old(self).spans,
            (match r {
                Ok(node) => ({
                    let res = sp_item_mod(old(self).toks(), old(self).spans@, old(self).st());
                    &&& res is Ok
                    &&& node@ == ItemV::ItemMod(res->Ok_0.0)
                    &&& final(self).st() == res->Ok_0.1
                    &&& old(self).index < final(self).index
                    &&& final(self).starts@ == old(self).starts@
                }),
                Err(e) => sp_item_mod(old(self).toks(), old(self).spans@, old(self).st())
                    == Err::<(ItemModV, ParserSt), Seq<char>>(e@),
            }),
        decreases old(self).toks().len() - old(self).index, 0int,
    {
        proof {
            reveal(sp_item_mod);
        }
        self.start();
        self.expect(Token::KwMod)?;
        let ident = self.parse_ident()?;
        self.expect(Token::LBrace)?;
        let file = self.parse_file()?;
        self.expect(Token::RBrace)?;
        let sp = self.span();
        let node = ItemMod::new().with_ident(ident).with_file(file).with_span(sp);
        proof {
            assert(Item::ItemMod(node)@ == ItemV::ItemMod(node@));
        }
        Ok(Item::ItemMod(node))
    }

    /// Reads an item: a function or a module.
    #[verifier::rlimit(100)]
    pub fn parse_item(&mut self) -> (r: ParseResult<Item>)
        requires
            old(self).wf(),
        ensures
            final(self).wf(),
            final(self).input == old(self).input,
            final(self).spans == old(self).spans,
            (match r {
                Ok(node) => sp_item(old(self).toks(), old(self).spans@, old(self).st())
                    == Ok::<(ItemV, ParserSt), Seq<char>>((node@, final(self).st())) && old(
                    self,
                ).index < final(self).index && final(self).starts@ == old(
                    self,
                ).starts@,
                Err(e) => sp_item(old(self).toks(), old(self).spans@, old(self).st()) == Err::<
                    (ItemV, ParserSt),
                    Seq<char>,
                >(e@),
            }),
        decreases old(self).toks().len() - old(self).index, 1int,
    {
        let ghost toks = self.toks();
        let ghost spans = self.spans@;
        let ghost st0 = self.st();
        if self.current() == &Token::KwFn {
            return self.parse_item_fn();
        }
        if self.current() == &Token::KwMod {
            let r2 = self.parse_item_mod();
            match r2 {
                Ok(node) => {
                    proof {
                        assert(sp_item(toks, spans, st0) == Ok::<(ItemV, ParserSt), Seq<char>>(
                            (node@, self.st()),
                        ));
                    }
                    return Ok(node);
                },
                Err(e) => {
                    proof {
                        assert(sp_item(toks, spans, st0) == Err::<(ItemV, ParserSt), Seq<char>>(
                            e@,
                        ));
                    }
                    return Err(e);
                },
            }
        }
        let mut m = chars_of("Expected 'fn' or 'mod', found ");
        let cc = self.current().to_chars();
        push_all(&mut m, cc.as_slice());
        proof {
            reveal(item_msg);
            assert(m@ =~= item_msg(cur_tok(old(self).toks(), old(self).st().index)));
        }
        Err(ParseError::new(m))
    }

    /// Parses an entire file: items until `EOF` or a closing `}`.
    #[verifier::rlimit(100)]
    #[verifier::spinoff_prover]
    pub fn parse_file(&mut self) -> (r: ParseResult<File>)
        requires
            old(self).wf(),
        ensures
            final(self).wf(),
            final(self).input == old(self).input,
            final(self).spans == old(self).spans,
            (match r {
                Ok(node) => sp_file(old(self).toks(), old(self).spans@, old(self).st())
                    == Ok::<(FileV, ParserSt), Seq<char>>((node@, final(self).st())) && old(
                    self,
                ).index <= final(self).index && final(self).starts@ == old(
                    self,
                ).starts@,
                Err(e) => sp_file(old(self).toks(), old(self).spans@, old(self).st()) == Err::<
                    (FileV, ParserSt),
                    Seq<char>,
                >(e@),
            }),
        decreases old(self).toks().len() - old(self).index, 2int,
    {
        let ghost toks = self.toks();
        let ghost spans = self.spans@;
        let ghost st0 = self.st();
        self.start();
        let ghost st1 = self.st();
        let mut items: Vec<Item> = Vec::new();
        let ghost mut accv: Seq<ItemV> = Seq::empty();
        while self.current() != &Token::EOF && self.current() != &Token::RBrace
            invariant
                self.wf(),
                self.input == old(self).input,
                self.spans == old(self).spans,
                toks == old(self).toks(),
                spans == old(self).spans@,
                st0 == old(self).st(),
                st1 == sp_start(spans, st0),
                st0.index <= self.st().index,
                self.st().starts == st1.starts,
                accv.len() == items@.len(),
                forall|j: int| 0 <= j < accv.len() ==> accv[j] == (#[trigger] items@[j])@,
                (match sp_items(toks, spans, self.st()) {
                    Err(m) => sp_items(toks, spans, st1) == Err::<
                        (Seq<ItemV>, ParserSt),
                        Seq<char>,
                    >(m),
                    Ok(rest) => sp_items(toks, spans, st1) == Ok::<
                        (Seq<ItemV>, ParserSt),
                        Seq<char>,
                    >((accv + rest.0, rest.1)),
                }),
            decreases toks.len() - self.st().index,
        {
            let ghost st_head = self.st();
            let ghost acc_head = accv;
            let item = self.parse_item()?;
            proof {
                accv = accv.push(item@);
                if sp_items(toks, spans, self.st()) is Ok {
                    let rest = sp_items(toks, spans, self.st())->Ok_0;
                    assert(acc_head + (seq![item@] + rest.0) =~= accv + rest.0);
                }
            }
            items.push(item);
        }
        proof {
            assert(sp_items(toks, spans, self.st()) == Ok::<(Seq<ItemV>, ParserSt), Seq<char>>(
                (Seq::empty(), self.st()),
            ));
            assert(accv + Seq::<ItemV>::empty() =~= accv);
        }
        let sp = self.span();
        let node = File::new().with_items(items).with_span(sp);
        proof {
            crate::ast::item::lemma_item_view_seq(items@);
            assert forall|j: int| 0 <= j < accv.len() implies item_view_seq(items@)[j] == accv[j]
                by {
                assert(accv[j] == items@[j]@);
                assert(item_view_seq(items@)[j] == crate::ast::item::item_view(items@[j]));
            }
            assert(item_view_seq(items@) =~= accv);
            assert(node@ =~= (FileV { items: accv, span: sp }));
        }
        Ok(node)
    }
}

/// The views of a parameter sequence, in order.
pub open spec fn param_views(s: Seq<FnParam>) -> Seq<FnParamV> {
    s.map_values(|p: FnParam| p@)
}

} // verus!
