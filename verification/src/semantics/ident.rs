//! Identifier resolution: every name in an expression must be in scope.
//!
//! Per function, the scope holds the parameters and every `let`-bound
//! name; a binding is in scope for the statements strictly following it,
//! not within its own initializer. A path used as a value must be in the
//! scope; a callee must be in the global function table with matching
//! arity. All errors are accumulated and the pass runs to completion.

use vstd::prelude::*;
use vstd::slice::slice_to_vec;

use crate::ast::expr::{expr_view, Expr, ExprV};
use crate::ast::file::{File, FileV};
use crate::ast::item::{item_view, FnParamV, Item, ItemFn, ItemMod, ItemV};
use crate::ast::stmt::{Stmt, StmtV};
use crate::chars::{chars_of, push_all, spec_nat_chars, usize_chars};
use crate::semantics::error::{err_views, SemaError, SemaErrorV, SemaResult};
use crate::semantics::function::{FunctionData, FunctionDataV};
use crate::symbol::SymbolTable;

verus! {

/// The message for a name not in scope.
#[verifier::opaque]
pub open spec fn unknown_name_msg(name: Seq<char>) -> Seq<char> {
    "Couldn't find a definition for '"@ + name + "'"@
}

/// The message for a callee not in the function table.
#[verifier::opaque]
pub open spec fn unknown_fn_msg(name: Seq<char>) -> Seq<char> {
    "Couldn't find a definition for function '"@ + name + "'"@
}

/// The message for a call with the wrong number of arguments.
#[verifier::opaque]
pub open spec fn arity_msg(name: Seq<char>, expected: nat, actual: nat) -> Seq<char> {
    "Function '"@ + name + "' expects "@ + spec_nat_chars(expected) + " arguments, but "@
        + spec_nat_chars(actual) + " were provided"@
}

/// The errors of one expression: a path must be in scope; a callee must
/// exist with matching arity; arguments are checked recursively.
pub open spec fn sp_ident_expr(
    e: ExprV,
    functions: Map<Seq<char>, FunctionDataV>,
    scope: Map<Seq<char>, ()>,
    prefix: Seq<char>,
) -> Seq<SemaErrorV>
    decreases e, 0int,
{
    match e {
        ExprV::Bin(b) => sp_ident_expr(*b.lhs, functions, scope, prefix) + sp_ident_expr(
            *b.rhs,
            functions,
            scope,
            prefix,
        ),
        ExprV::Lit(_) => Seq::empty(),
        ExprV::Ident(_) => Seq::empty(),
        ExprV::Path(p) => if scope.contains_key(p.str()) {
            Seq::empty()
        } else {
            seq![SemaErrorV { message: unknown_name_msg(p.str()), span: p.span }]
        },
        ExprV::FunCall(c) => {
            let key = crate::semantics::function::canon(prefix, c.path.str());
            let own = if functions.contains_key(key) {
                if functions[key].params.len() != c.args.len() {
                    seq![
                        SemaErrorV {
                            message: arity_msg(
                                c.path.str(),
                                functions[key].params.len(),
                                c.args.len(),
                            ),
                            span: c.path.span,
                        },
                    ]
                } else {
                    Seq::empty()
                }
            } else {
                seq![SemaErrorV { message: unknown_fn_msg(c.path.str()), span: c.path.span }]
            };
            own + sp_ident_args(c.args, functions, scope, prefix, 0)
        },
    }
}

/// The errors of the arguments from index `i` on.
pub open spec fn sp_ident_args(
    args: Seq<ExprV>,
    functions: Map<Seq<char>, FunctionDataV>,
    scope: Map<Seq<char>, ()>,
    prefix: Seq<char>,
    i: int,
) -> Seq<SemaErrorV>
    decreases args, args.len() - i,
{
    if 0 <= i < args.len() {
        sp_ident_expr(args[i], functions, scope, prefix) + sp_ident_args(
            args,
            functions,
            scope,
            prefix,
            i + 1,
        )
    } else {
        Seq::empty()
    }
}

/// The errors of the statements from index `i` on, threading the scope: a
/// `let` introduces its name for the statements after it.
pub open spec fn sp_ident_stmts(
    stmts: Seq<StmtV>,
    functions: Map<Seq<char>, FunctionDataV>,
    scope: Map<Seq<char>, ()>,
    prefix: Seq<char>,
    i: int,
) -> Seq<SemaErrorV>
    decreases stmts.len() - i,
{
    if 0 <= i < stmts.len() {
        match stmts[i] {
            StmtV::Local(l) => sp_ident_expr(l.expr, functions, scope, prefix) + sp_ident_stmts(
                stmts,
                functions,
                scope.insert(l.ident.raw, ()),
                prefix,
                i + 1,
            ),
            StmtV::Return(r) => sp_ident_expr(r.expr, functions, scope, prefix) + sp_ident_stmts(
                stmts,
                functions,
                scope,
                prefix,
                i + 1,
            ),
            StmtV::Claim(_) => sp_ident_stmts(stmts, functions, scope, prefix, i + 1),
        }
    } else {
        Seq::empty()
    }
}

/// The scope holding the parameters from index `i` on.
pub open spec fn sp_param_scope(params: Seq<FnParamV>, i: int) -> Map<Seq<char>, ()>
    decreases params.len() - i,
{
    if 0 <= i < params.len() {
        sp_param_scope(params, i + 1).insert(params[i].ident.raw, ())
    } else {
        Map::empty()
    }
}

/// The errors of one item: a function's body is checked under its
/// parameters; a module's file is checked recursively.
pub open spec fn sp_ident_item(
    item: ItemV,
    functions: Map<Seq<char>, FunctionDataV>,
    prefix: Seq<char>,
) -> Seq<SemaErrorV>
    decreases item, 0int,
{
    match item {
        ItemV::ItemFn(f) => sp_ident_stmts(
            f.body.stmts,
            functions,
            sp_param_scope(f.params, 0),
            prefix,
            0,
        ),
        ItemV::ItemMod(m) => sp_ident_file(
            m.file,
            functions,
            crate::semantics::function::canon(prefix, m.ident.raw),
        ),
    }
}

/// The errors of the items from index `i` on.
pub open spec fn sp_ident_items(
    items: Seq<ItemV>,
    functions: Map<Seq<char>, FunctionDataV>,
    prefix: Seq<char>,
    i: int,
) -> Seq<SemaErrorV>
    decreases items, items.len() - i,
{
    if 0 <= i < items.len() {
        sp_ident_item(items[i], functions, prefix) + sp_ident_items(items, functions, prefix, i + 1)
    } else {
        Seq::empty()
    }
}

/// The errors of a whole file.
pub open spec fn sp_ident_file(
    f: FileV,
    functions: Map<Seq<char>, FunctionDataV>,
    prefix: Seq<char>,
) -> Seq<SemaErrorV>
    decreases f, 0int,
{
    sp_ident_items(f.items, functions, prefix, 0)
}

/// The identifier-resolution pass over one file.
pub struct IdentAnalysis<'a> {
    pub file: &'a File,
    pub functions: &'a SymbolTable<FunctionData>,
    pub table: SymbolTable<()>,
    pub prefix: Vec<char>,
    pub errors: Vec<SemaError>,
}

impl<'a> IdentAnalysis<'a> {
    /// A pass over `file` against the collected function table, with the
    /// crate's canonical prefix: callees are looked up under
    /// `<prefix>::<path>`.
    pub fn new(
        file: &'a File,
        functions: &'a SymbolTable<FunctionData>,
        prefix: Vec<char>,
    ) -> (r: IdentAnalysis<'a>)
        ensures
            r.file == file,
            r.functions == functions,
            r.prefix@ == prefix@,
            r.table@ == Map::<Seq<char>, ()>::empty(),
            r.table.parent_map() == Map::<Seq<char>, ()>::empty(),
            r.errors@ == Seq::<SemaError>::empty(),
    {
        IdentAnalysis { file, functions, table: SymbolTable::new(), prefix, errors: Vec::new() }
    }

    /// Runs the pass: `Ok` exactly when the file has no unresolved names
    /// and no arity mismatches; otherwise every accumulated error, in
    /// visit order.
    pub fn analyze(&mut self) -> (r: SemaResult<()>)
        requires
            old(self).table@ == Map::<Seq<char>, ()>::empty(),
            old(self).table.parent_map() == Map::<Seq<char>, ()>::empty(),
        ensures
            ({
                let errs = sp_ident_file(
                    crate::ast::item::file_view(*old(self).file),
                    old(self).functions@,
                    old(self).prefix@,
                );
                match r {
                    Ok(_) => errs.len() == 0 && old(self).errors@.len() == 0,
                    Err(es) => err_views(es@) == err_views(old(self).errors@) + errs && es@.len()
                        > 0,
                }
            }),
    {
        let f = self.file;
        self.visit_file(f);
        if self.errors.len() > 0 {
            let mut out: Vec<SemaError> = Vec::new();
            let n = self.errors.len();
            let mut i: usize = 0;
            while i < n
                invariant
                    n == self.errors@.len(),
                    i <= n,
                    out@.len() == i,
                    forall|j: int| 0 <= j < i ==> (#[trigger] out@[j])@ == self.errors@[j]@,
                decreases n - i,
            {
                out.push(self.errors[i].clone());
                i += 1;
            }
            proof {
                assert(err_views(out@) =~= err_views(self.errors@));
            }
            return Err(out);
        }
        proof {
            assert(err_views(self.errors@) =~= Seq::<SemaErrorV>::empty());
        }
        Ok(())
    }

    /// Checks every item of `node`.
    pub fn visit_file(&mut self, node: &File)
        requires
            old(self).table@ == Map::<Seq<char>, ()>::empty(),
            old(self).table.parent_map() == Map::<Seq<char>, ()>::empty(),
        ensures
            final(self).file == old(self).file,
            final(self).functions == old(self).functions,
            final(self).prefix@ == old(self).prefix@,
            final(self).table@ == old(self).table@,
            final(self).table.parent_map() == old(self).table.parent_map(),
            err_views(final(self).errors@) == err_views(old(self).errors@) + sp_ident_file(
                crate::ast::item::file_view(*node),
                old(self).functions@,
                old(self).prefix@,
            ),
        decreases *node, 1int,
    {
        let ghost fv = crate::ast::item::file_view(*node);
        proof {
            crate::ast::item::lemma_item_view_seq(node.items@);
        }
        let n = node.items.len();
        let mut i: usize = 0;
        while i < n
            invariant
                n == node.items@.len(),
                i <= n,
                fv == crate::ast::item::file_view(*node),
                fv.items.len() == n,
                forall|j: int|
                    0 <= j < n ==> fv.items[j] == item_view(#[trigger] node.items@[j]),
                self.file == old(self).file,
                self.functions == old(self).functions,
                self.prefix@ == old(self).prefix@,
                self.table@ == old(self).table@,
                self.table.parent_map() == old(self).table.parent_map(),
                old(self).table@ == Map::<Seq<char>, ()>::empty(),
                old(self).table.parent_map() == Map::<Seq<char>, ()>::empty(),
                err_views(self.errors@) + sp_ident_items(
                    fv.items,
                    old(self).functions@,
                    old(self).prefix@,
                    i as int,
                ) == err_views(old(self).errors@) + sp_ident_items(
                    fv.items,
                    old(self).functions@,
                    old(self).prefix@,
                    0,
                ),
            decreases n - i,
        {
            let ghost errs_head = self.errors@;
            self.visit_item(&node.items[i]);
            proof {
                assert((err_views(errs_head) + sp_ident_item(
                    fv.items[i as int],
                    old(self).functions@,
                    old(self).prefix@,
                )) + sp_ident_items(fv.items, old(self).functions@, old(self).prefix@, i + 1)
                    =~= err_views(errs_head) + (sp_ident_item(
                    fv.items[i as int],
                    old(self).functions@,
                    old(self).prefix@,
                ) + sp_ident_items(fv.items, old(self).functions@, old(self).prefix@, i + 1)));
            }
            i += 1;
        }
    }

    /// Checks one item.
    pub fn visit_item(&mut self, node: &Item)
        requires
            old(self).table@ == Map::<Seq<char>, ()>::empty(),
            old(self).table.parent_map() == Map::<Seq<char>, ()>::empty(),
        ensures
            final(self).file == old(self).file,
            final(self).functions == old(self).functions,
            final(self).prefix@ == old(self).prefix@,
            final(self).table@ == old(self).table@,
            final(self).table.parent_map() == old(self).table.parent_map(),
            err_views(final(self).errors@) == err_views(old(self).errors@) + sp_ident_item(
                item_view(*node),
                old(self).functions@,
                old(self).prefix@,
            ),
        decreases *node, 0int,
    {
        match node {
            Item::ItemFn(f) => self.visit_item_fn(f),
            Item::ItemMod(m) => {
                let saved = slice_to_vec(self.prefix.as_slice());
                let sep = chars_of("::");
                push_all(&mut self.prefix, sep.as_slice());
                push_all(&mut self.prefix, m.ident.raw.as_slice());
                proof {
                    reveal_strlit("::");
                    assert("::"@ =~= crate::ast::path::spec_sep());
                    assert(self.prefix@ =~= crate::semantics::function::canon(
                        old(self).prefix@,
                        m@.ident.raw,
                    ));
                }
                let file = &m.file;
                self.visit_file(file);
                self.prefix = saved;
            },
        }
    }

    /// Checks one function: its parameters enter the scope, its body is
    /// walked, and the scope is cleared for the next function.
    pub fn visit_item_fn(&mut self, node: &ItemFn)
        requires
            old(self).table@ == Map::<Seq<char>, ()>::empty(),
            old(self).table.parent_map() == Map::<Seq<char>, ()>::empty(),
        ensures
            final(self).file == old(self).file,
            final(self).functions == old(self).functions,
            final(self).prefix@ == old(self).prefix@,
            final(self).table@ == old(self).table@,
            final(self).table.parent_map() == old(self).table.parent_map(),
            err_views(final(self).errors@) == err_views(old(self).errors@) + sp_ident_item(
                ItemV::ItemFn(node@),
                old(self).functions@,
                old(self).prefix@,
            ),
    {
        // Add function parameters to the symbol table
        let n = node.params.len();
        let ghost paramsv = node@.params;
        let mut i: usize = n;
        while i > 0
            invariant
                n == node.params@.len(),
                i <= n,
                paramsv == node@.params,
                paramsv.len() == n,
                self.file == old(self).file,
                self.functions == old(self).functions,
                self.prefix@ == old(self).prefix@,
                self.errors@ == old(self).errors@,
                self.table.parent_map() == old(self).table.parent_map(),
                old(self).table.parent_map() == Map::<Seq<char>, ()>::empty(),
                self.table@ == sp_param_scope(paramsv, i as int),
            decreases i,
        {
            i -= 1;
            let param = &node.params[i];
            self.table.insert(slice_to_vec(param.ident.raw.as_slice()), ());
            proof {
                assert(paramsv[i as int] == node.params@[i as int]@);
            }
        }
        let body = &node.body;
        self.visit_stmts(body);
        // Clear the table for other functions
        self.table.clear();
    }

    /// Checks the statements of a function body in order, extending the
    /// scope at each `let`.
    fn visit_stmts(&mut self, body: &crate::ast::block::Block)
        ensures
            final(self).file == old(self).file,
            final(self).functions == old(self).functions,
            final(self).prefix@ == old(self).prefix@,
            final(self).table.parent_map() == old(self).table.parent_map(),
            err_views(final(self).errors@) == err_views(old(self).errors@) + sp_ident_stmts(
                body@.stmts,
                old(self).functions@,
                old(self).table@,
                old(self).prefix@,
                0,
            ),
    {
        let n = body.stmts.len();
        let ghost stmtsv = body@.stmts;
        let mut i: usize = 0;
        while i < n
            invariant
                n == body.stmts@.len(),
                i <= n,
                stmtsv == body@.stmts,
                stmtsv.len() == n,
                forall|j: int| 0 <= j < n ==> stmtsv[j] == (#[trigger] body.stmts@[j])@,
                self.file == old(self).file,
                self.functions == old(self).functions,
                self.prefix@ == old(self).prefix@,
                self.table.parent_map() == old(self).table.parent_map(),
                err_views(self.errors@) + sp_ident_stmts(
                    stmtsv,
                    old(self).functions@,
                    self.table@,
                    old(self).prefix@,
                    i as int,
                ) == err_views(old(self).errors@) + sp_ident_stmts(
                    stmtsv,
                    old(self).functions@,
                    old(self).table@,
                    old(self).prefix@,
                    0,
                ),
            decreases n - i,
        {
            let ghost errs_head = self.errors@;
            let ghost scope_head = self.table@;
            match &body.stmts[i] {
                Stmt::Local(l) => {
                    self.visit_expr(&l.expr);
                    self.table.insert(slice_to_vec(l.ident.raw.as_slice()), ());
                    proof {
                        let own = sp_ident_expr(
                            stmtsv[i as int]->Local_0.expr,
                            old(self).functions@,
                            scope_head,
                            old(self).prefix@,
                        );
                        assert((err_views(errs_head) + own) + sp_ident_stmts(
                            stmtsv,
                            old(self).functions@,
                            self.table@,
                            old(self).prefix@,
                            i + 1,
                        ) =~= err_views(errs_head) + (own + sp_ident_stmts(
                            stmtsv,
                            old(self).functions@,
                            self.table@,
                            old(self).prefix@,
                            i + 1,
                        )));
                    }
                },
                Stmt::Return(r) => {
                    self.visit_expr(&r.expr);
                    proof {
                        let own = sp_ident_expr(
                            stmtsv[i as int]->Return_0.expr,
                            old(self).functions@,
                            scope_head,
                            old(self).prefix@,
                        );
                        assert((err_views(errs_head) + own) + sp_ident_stmts(
                            stmtsv,
                            old(self).functions@,
                            self.table@,
                            old(self).prefix@,
                            i + 1,
                        ) =~= err_views(errs_head) + (own + sp_ident_stmts(
                            stmtsv,
                            old(self).functions@,
                            self.table@,
                            old(self).prefix@,
                            i + 1,
                        )));
                    }
                },
                Stmt::Claim(_) => {},
            }
            i += 1;
        }
    }

    /// Checks one expression against the scope and the function table.
    #[verifier::loop_isolation(false)]
    pub fn visit_expr(&mut self, node: &Expr)
        ensures
            final(self).file == old(self).file,
            final(self).functions == old(self).functions,
            final(self).prefix@ == old(self).prefix@,
            final(self).table@ == old(self).table@,
            final(self).table.parent_map() == old(self).table.parent_map(),
            err_views(final(self).errors@) == err_views(old(self).errors@) + sp_ident_expr(
                expr_view(*node),
                old(self).functions@,
                old(self).table@,
                old(self).prefix@,
            ),
        decreases *node,
    {
        match node {
            Expr::Path(path) => {
                let rep = path.to_chars();
                // Make sure this identifier has been defined
                if self.table.find(rep.as_slice()).is_none() {
                    let mut m = chars_of("Couldn't find a definition for '");
                    push_all(&mut m, rep.as_slice());
                    let close = chars_of("'");
                    push_all(&mut m, close.as_slice());
                    proof {
                        reveal(unknown_name_msg);
                        assert(m@ =~= unknown_name_msg(path@.str()));
                    }
                    self.errors.push(SemaError::new().with_message(m).with_span(path.span));
                    proof {
                        assert(err_views(self.errors@) =~= err_views(old(self).errors@)
                            + sp_ident_expr(
                            expr_view(*node),
                            old(self).functions@,
                            old(self).table@,
                            old(self).prefix@,
                        ));
                    }
                } else {
                    proof {
                        assert(err_views(self.errors@) =~= err_views(old(self).errors@)
                            + sp_ident_expr(
                            expr_view(*node),
                            old(self).functions@,
                            old(self).table@,
                            old(self).prefix@,
                        ));
                    }
                }
            },
            Expr::FunCall(fun_call) => {
                let fun_name = fun_call.path.to_chars();
                let mut key = slice_to_vec(self.prefix.as_slice());
                let sep = chars_of("::");
                push_all(&mut key, sep.as_slice());
                push_all(&mut key, fun_name.as_slice());
                proof {
                    reveal_strlit("::");
                    assert("::"@ =~= crate::ast::path::spec_sep());
                    assert(key@ =~= crate::semantics::function::canon(
                        old(self).prefix@,
                        fun_call.path@.str(),
                    ));
                }
                match self.functions.find(key.as_slice()) {
                    Some(data) => {
                        // Check that the number of passed arguments matches
                        if data.params.len() != fun_call.args.len() {
                            let mut m = chars_of("Function '");
                            push_all(&mut m, fun_name.as_slice());
                            let mid = chars_of("' expects ");
                            push_all(&mut m, mid.as_slice());
                            let exp = usize_chars(data.params.len());
                            push_all(&mut m, exp.as_slice());
                            let mid2 = chars_of(" arguments, but ");
                            push_all(&mut m, mid2.as_slice());
                            let act = usize_chars(fun_call.args.len());
                            push_all(&mut m, act.as_slice());
                            let tail = chars_of(" were provided");
                            push_all(&mut m, tail.as_slice());
                            proof {
                                reveal(arity_msg);
                                assert(m@ =~= arity_msg(
                                    fun_call.path@.str(),
                                    old(self).functions@[key@].params.len(),
                                    fun_call.args@.len(),
                                ));
                            }
                            self.errors.push(
                                SemaError::new().with_message(m).with_span(fun_call.path.span),
                            );
                        }
                    },
                    None => {
                        let mut m = chars_of("Couldn't find a definition for function '");
                        push_all(&mut m, fun_name.as_slice());
                        let close = chars_of("'");
                        push_all(&mut m, close.as_slice());
                        proof {
                            reveal(unknown_fn_msg);
                            assert(m@ =~= unknown_fn_msg(fun_call.path@.str()));
                        }
                        self.errors.push(
                            SemaError::new().with_message(m).with_span(fun_call.path.span),
                        );
                    },
                }
                let ghost errs_mid = self.errors@;
                let n = fun_call.args.len();
                let ghost argsv = fun_call@.args;
                proof {
                    crate::ast::expr::lemma_expr_view_seq(fun_call.args@);
                }
                let mut i: usize = 0;
                while i < n
                    invariant
                        *node == Expr::FunCall(*fun_call),
                        n == fun_call.args@.len(),
                        i <= n,
                        argsv.len() == n,
                        forall|j: int|
                            0 <= j < n ==> argsv[j] == expr_view(#[trigger] fun_call.args@[j]),
                        self.file == old(self).file,
                        self.functions == old(self).functions,
                        self.prefix@ == old(self).prefix@,
                        self.table@ == old(self).table@,
                        self.table.parent_map() == old(self).table.parent_map(),
                        err_views(self.errors@) + sp_ident_args(
                            argsv,
                            old(self).functions@,
                            old(self).table@,
                            old(self).prefix@,
                            i as int,
                        ) == err_views(errs_mid) + sp_ident_args(
                            argsv,
                            old(self).functions@,
                            old(self).table@,
                            old(self).prefix@,
                            0,
                        ),
                    decreases n - i,
                {
                    let ghost errs_head = self.errors@;
                    proof {
                        assert(decreases_to!(*node => *fun_call));
                        assert(decreases_to!(*fun_call => fun_call.args));
                        assert(decreases_to!(fun_call.args => fun_call.args@));
                        assert(decreases_to!(fun_call.args@ => fun_call.args@[i as int]));
                    }
                    self.visit_expr(&fun_call.args[i]);
                    proof {
                        let own = sp_ident_expr(
                            argsv[i as int],
                            old(self).functions@,
                            old(self).table@,
                            old(self).prefix@,
                        );
                        assert((err_views(errs_head) + own) + sp_ident_args(
                            argsv,
                            old(self).functions@,
                            old(self).table@,
                            old(self).prefix@,
                            i + 1,
                        ) =~= err_views(errs_head) + (own + sp_ident_args(
                            argsv,
                            old(self).functions@,
                            old(self).table@,
                            old(self).prefix@,
                            i + 1,
                        )));
                    }
                    i += 1;
                }
                proof {
                    assert(err_views(self.errors@) =~= err_views(old(self).errors@)
                        + sp_ident_expr(
                        expr_view(*node),
                        old(self).functions@,
                        old(self).table@,
                        old(self).prefix@,
                    ));
                }
            },
            Expr::Bin(b) => {
                self.visit_expr(&b.lhs);
                self.visit_expr(&b.rhs);
                proof {
                    assert(err_views(self.errors@) =~= err_views(old(self).errors@)
                        + sp_ident_expr(
                        expr_view(*node),
                        old(self).functions@,
                        old(self).table@,
                        old(self).prefix@,
                    ));
                }
            },
            Expr::Lit(_) => {},
            Expr::Ident(_) => {},
        }
    }
}

} // verus!
