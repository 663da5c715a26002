//! Origin analysis: every value must satisfy the origin declared at its
//! destination.
//!
//! Expression origins are computed purely: literals and binary
//! expressions are born in the current module prefix; a path carries the
//! origin its binding was given; a call carries the callee's declared
//! return origin, and each argument must satisfy the matching parameter's
//! declared origin. A `let` binds the computed origin; a `return` must
//! satisfy the function's declared return origin. Errors accumulate and
//! the pass runs to completion.

use vstd::prelude::*;
use vstd::slice::slice_to_vec;

use crate::ast::expr::{expr_span, expr_view, Expr, ExprV};
use crate::ast::file::{File, FileV};
use crate::ast::item::{item_view, FnParamV, Item, ItemFn, ItemV};
use crate::ast::literal::Lit;
use crate::ast::origin::{spec_origin_chars, spec_satisfies, Origin, OriginV};
use crate::ast::path::{path_from_chars, Path};
use crate::ast::stmt::{Stmt, StmtV};
use crate::chars::{chars_of, push_all};
use crate::semantics::error::{err_views, SemaError, SemaErrorV, SemaResult};
use crate::semantics::function::{canon, FunctionData, FunctionDataV, ParamDataV};
use crate::symbol::{SymbolTable, ViewClone};

verus! {

/// The origin a binding was given.
pub struct LocalData {
    pub origin: Origin,
}

/// The view of a `LocalData`.
#[verifier::ext_equal]
pub ghost struct LocalDataV {
    pub origin: OriginV,
}

impl View for LocalData {
    type V = LocalDataV;

    open spec fn view(&self) -> LocalDataV {
        LocalDataV { origin: self.origin@ }
    }
}

impl ViewClone for LocalData {
    fn view_clone(&self) -> (r: Self)
        ensures
            r@ == self@,
    {
        LocalData { origin: self.origin.clone() }
    }
}

/// The message for an identifier or callee without a definition.
#[verifier::opaque]
pub open spec fn no_definition_msg(name: Seq<char>) -> Seq<char> {
    "Could not find definition of identifier '"@ + name + "'"@
}

/// The message for an argument whose origin does not satisfy the
/// parameter's declared origin.
#[verifier::opaque]
pub open spec fn param_origin_msg(
    param: Seq<char>,
    callee: Seq<char>,
    expected: OriginV,
    actual: OriginV,
) -> Seq<char> {
    "Parameter '"@ + param + "' of function '"@ + callee + "' must have an origin of '"@
        + spec_origin_chars(expected) + "', but a value with origin '"@ + spec_origin_chars(actual)
        + "' was provided"@
}

/// The message for a return whose origin does not satisfy the declared
/// return origin.
#[verifier::opaque]
pub open spec fn return_origin_msg(name: Seq<char>, expected: OriginV, actual: OriginV) -> Seq<
    char,
> {
    "Function '"@ + name + "' should return a value with origin '"@ + spec_origin_chars(expected)
        + "', but a value with origin '"@ + spec_origin_chars(actual) + "' is returned instead"@
}

/// The origin a fresh value takes: an exact origin at the current module
/// prefix.
pub open spec fn fresh_origin(prefix: Seq<char>) -> OriginV {
    OriginV::Exact(path_from_chars(prefix))
}

/// The origin of one expression, or the errors computing it. Literals and
/// binary expressions are fresh in the prefix (their operands contribute
/// nothing); a path carries its binding's origin; a call carries the
/// callee's declared return origin, each argument checked against the
/// matching parameter.
pub open spec fn sp_expr_origin(
    prefix: Seq<char>,
    functions: Map<Seq<char>, FunctionDataV>,
    locals: Map<Seq<char>, LocalDataV>,
    e: ExprV,
) -> Result<OriginV, Seq<SemaErrorV>>
    decreases e, 0int,
{
    match e {
        ExprV::Bin(_) => Ok(fresh_origin(prefix)),
        ExprV::Lit(l) => match l {
            Lit::NumLit(_) => Ok(fresh_origin(prefix)),
            Lit::UnitLit(_) => Ok(OriginV::Universal),
        },
        ExprV::Ident(_) => Ok(OriginV::Universal),
        ExprV::Path(p) => if locals.contains_key(p.str()) {
            Ok(locals[p.str()].origin)
        } else {
            Err(seq![SemaErrorV { message: no_definition_msg(p.str()), span: p.span }])
        },
        ExprV::FunCall(c) => if functions.contains_key(canon(prefix, c.path.str())) {
            let d = functions[canon(prefix, c.path.str())];
            let errs = sp_args_origin(prefix, functions, locals, c.path.str(), d.params, c.args, 0);
            if errs.len() == 0 {
                Ok(d.ret_origin)
            } else {
                Err(errs)
            }
        } else {
            Err(seq![SemaErrorV { message: no_definition_msg(c.path.str()), span: c.span }])
        },
    }
}

/// The errors of the positional parameter/argument pairs from index `i`
/// on; pairing stops at the shorter list.
pub open spec fn sp_args_origin(
    prefix: Seq<char>,
    functions: Map<Seq<char>, FunctionDataV>,
    locals: Map<Seq<char>, LocalDataV>,
    callee: Seq<char>,
    params: Seq<ParamDataV>,
    args: Seq<ExprV>,
    i: int,
) -> Seq<SemaErrorV>
    decreases args, params.len() - i,
{
    if 0 <= i < params.len() && i < args.len() {
        let own = match sp_expr_origin(prefix, functions, locals, args[i]) {
            Ok(o) => if spec_satisfies(o, params[i].origin) {
                Seq::empty()
            } else {
                seq![
                    SemaErrorV {
                        message: param_origin_msg(params[i].name, callee, params[i].origin, o),
                        span: expr_span(args[i]),
                    },
                ]
            },
            Err(es) => es,
        };
        own + sp_args_origin(prefix, functions, locals, callee, params, args, i + 1)
    } else {
        Seq::empty()
    }
}

/// The locals holding the parameters from index `i` on, later bindings
/// overriding earlier ones.
pub open spec fn sp_param_locals(
    params: Seq<FnParamV>,
    i: int,
    acc: Map<Seq<char>, LocalDataV>,
) -> Map<Seq<char>, LocalDataV>
    decreases params.len() - i,
{
    if 0 <= i < params.len() {
        sp_param_locals(params, i + 1, acc.insert(params[i].ident.raw, LocalDataV { origin: params[i].origin }))
    } else {
        acc
    }
}

/// The errors of the statements from index `i` on, threading the locals:
/// a `let` binds the computed origin; a failed computation leaves the
/// name unbound; a `return` must satisfy the declared return origin.
pub open spec fn sp_origin_stmts(
    prefix: Seq<char>,
    functions: Map<Seq<char>, FunctionDataV>,
    locals: Map<Seq<char>, LocalDataV>,
    cur_func: Seq<char>,
    ret: OriginV,
    stmts: Seq<StmtV>,
    i: int,
) -> Seq<SemaErrorV>
    decreases stmts.len() - i,
{
    if 0 <= i < stmts.len() {
        match stmts[i] {
            StmtV::Local(l) => match sp_expr_origin(prefix, functions, locals, l.expr) {
                Ok(o) => sp_origin_stmts(
                    prefix,
                    functions,
                    locals.insert(l.ident.raw, LocalDataV { origin: o }),
                    cur_func,
                    ret,
                    stmts,
                    i + 1,
                ),
                Err(es) => es + sp_origin_stmts(prefix, functions, locals, cur_func, ret, stmts, i + 1),
            },
            StmtV::Return(r) => {
                let own = match sp_expr_origin(prefix, functions, locals, r.expr) {
                    Ok(o) => if spec_satisfies(o, ret) {
                        Seq::empty()
                    } else {
                        seq![
                            SemaErrorV {
                                message: return_origin_msg(cur_func, ret, o),
                                span: r.span,
                            },
                        ]
                    },
                    Err(es) => es,
                };
                own + sp_origin_stmts(prefix, functions, locals, cur_func, ret, stmts, i + 1)
            },
            StmtV::Claim(_) => sp_origin_stmts(prefix, functions, locals, cur_func, ret, stmts, i + 1),
        }
    } else {
        Seq::empty()
    }
}

/// The errors of one item: a function's body is checked under its
/// parameters' origins; a module's file under the extended prefix.
pub open spec fn sp_origin_item(
    item: ItemV,
    functions: Map<Seq<char>, FunctionDataV>,
    prefix: Seq<char>,
) -> Seq<SemaErrorV>
    decreases item, 0int,
{
    match item {
        ItemV::ItemFn(f) => sp_origin_stmts(
            prefix,
            functions,
            sp_param_locals(f.params, 0, Map::empty()),
            f.ident.raw,
            f.ret_origin,
            f.body.stmts,
            0,
        ),
        ItemV::ItemMod(m) => sp_origin_file(m.file, functions, canon(prefix, m.ident.raw)),
    }
}

/// The errors of the items from index `i` on.
pub open spec fn sp_origin_items(
    items: Seq<ItemV>,
    functions: Map<Seq<char>, FunctionDataV>,
    prefix: Seq<char>,
    i: int,
) -> Seq<SemaErrorV>
    decreases items, items.len() - i,
{
    if 0 <= i < items.len() {
        sp_origin_item(items[i], functions, prefix) + sp_origin_items(items, functions, prefix, i + 1)
    } else {
        Seq::empty()
    }
}

/// The errors of a whole file under a module prefix.
pub open spec fn sp_origin_file(
    f: FileV,
    functions: Map<Seq<char>, FunctionDataV>,
    prefix: Seq<char>,
) -> Seq<SemaErrorV>
    decreases f, 0int,
{
    sp_origin_items(f.items, functions, prefix, 0)
}

/// The origin-analysis pass over one file.
pub struct OriginAnalysis<'a> {
    pub file: &'a File,
    pub functions: &'a SymbolTable<FunctionData>,
    pub locals: SymbolTable<LocalData>,
    pub cur_func: Vec<char>,
    pub ret_origin: Origin,
    pub prefix: Vec<char>,
    pub errors: Vec<SemaError>,
}

/// Computes the origin of one expression against the ambient prefix,
/// function table and locals.
pub struct ExprVisitor<'a> {
    pub prefix: &'a [char],
    pub functions: &'a SymbolTable<FunctionData>,
    pub locals: &'a SymbolTable<LocalData>,
}

impl<'a> ExprVisitor<'a> {
    /// The origin of `expr`, or every error found computing it.
    pub fn visit(
        prefix: &'a [char],
        functions: &'a SymbolTable<FunctionData>,
        locals: &'a SymbolTable<LocalData>,
        expr: &Expr,
    ) -> (r: SemaResult<Origin>)
        ensures
            (match r {
                Ok(o) => sp_expr_origin(prefix@, functions@, locals@, expr_view(*expr))
                    == Ok::<OriginV, Seq<SemaErrorV>>(o@),
                Err(es) => sp_expr_origin(prefix@, functions@, locals@, expr_view(*expr))
                    matches Err(esv) && err_views(es@) == esv,
            }),
        decreases *expr, 2int,
    {
        let visitor = ExprVisitor { prefix, functions, locals };
        visitor.visit_expr(expr)
    }

    /// The origin of one expression.
    fn visit_expr(&self, node: &Expr) -> (r: SemaResult<Origin>)
        ensures
            (match r {
                Ok(o) => sp_expr_origin(self.prefix@, self.functions@, self.locals@, expr_view(*node))
                    == Ok::<OriginV, Seq<SemaErrorV>>(o@),
                Err(es) => sp_expr_origin(
                    self.prefix@,
                    self.functions@,
                    self.locals@,
                    expr_view(*node),
                ) matches Err(esv) && err_views(es@) == esv,
            }),
        decreases *node, 0int,
    {
        match node {
            Expr::Bin(_) => {
                // Any binary expression that occurs in origin `o` will have that origin
                Ok(Origin::Exact(Path::from(self.prefix)))
            },
            Expr::Lit(l) => match l {
                Lit::NumLit(_) => {
                    // Any literal that occurs in origin `o` will have that origin
                    Ok(Origin::Exact(Path::from(self.prefix)))
                },
                Lit::UnitLit(_) => Ok(Origin::Universal),
            },
            Expr::Ident(_) => Ok(Origin::Universal),
            Expr::Path(p) => {
                let name = p.to_chars();
                match self.locals.find(name.as_slice()) {
                    Some(data) => Ok(data.origin),
                    None => {
                        let mut m = chars_of("Could not find definition of identifier '");
                        push_all(&mut m, name.as_slice());
                        let close = chars_of("'");
                        push_all(&mut m, close.as_slice());
                        proof {
                            reveal(no_definition_msg);
                            assert(m@ =~= no_definition_msg(p@.str()));
                        }
                        let mut es: Vec<SemaError> = Vec::new();
                        es.push(SemaError::new().with_message(m).with_span(p.span));
                        proof {
                            assert(err_views(es@) =~= seq![
                                SemaErrorV { message: no_definition_msg(p@.str()), span: p.span },
                            ]);
                        }
                        Err(es)
                    },
                }
            },
            Expr::FunCall(c) => self.visit_fn_call(c),
        }
    }

    /// The origin of a call: the callee's declared return origin, with
    /// every argument checked against the matching parameter.
    #[verifier::loop_isolation(false)]
    fn visit_fn_call(&self, node: &crate::ast::expr::FnCall) -> (r: SemaResult<Origin>)
        ensures
            (match r {
                Ok(o) => sp_expr_origin(
                    self.prefix@,
                    self.functions@,
                    self.locals@,
                    ExprV::FunCall(node@),
                ) == Ok::<OriginV, Seq<SemaErrorV>>(o@),
                Err(es) => sp_expr_origin(
                    self.prefix@,
                    self.functions@,
                    self.locals@,
                    ExprV::FunCall(node@),
                ) matches Err(esv) && err_views(es@) == esv,
            }),
        decreases *node, 1int,
    {
        let name = node.path.to_chars();
        let mut key = slice_to_vec(self.prefix);
        let sep = chars_of("::");
        push_all(&mut key, sep.as_slice());
        push_all(&mut key, name.as_slice());
        proof {
            reveal_strlit("::");
            assert("::"@ =~= crate::ast::path::spec_sep());
            assert(key@ =~= canon(self.prefix@, node.path@.str()));
        }
        match self.functions.find(key.as_slice()) {
            Some(data) => {
                let ghost calleev = node.path@.str();
                let ghost paramsv = data@.params;
                let ghost argsv = node@.args;
                let mut errs: Vec<SemaError> = Vec::new();
                let n = if data.params.len() < node.args.len() {
                    data.params.len()
                } else {
                    node.args.len()
                };
                proof {
                    crate::ast::expr::lemma_expr_view_seq(node.args@);
                }
                let mut i: usize = 0;
                while i < n
                    invariant
                        n == (if paramsv.len() < argsv.len() {
                            paramsv.len()
                        } else {
                            argsv.len()
                        }),
                        i <= n,
                        argsv.len() == node.args@.len(),
                        paramsv == data@.params,
                        paramsv.len() == data.params@.len(),
                        forall|j: int|
                            0 <= j < argsv.len() ==> argsv[j] == expr_view(
                                #[trigger] node.args@[j],
                            ),
                        forall|j: int|
                            0 <= j < paramsv.len() ==> paramsv[j] == (
                            #[trigger] data.params@[j])@,
                        err_views(errs@) + sp_args_origin(
                            self.prefix@,
                            self.functions@,
                            self.locals@,
                            calleev,
                            paramsv,
                            argsv,
                            i as int,
                        ) == sp_args_origin(
                            self.prefix@,
                            self.functions@,
                            self.locals@,
                            calleev,
                            paramsv,
                            argsv,
                            0,
                        ),
                    decreases n - i,
                {
                    let ghost errs_head = errs@;
                    proof {
                        assert(decreases_to!(*node => node.args@[i as int]));
                    }
                    let actual = Self::visit(self.prefix, self.functions, self.locals, &node.args[i]);
                    match actual {
                        Ok(origin) => {
                            if !origin.satisfies(&data.params[i].origin) {
                                let mut m = chars_of("Parameter '");
                                push_all(&mut m, data.params[i].name.as_slice());
                                let mid = chars_of("' of function '");
                                push_all(&mut m, mid.as_slice());
                                push_all(&mut m, name.as_slice());
                                let mid2 = chars_of("' must have an origin of '");
                                push_all(&mut m, mid2.as_slice());
                                let exp = data.params[i].origin.to_chars();
                                push_all(&mut m, exp.as_slice());
                                let mid3 = chars_of("', but a value with origin '");
                                push_all(&mut m, mid3.as_slice());
                                let act = origin.to_chars();
                                push_all(&mut m, act.as_slice());
                                let tail = chars_of("' was provided");
                                push_all(&mut m, tail.as_slice());
                                proof {
                                    reveal(param_origin_msg);
                                    assert(m@ =~= param_origin_msg(
                                        paramsv[i as int].name,
                                        calleev,
                                        paramsv[i as int].origin,
                                        origin@,
                                    ));
                                }
                                let sp = node.args[i].span();
                                errs.push(SemaError::new().with_message(m).with_span(sp));
                                proof {
                                    let own = seq![
                                        SemaErrorV {
                                            message: param_origin_msg(
                                                paramsv[i as int].name,
                                                calleev,
                                                paramsv[i as int].origin,
                                                origin@,
                                            ),
                                            span: expr_span(argsv[i as int]),
                                        },
                                    ];
                                    assert(err_views(errs@) =~= err_views(errs_head) + own);
                                    assert((err_views(errs_head) + own) + sp_args_origin(
                                        self.prefix@,
                                        self.functions@,
                                        self.locals@,
                                        calleev,
                                        paramsv,
                                        argsv,
                                        i + 1,
                                    ) =~= err_views(errs_head) + (own + sp_args_origin(
                                        self.prefix@,
                                        self.functions@,
                                        self.locals@,
                                        calleev,
                                        paramsv,
                                        argsv,
                                        i + 1,
                                    )));
                                }
                            }
                        },
                        Err(es) => {
                            let ghost esv = es@;
                            let m = es.len();
                            let mut k: usize = 0;
                            let mut moved = es;
                            let ghost own = err_views(esv);
                            while k < m
                                invariant
                                    m == esv.len(),
                                    k <= m,
                                    moved@ == esv,
                                    errs@.len() == errs_head.len() + k,
                                    forall|j: int|
                                        0 <= j < errs_head.len() ==> (#[trigger] errs@[j])
                                            == errs_head[j],
                                    forall|j: int|
                                        errs_head.len() <= j < errs@.len() ==> (#[trigger] errs@[j])@
                                            == esv[j - errs_head.len()]@,
                                decreases m - k,
                            {
                                errs.push(moved[k].clone());
                                k += 1;
                            }
                            proof {
                                assert(err_views(errs@) =~= err_views(errs_head) + own);
                                assert((err_views(errs_head) + own) + sp_args_origin(
                                    self.prefix@,
                                    self.functions@,
                                    self.locals@,
                                    calleev,
                                    paramsv,
                                    argsv,
                                    i + 1,
                                ) =~= err_views(errs_head) + (own + sp_args_origin(
                                    self.prefix@,
                                    self.functions@,
                                    self.locals@,
                                    calleev,
                                    paramsv,
                                    argsv,
                                    i + 1,
                                )));
                            }
                        },
                    }
                    i += 1;
                }
                if errs.len() == 0 {
                    proof {
                        assert(sp_args_origin(
                            self.prefix@,
                            self.functions@,
                            self.locals@,
                            calleev,
                            paramsv,
                            argsv,
                            0,
                        ) =~= Seq::<SemaErrorV>::empty());
                    }
                    Ok(data.ret_origin)
                } else {
                    Err(errs)
                }
            },
            None => {
                let mut m = chars_of("Could not find definition of identifier '");
                push_all(&mut m, name.as_slice());
                let close = chars_of("'");
                push_all(&mut m, close.as_slice());
                proof {
                    reveal(no_definition_msg);
                    assert(m@ =~= no_definition_msg(node.path@.str()));
                }
                let mut es: Vec<SemaError> = Vec::new();
                es.push(SemaError::new().with_message(m).with_span(node.span));
                proof {
                    assert(err_views(es@) =~= seq![
                        SemaErrorV {
                            message: no_definition_msg(node.path@.str()),
                            span: node.span,
                        },
                    ]);
                }
                Err(es)
            },
        }
    }
}

impl<'a> OriginAnalysis<'a> {
    /// A pass over `file` against the collected function table, with the
    /// crate's canonical prefix.
    pub fn new(file: &'a File, functions: &'a SymbolTable<FunctionData>, prefix: Vec<char>) -> (r:
        OriginAnalysis<'a>)
        ensures
            r.file == file,
            r.functions == functions,
            r.prefix@ == prefix@,
            r.locals@ == Map::<Seq<char>, LocalDataV>::empty(),
            r.locals.parent_map() == Map::<Seq<char>, LocalDataV>::empty(),
            r.errors@ == Seq::<SemaError>::empty(),
    {
        OriginAnalysis {
            file,
            functions,
            locals: SymbolTable::new(),
            cur_func: Vec::new(),
            ret_origin: Origin::Universal,
            prefix,
            errors: Vec::new(),
        }
    }

    /// Runs the pass: `Ok` exactly when every value in the file satisfies
    /// the origin declared at its destination; otherwise every
    /// accumulated error, in visit order.
    pub fn analyze(&mut self) -> (r: SemaResult<()>)
        requires
            old(self).locals@ == Map::<Seq<char>, LocalDataV>::empty(),
            old(self).locals.parent_map() == Map::<Seq<char>, LocalDataV>::empty(),
        ensures
            ({
                let errs = sp_origin_file(
                    crate::ast::item::file_view(*old(self).file),
                    old(self).functions@,
                    old(self).prefix@,
                );
                match r {
                    Ok(_) => errs.len() == 0 && old(self).errors@.len() == 0,
                    Err(es) => err_views(es@) == err_views(old(self).errors@) + errs && es@.len()
                        > 0,
                }
            }),
    {
        let f = self.file;
        self.visit_file(f);
        if self.errors.len() > 0 {
            let mut out: Vec<SemaError> = Vec::new();
            let n = self.errors.len();
            let mut i: usize = 0;
            while i < n
                invariant
                    n == self.errors@.len(),
                    i <= n,
                    out@.len() == i,
                    forall|j: int| 0 <= j < i ==> (#[trigger] out@[j])@ == self.errors@[j]@,
                decreases n - i,
            {
                out.push(self.errors[i].clone());
                i += 1;
            }
            proof {
                assert(err_views(out@) =~= err_views(self.errors@));
            }
            return Err(out);
        }
        proof {
            assert(err_views(self.errors@) =~= Seq::<SemaErrorV>::empty());
        }
        Ok(())
    }

    /// Checks every item of `node`.
    pub fn visit_file(&mut self, node: &File)
        requires
            old(self).locals@ == Map::<Seq<char>, LocalDataV>::empty(),
            old(self).locals.parent_map() == Map::<Seq<char>, LocalDataV>::empty(),
        ensures
            final(self).file == old(self).file,
            final(self).functions == old(self).functions,
            final(self).prefix@ == old(self).prefix@,
            final(self).locals@ == old(self).locals@,
            final(self).locals.parent_map() == old(self).locals.parent_map(),
            err_views(final(self).errors@) == err_views(old(self).errors@) + sp_origin_file(
                crate::ast::item::file_view(*node),
                old(self).functions@,
                old(self).prefix@,
            ),
        decreases *node, 1int,
    {
        let ghost fv = crate::ast::item::file_view(*node);
        proof {
            crate::ast::item::lemma_item_view_seq(node.items@);
        }
        let n = node.items.len();
        let mut i: usize = 0;
        while i < n
            invariant
                n == node.items@.len(),
                i <= n,
                fv == crate::ast::item::file_view(*node),
                fv.items.len() == n,
                forall|j: int|
                    0 <= j < n ==> fv.items[j] == item_view(#[trigger] node.items@[j]),
                self.file == old(self).file,
                self.functions == old(self).functions,
                self.prefix@ == old(self).prefix@,
                self.locals@ == old(self).locals@,
                self.locals.parent_map() == old(self).locals.parent_map(),
                old(self).locals@ == Map::<Seq<char>, LocalDataV>::empty(),
                old(self).locals.parent_map() == Map::<Seq<char>, LocalDataV>::empty(),
                err_views(self.errors@) + sp_origin_items(
                    fv.items,
                    old(self).functions@,
                    old(self).prefix@,
                    i as int,
                ) == err_views(old(self).errors@) + sp_origin_items(
                    fv.items,
                    old(self).functions@,
                    old(self).prefix@,
                    0,
                ),
            decreases n - i,
        {
            let ghost errs_head = self.errors@;
            self.visit_item(&node.items[i]);
            proof {
                assert((err_views(errs_head) + sp_origin_item(
                    fv.items[i as int],
                    old(self).functions@,
                    old(self).prefix@,
                )) + sp_origin_items(fv.items, old(self).functions@, old(self).prefix@, i + 1)
                    =~= err_views(errs_head) + (sp_origin_item(
                    fv.items[i as int],
                    old(self).functions@,
                    old(self).prefix@,
                ) + sp_origin_items(fv.items, old(self).functions@, old(self).prefix@, i + 1)));
            }
            i += 1;
        }
    }

    /// Checks one item.
    pub fn visit_item(&mut self, node: &Item)
        requires
            old(self).locals@ == Map::<Seq<char>, LocalDataV>::empty(),
            old(self).locals.parent_map() == Map::<Seq<char>, LocalDataV>::empty(),
        ensures
            final(self).file == old(self).file,
            final(self).functions == old(self).functions,
            final(self).prefix@ == old(self).prefix@,
            final(self).locals@ == old(self).locals@,
            final(self).locals.parent_map() == old(self).locals.parent_map(),
            err_views(final(self).errors@) == err_views(old(self).errors@) + sp_origin_item(
                item_view(*node),
                old(self).functions@,
                old(self).prefix@,
            ),
        decreases *node, 0int,
    {
        match node {
            Item::ItemFn(f) => self.visit_item_fn(f),
            Item::ItemMod(m) => {
                let saved = slice_to_vec(self.prefix.as_slice());
                let sep = chars_of("::");
                push_all(&mut self.prefix, sep.as_slice());
                push_all(&mut self.prefix, m.ident.raw.as_slice());
                proof {
                    reveal_strlit("::");
                    assert("::"@ =~= crate::ast::path::spec_sep());
                    assert(self.prefix@ =~= canon(old(self).prefix@, m@.ident.raw));
                }
                let file = &m.file;
                self.visit_file(file);
                self.prefix = saved;
            },
        }
    }

    /// Checks one function: parameters enter the locals with their
    /// declared origins, the body is walked, and the locals are cleared.
    pub fn visit_item_fn(&mut self, node: &ItemFn)
        requires
            old(self).locals@ == Map::<Seq<char>, LocalDataV>::empty(),
            old(self).locals.parent_map() == Map::<Seq<char>, LocalDataV>::empty(),
        ensures
            final(self).file == old(self).file,
            final(self).functions == old(self).functions,
            final(self).prefix@ == old(self).prefix@,
            final(self).locals@ == old(self).locals@,
            final(self).locals.parent_map() == old(self).locals.parent_map(),
            err_views(final(self).errors@) == err_views(old(self).errors@) + sp_origin_item(
                ItemV::ItemFn(node@),
                old(self).functions@,
                old(self).prefix@,
            ),
    {
        let ghost paramsv = node@.params;
        let n = node.params.len();
        let mut i: usize = 0;
        while i < n
            invariant
                n == node.params@.len(),
                i <= n,
                paramsv == node@.params,
                paramsv.len() == n,
                forall|j: int| 0 <= j < n ==> paramsv[j] == (#[trigger] node.params@[j])@,
                self.file == old(self).file,
                self.functions == old(self).functions,
                self.prefix@ == old(self).prefix@,
                self.errors@ == old(self).errors@,
                self.cur_func == old(self).cur_func,
                self.ret_origin == old(self).ret_origin,
                self.locals.parent_map() == old(self).locals.parent_map(),
                old(self).locals.parent_map() == Map::<Seq<char>, LocalDataV>::empty(),
                sp_param_locals(paramsv, i as int, self.locals@) == sp_param_locals(
                    paramsv,
                    0,
                    old(self).locals@,
                ),
            decreases n - i,
        {
            let param = &node.params[i];
            self.locals.insert(
                slice_to_vec(param.ident.raw.as_slice()),
                LocalData { origin: param.origin.clone() },
            );
            i += 1;
        }
        self.cur_func = slice_to_vec(node.ident.raw.as_slice());
        self.ret_origin = node.ret_origin.clone();
        let body = &node.body;
        self.visit_stmts(body);
        self.ret_origin = Origin::Universal;
        self.locals.clear();
    }

    /// Checks the statements of a function body in order, binding each
    /// successful `let` and checking each `return`.
    fn visit_stmts(&mut self, body: &crate::ast::block::Block)
        ensures
            final(self).file == old(self).file,
            final(self).functions == old(self).functions,
            final(self).prefix@ == old(self).prefix@,
            final(self).locals.parent_map() == old(self).locals.parent_map(),
            err_views(final(self).errors@) == err_views(old(self).errors@) + sp_origin_stmts(
                old(self).prefix@,
                old(self).functions@,
                old(self).locals@,
                old(self).cur_func@,
                old(self).ret_origin@,
                body@.stmts,
                0,
            ),
    {
        let n = body.stmts.len();
        let ghost stmtsv = body@.stmts;
        let mut i: usize = 0;
        while i < n
            invariant
                n == body.stmts@.len(),
                i <= n,
                stmtsv == body@.stmts,
                stmtsv.len() == n,
                forall|j: int| 0 <= j < n ==> stmtsv[j] == (#[trigger] body.stmts@[j])@,
                self.file == old(self).file,
                self.functions == old(self).functions,
                self.prefix@ == old(self).prefix@,
                self.cur_func == old(self).cur_func,
                self.ret_origin == old(self).ret_origin,
                self.locals.parent_map() == old(self).locals.parent_map(),
                err_views(self.errors@) + sp_origin_stmts(
                    old(self).prefix@,
                    old(self).functions@,
                    self.locals@,
                    old(self).cur_func@,
                    old(self).ret_origin@,
                    stmtsv,
                    i as int,
                ) == err_views(old(self).errors@) + sp_origin_stmts(
                    old(self).prefix@,
                    old(self).functions@,
                    old(self).locals@,
                    old(self).cur_func@,
                    old(self).ret_origin@,
                    stmtsv,
                    0,
                ),
            decreases n - i,
        {
            let ghost errs_head = self.errors@;
            let ghost locals_head = self.locals@;
            match &body.stmts[i] {
                Stmt::Local(l) => self.visit_local(l),
                Stmt::Return(r) => self.visit_return(r),
                Stmt::Claim(_) => {},
            }
            proof {
                let rest = sp_origin_stmts(
                    old(self).prefix@,
                    old(self).functions@,
                    self.locals@,
                    old(self).cur_func@,
                    old(self).ret_origin@,
                    stmtsv,
                    i + 1,
                );
                if err_views(self.errors@) != err_views(errs_head) {
                    let own = err_views(self.errors@).skip(errs_head.len() as int);
                    assert(err_views(self.errors@) =~= err_views(errs_head) + own);
                    assert((err_views(errs_head) + own) + rest =~= err_views(errs_head) + (own
                        + rest));
                }
            }
            i += 1;
        }
    }

    /// Binds one `let` to its expression's origin; on failure the errors
    /// accumulate and the name stays unbound.
    pub fn visit_local(&mut self, node: &crate::ast::stmt::Local)
        ensures
            final(self).file == old(self).file,
            final(self).functions == old(self).functions,
            final(self).prefix@ == old(self).prefix@,
            final(self).cur_func == old(self).cur_func,
            final(self).ret_origin == old(self).ret_origin,
            final(self).locals.parent_map() == old(self).locals.parent_map(),
            (match sp_expr_origin(
                old(self).prefix@,
                old(self).functions@,
                old(self).locals@,
                expr_view(node.expr),
            ) {
                Ok(o) => final(self).locals@ == old(self).locals@.insert(
                    node@.ident.raw,
                    LocalDataV { origin: o },
                ) && final(self).errors@ == old(self).errors@,
                Err(es) => final(self).locals@ == old(self).locals@ && err_views(
                    final(self).errors@,
                ) == err_views(old(self).errors@) + es,
            }),
    {
        let origin = ExprVisitor::visit(
            self.prefix.as_slice(),
            self.functions,
            &self.locals,
            &node.expr,
        );
        match origin {
            Ok(origin) => {
                self.locals.insert(
                    slice_to_vec(node.ident.raw.as_slice()),
                    LocalData { origin },
                );
            },
            Err(errs) => {
                let ghost errs_head = self.errors@;
                let ghost esv = errs@;
                let m = errs.len();
                let mut k: usize = 0;
                while k < m
                    invariant
                        m == esv.len(),
                        k <= m,
                        errs@ == esv,
                        self.file == old(self).file,
                        self.functions == old(self).functions,
                        self.prefix@ == old(self).prefix@,
                        self.cur_func == old(self).cur_func,
                        self.ret_origin == old(self).ret_origin,
                        self.locals == old(self).locals,
                        self.errors@.len() == errs_head.len() + k,
                        forall|j: int|
                            0 <= j < errs_head.len() ==> (#[trigger] self.errors@[j])
                                == errs_head[j],
                        forall|j: int|
                            errs_head.len() <= j < self.errors@.len() ==> (
                            #[trigger] self.errors@[j])@ == esv[j - errs_head.len()]@,
                    decreases m - k,
                {
                    self.errors.push(errs[k].clone());
                    k += 1;
                }
                proof {
                    assert(err_views(self.errors@) =~= err_views(errs_head) + err_views(esv));
                }
            },
        }
    }

    /// Checks one `return` against the declared return origin.
    pub fn visit_return(&mut self, node: &crate::ast::stmt::Return)
        ensures
            final(self).file == old(self).file,
            final(self).functions == old(self).functions,
            final(self).prefix@ == old(self).prefix@,
            final(self).cur_func == old(self).cur_func,
            final(self).ret_origin == old(self).ret_origin,
            final(self).locals@ == old(self).locals@,
            final(self).locals.parent_map() == old(self).locals.parent_map(),
            err_views(final(self).errors@) == err_views(old(self).errors@) + (
            match sp_expr_origin(
                old(self).prefix@,
                old(self).functions@,
                old(self).locals@,
                expr_view(node.expr),
            ) {
                Ok(o) => if spec_satisfies(o, old(self).ret_origin@) {
                    Seq::<SemaErrorV>::empty()
                } else {
                    seq![
                        SemaErrorV {
                            message: return_origin_msg(
                                old(self).cur_func@,
                                old(self).ret_origin@,
                                o,
                            ),
                            span: node@.span,
                        },
                    ]
                },
                Err(es) => es,
            }),
    {
        let ret_origin = ExprVisitor::visit(
            self.prefix.as_slice(),
            self.functions,
            &self.locals,
            &node.expr,
        );
        match ret_origin {
            Ok(ret_origin) => {
                if !ret_origin.satisfies(&self.ret_origin) {
                    let mut m = chars_of("Function '");
                    push_all(&mut m, self.cur_func.as_slice());
                    let mid = chars_of("' should return a value with origin '");
                    push_all(&mut m, mid.as_slice());
                    let exp = self.ret_origin.to_chars();
                    push_all(&mut m, exp.as_slice());
                    let mid2 = chars_of("', but a value with origin '");
                    push_all(&mut m, mid2.as_slice());
                    let act = ret_origin.to_chars();
                    push_all(&mut m, act.as_slice());
                    let tail = chars_of("' is returned instead");
                    push_all(&mut m, tail.as_slice());
                    proof {
                        reveal(return_origin_msg);
                        assert(m@ =~= return_origin_msg(
                            old(self).cur_func@,
                            old(self).ret_origin@,
                            ret_origin@,
                        ));
                    }
                    let ghost errs_head = self.errors@;
                    self.errors.push(SemaError::new().with_message(m).with_span(node.span));
                    proof {
                        assert(err_views(self.errors@) =~= err_views(errs_head) + seq![
                            SemaErrorV {
                                message: return_origin_msg(
                                    old(self).cur_func@,
                                    old(self).ret_origin@,
                                    ret_origin@,
                                ),
                                span: node@.span,
                            },
                        ]);
                    }
                } else {
                    proof {
                        assert(err_views(self.errors@) =~= err_views(old(self).errors@)
                            + Seq::<SemaErrorV>::empty());
                    }
                }
            },
            Err(errs) => {
                let ghost errs_head = self.errors@;
                let ghost esv = errs@;
                let m = errs.len();
                let mut k: usize = 0;
                while k < m
                    invariant
                        m == esv.len(),
                        k <= m,
                        errs@ == esv,
                        self.file == old(self).file,
                        self.functions == old(self).functions,
                        self.prefix@ == old(self).prefix@,
                        self.cur_func == old(self).cur_func,
                        self.ret_origin == old(self).ret_origin,
                        self.locals == old(self).locals,
                        self.errors@.len() == errs_head.len() + k,
                        forall|j: int|
                            0 <= j < errs_head.len() ==> (#[trigger] self.errors@[j])
                                == errs_head[j],
                        forall|j: int|
                            errs_head.len() <= j < self.errors@.len() ==> (
                            #[trigger] self.errors@[j])@ == esv[j - errs_head.len()]@,
                    decreases m - k,
                {
                    self.errors.push(errs[k].clone());
                    k += 1;
                }
                proof {
                    assert(err_views(self.errors@) =~= err_views(errs_head) + err_views(esv));
                }
            },
        }
    }
}

} // verus!
