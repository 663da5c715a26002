//! The crate driver's decisions and the per-file pipeline.
//!
//! Crates are processed in a topological walk: dependencies first, then
//! the crate's single source file through lex, parse, function
//! collection, identifier resolution, and origin analysis, threading the
//! function table across crates. The filesystem walk itself lives with
//! the caller; this module holds the decisions (which entry file, when a
//! dependency conflicts, when a binary may not be depended on) and the
//! whole pure pipeline from source text to diagnostics.

use vstd::prelude::*;
use vstd::slice::slice_to_vec;

use crate::error::{LexError, ParseError};
use crate::lexer::{initial_st, spec_lex_from, token_views, Lexer};
use crate::parser::{input_wf, sp_file, Parser, ParserSt};
use crate::semantics::error::{err_views, SemaError, SemaErrorV};
use crate::semantics::function::{sp_collect_file, FunctionAnalysis, FunctionData, FunctionDataV};
use crate::semantics::ident::{sp_ident_file, IdentAnalysis};
use crate::semantics::origin::{sp_origin_file, OriginAnalysis};
use crate::symbol::{SymbolTable, ViewClone};

verus! {

impl ViewClone for Vec<char> {
    fn view_clone(&self) -> (r: Self)
        ensures
            r@ == self@,
    {
        slice_to_vec(self.as_slice())
    }
}

/// A fatal front-end failure: the file could not be lexed or parsed.
#[derive(Debug)]
pub enum PipelineError {
    Lex(LexError),
    Parse(ParseError),
}

/// The view of a `PipelineError`.
#[verifier::ext_equal]
pub ghost enum PipelineErrorV {
    Lex(Seq<char>),
    Parse(Seq<char>),
}

impl View for PipelineError {
    type V = PipelineErrorV;

    open spec fn view(&self) -> PipelineErrorV {
        match self {
            PipelineError::Lex(e) => PipelineErrorV::Lex(e@),
            PipelineError::Parse(e) => PipelineErrorV::Parse(e@),
        }
    }
}

/// What the pipeline yields for one file: the extended function table and
/// the two diagnostic lists.
#[verifier::ext_equal]
pub ghost struct PipelineOutV {
    pub functions: Map<Seq<char>, FunctionDataV>,
    pub ident_errors: Seq<SemaErrorV>,
    pub origin_errors: Seq<SemaErrorV>,
}

/// The whole pipeline as a function of the source text, the crate name,
/// and the function table accumulated from earlier crates.
pub open spec fn sp_process(
    src: Seq<char>,
    crate_name: Seq<char>,
    functions: Map<Seq<char>, FunctionDataV>,
) -> Result<PipelineOutV, PipelineErrorV> {
    match spec_lex_from(src, initial_st()) {
        Err(m) => Err(PipelineErrorV::Lex(m)),
        Ok((toks, spans)) => match sp_file(
            toks,
            spans,
            ParserSt { index: 0, starts: seq![spans[0]] },
        ) {
            Err(m) => Err(PipelineErrorV::Parse(m)),
            Ok((filev, _)) => {
                let collected = sp_collect_file(filev, crate_name, functions);
                Ok(
                    PipelineOutV {
                        functions: collected,
                        ident_errors: sp_ident_file(filev, collected, crate_name),
                        origin_errors: sp_origin_file(filev, collected, crate_name),
                    },
                )
            },
        },
    }
}

/// Runs one source file through the whole front end: lex, parse, collect
/// functions, resolve identifiers, check origins. Returns exactly what
/// `sp_process` describes: the same input always yields the same
/// diagnostics in the same order.
pub fn process_source(
    source: &[char],
    crate_name: &[char],
    functions: &SymbolTable<FunctionData>,
) -> (r: Result<(SymbolTable<FunctionData>, Vec<SemaError>, Vec<SemaError>), PipelineError>)
    requires
        source@.len() < usize::MAX,
    ensures
        (match r {
            Ok(out) => sp_process(source@, crate_name@, functions@) matches Ok(outv)
                && out.0@ == outv.functions && err_views(out.1@) == outv.ident_errors && err_views(
                out.2@,
            ) == outv.origin_errors,
            Err(e) => sp_process(source@, crate_name@, functions@) matches Err(ev) && e@ == ev,
        }),
{
    // We'll begin by lexing the source
    let mut lexer = Lexer::new(source);
    let lexed = lexer.lex();
    let (tokens, spans) = match lexed {
        Ok(p) => p,
        Err(e) => {
            return Err(PipelineError::Lex(e));
        },
    };
    proof {
        assert(spec_lex_from(source@, initial_st()) matches Ok(lv) && token_views(tokens@)
            =~= lv.0 && spans@ == lv.1);
        assert(input_wf(token_views(tokens@), spans@));
    }
    // Then, we'll run the parser
    let mut parser = Parser::new(tokens.as_slice(), spans.as_slice());
    let parsed = parser.parse_file();
    let ast = match parsed {
        Ok(f) => f,
        Err(e) => {
            return Err(PipelineError::Parse(e));
        },
    };
    // Collect all function definitions, extending the accumulated table
    let mut collector = FunctionAnalysis::new(&ast, slice_to_vec(crate_name), functions);
    let collected = match collector.analyze() {
        Ok(t) => t,
        Err(_) => {
            proof {
                assert(false);
            }
            return Err(PipelineError::Lex(LexError::new(Vec::new())));
        },
    };
    // Make sure all identifiers are defined
    let mut idents = IdentAnalysis::new(&ast, &collected, slice_to_vec(crate_name));
    let ident_errors = match idents.analyze() {
        Ok(_) => Vec::new(),
        Err(es) => es,
    };
    proof {
        assert(err_views(ident_errors@) =~= sp_ident_file(
            crate::ast::item::file_view(ast),
            collected@,
            crate_name@,
        ));
    }
    // Now, let's run the origin analysis
    let mut origins = OriginAnalysis::new(&ast, &collected, slice_to_vec(crate_name));
    let origin_errors = match origins.analyze() {
        Ok(_) => Vec::new(),
        Err(es) => es,
    };
    proof {
        assert(err_views(origin_errors@) =~= sp_origin_file(
            crate::ast::item::file_view(ast),
            collected@,
            crate_name@,
        ));
    }
    Ok((collected, ident_errors, origin_errors))
}

/// Running the pipeline twice on the same input yields identical
/// diagnostics in the same order: the result is a function of the source
/// text, the crate name, and the incoming table alone.
pub proof fn lemma_pipeline_deterministic(
    src: Seq<char>,
    crate_name: Seq<char>,
    functions: Map<Seq<char>, FunctionDataV>,
    r1: Result<PipelineOutV, PipelineErrorV>,
    r2: Result<PipelineOutV, PipelineErrorV>,
)
    requires
        r1 == sp_process(src, crate_name, functions),
        r2 == sp_process(src, crate_name, functions),
    ensures
        r1 == r2,
{
}

/// Which entry file a crate has.
pub enum CrateShape {
    Binary,
    Library,
}

/// Why a crate cannot be processed at all.
pub enum ShapeError {
    /// Neither `main.inlet` nor `lib.inlet` exists.
    NoEntry,
    /// A binary crate stands as a dependency of another binary crate.
    BinaryDependency,
}

/// Decides a crate's shape from which entry files exist and whether a
/// binary was already seen: a crate must have an entry file, and a binary
/// may not serve as a dependency of another binary.
pub fn entry_shape(binary_exists: bool, binary: bool, library: bool) -> (r: Result<
    CrateShape,
    ShapeError,
>)
    ensures
        !binary && !library ==> r == Err::<CrateShape, ShapeError>(ShapeError::NoEntry),
        (binary || library) && binary_exists && binary ==> r == Err::<CrateShape, ShapeError>(
            ShapeError::BinaryDependency,
        ),
        binary && !binary_exists ==> r == Ok::<CrateShape, ShapeError>(CrateShape::Binary),
        !binary && library ==> r == Ok::<CrateShape, ShapeError>(CrateShape::Library),
{
    if !binary && !library {
        Err(ShapeError::NoEntry)
    } else if binary_exists && binary {
        Err(ShapeError::BinaryDependency)
    } else if binary {
        Ok(CrateShape::Binary)
    } else {
        Ok(CrateShape::Library)
    }
}

/// What registering a dependency found.
pub enum DepCheck {
    /// Not seen before; it was recorded and must be processed now.
    Fresh,
    /// Already processed at the same path.
    Seen,
    /// Already processed at a different path: fatal.
    Conflict,
}

/// The crate walk's state: the dependencies seen so far (name to path),
/// the accumulated function table, and whether a binary was seen.
pub struct ProcessContext {
    pub dependencies: SymbolTable<Vec<char>>,
    pub functions: SymbolTable<FunctionData>,
    pub binary_exists: bool,
}

impl ProcessContext {
    /// An empty walk: nothing seen, nothing collected.
    pub fn new() -> (r: Self)
        ensures
            r.dependencies@ == Map::<Seq<char>, Seq<char>>::empty(),
            r.functions@ == Map::<Seq<char>, FunctionDataV>::empty(),
            r.binary_exists == false,
    {
        ProcessContext {
            dependencies: SymbolTable::new(),
            functions: SymbolTable::new(),
            binary_exists: false,
        }
    }

    /// Registers one declared dependency: fresh names are recorded; a name
    /// seen at the same path is skipped; a name seen at a different path
    /// is a conflict the build aborts on.
    pub fn check_dependency(&mut self, name: Vec<char>, path: &Vec<char>) -> (r: DepCheck)
        ensures
            final(self).functions == old(self).functions,
            final(self).binary_exists == old(self).binary_exists,
            (if !old(self).dependencies@.contains_key(name@) {
                r == DepCheck::Fresh && final(self).dependencies@ == old(
                    self,
                ).dependencies@.insert(name@, path@)
            } else if old(self).dependencies@[name@] == path@ {
                r == DepCheck::Seen && final(self).dependencies@ == old(self).dependencies@
            } else {
                r == DepCheck::Conflict && final(self).dependencies@ == old(self).dependencies@
            }),
    {
        let existing = self.dependencies.find(name.as_slice());
        match existing {
            None => {
                self.dependencies.insert(name, path.view_clone());
                DepCheck::Fresh
            },
            Some(seen) => {
                if crate::chars::chars_eq(seen.as_slice(), path.as_slice()) {
                    DepCheck::Seen
                } else {
                    DepCheck::Conflict
                }
            },
        }
    }
}

} // verus!
