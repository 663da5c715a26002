//! A bare call node: a path with no arguments.

use vstd::prelude::*;

use crate::ast::ident::IdentV;
use crate::ast::path::{Path, PathV};
use crate::span::unknown_span;

verus! {

/// A call site identified by its path alone.
#[derive(Debug)]
pub struct Call {
    pub path: Path,
}

/// The view of a `Call`.
#[verifier::ext_equal]
pub ghost struct CallV {
    pub path: PathV,
}

impl View for Call {
    type V = CallV;

    open spec fn view(&self) -> CallV {
        CallV { path: self.path@ }
    }
}

impl Call {
    /// A call of the empty path.
    pub fn new() -> (r: Self)
        ensures
            r@ == (CallV {
                path: PathV { segments: Seq::<IdentV>::empty(), span: unknown_span() },
            }),
    {
        Call { path: Path::new() }
    }

    pub fn with_path(self, path: Path) -> (r: Self)
        ensures
            r@ == (CallV { path: path@ }),
    {
        Call { path }
    }
}

} // verus!
