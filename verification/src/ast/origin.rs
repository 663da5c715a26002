//! Origins and the satisfies relation.
//!
//! An origin is the compile-time tag on a value naming the lexical module
//! path that produced it: `Universal` (written `*`) or `Exact(path)`.
//! `satisfies` decides whether a value of one origin is acceptable at a
//! position of another; it is the central relation of the origin analysis.

use vstd::prelude::*;

use crate::ast::path::{Path, PathV};
use crate::chars::{chars_eq, starts_with_chars};

verus! {

/// The origin of a value: from anywhere, or from one exact module path.
#[derive(Debug)]
pub enum Origin {
    Universal,
    Exact(Path),
}

/// The view of an `Origin`.
#[verifier::ext_equal]
pub ghost enum OriginV {
    Universal,
    Exact(PathV),
}

impl View for Origin {
    type V = OriginV;

    open spec fn view(&self) -> OriginV {
        match self {
            Origin::Universal => OriginV::Universal,
            Origin::Exact(p) => OriginV::Exact(p@),
        }
    }
}

/// Equality of origins: `Universal` equals only `Universal`; exact origins
/// are equal when their canonical strings are equal.
pub open spec fn spec_origin_eq(a: OriginV, b: OriginV) -> bool {
    match a {
        OriginV::Universal => b is Universal,
        OriginV::Exact(pa) => match b {
            OriginV::Universal => false,
            OriginV::Exact(pb) => pa.str() == pb.str(),
        },
    }
}

/// The satisfies relation. `Universal` satisfies only `Universal`: a value
/// that may come from anywhere cannot be narrowed. An exact origin
/// satisfies `Universal`, and satisfies an exact target when the target's
/// canonical string is a prefix of its own.
pub open spec fn spec_satisfies(actual: OriginV, expected: OriginV) -> bool {
    match actual {
        OriginV::Universal => expected is Universal,
        OriginV::Exact(pa) => match expected {
            OriginV::Universal => true,
            OriginV::Exact(pe) => pe.str().is_prefix_of(pa.str()),
        },
    }
}

/// The rendering of an origin in diagnostics: `*` or the canonical path.
pub open spec fn spec_origin_chars(o: OriginV) -> Seq<char> {
    match o {
        OriginV::Universal => seq!['*'],
        OriginV::Exact(p) => p.str(),
    }
}

impl Origin {
    /// Whether a value of this origin is acceptable at a position that
    /// declares `target`.
    pub fn satisfies(&self, target: &Origin) -> (r: bool)
        ensures
            r == spec_satisfies(self@, target@),
    {
        match self {
            Origin::Universal => target == &Origin::Universal,
            Origin::Exact(p_self) => match target {
                Origin::Universal => true,
                Origin::Exact(p_target) => {
                    let a = p_self.to_chars();
                    let b = p_target.to_chars();
                    starts_with_chars(a.as_slice(), b.as_slice())
                },
            },
        }
    }

    /// Renders the origin as it appears in diagnostics.
    pub fn to_chars(&self) -> (r: Vec<char>)
        ensures
            r@ == spec_origin_chars(self@),
    {
        match self {
            Origin::Universal => {
                let mut r: Vec<char> = Vec::new();
                r.push('*');
                proof {
                    assert(r@ =~= seq!['*']);
                }
                r
            },
            Origin::Exact(p) => p.to_chars(),
        }
    }
}

impl PartialEq for Origin {
    fn eq(&self, other: &Origin) -> (r: bool) {
        match (self, other) {
            (Origin::Universal, Origin::Universal) => true,
            (Origin::Exact(p1), Origin::Exact(p2)) => {
                let a = p1.to_chars();
                let b = p2.to_chars();
                chars_eq(a.as_slice(), b.as_slice())
            },
            _ => false,
        }
    }
}

impl vstd::std_specs::cmp::PartialEqSpecImpl for Origin {
    open spec fn obeys_eq_spec() -> bool {
        true
    }

    open spec fn eq_spec(&self, other: &Origin) -> bool {
        spec_origin_eq(self@, other@)
    }
}

impl Clone for Origin {
    fn clone(&self) -> (r: Self)
        ensures
            r@ == self@,
    {
        match self {
            Origin::Universal => Origin::Universal,
            Origin::Exact(p) => Origin::Exact(p.clone()),
        }
    }
}

/// Satisfies is reflexive: every exact origin satisfies itself, and
/// `Universal` satisfies `Universal`.
pub proof fn lemma_satisfies_reflexive(o: OriginV)
    ensures
        spec_satisfies(o, o),
{
    match o {
        OriginV::Universal => {},
        OriginV::Exact(p) => {
            assert(p.str() =~= p.str().subrange(0, p.str().len() as int));
        },
    }
}

/// Satisfies is transitive, over all combinations of `Universal` and
/// `Exact` origins.
pub proof fn lemma_satisfies_transitive(a: OriginV, b: OriginV, c: OriginV)
    requires
        spec_satisfies(a, b),
        spec_satisfies(b, c),
    ensures
        spec_satisfies(a, c),
{
    match a {
        OriginV::Universal => {},
        OriginV::Exact(pa) => match b {
            OriginV::Universal => {},
            OriginV::Exact(pb) => match c {
                OriginV::Universal => {},
                OriginV::Exact(pc) => {
                    let sa = pa.str();
                    let sb = pb.str();
                    let sc = pc.str();
                    assert(sb =~= sa.subrange(0, sb.len() as int));
                    assert(sc =~= sb.subrange(0, sc.len() as int));
                    assert(sc =~= sa.subrange(0, sc.len() as int));
                },
            },
        },
    }
}

} // verus!
