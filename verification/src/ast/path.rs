//! Paths: non-empty `::`-separated identifier sequences.

use vstd::prelude::*;

use crate::ast::ident::{Ident, IdentV};
use crate::chars::push_all;
use crate::span::{unknown_span, Span};

verus! {

/// A path: an ordered sequence of identifier segments plus a span.
/// Its canonical string form is the segments joined by `::`.
#[derive(Debug)]
pub struct Path {
    pub segments: Vec<Ident>,
    pub span: Span,
}

/// The view of a `Path`.
#[verifier::ext_equal]
pub ghost struct PathV {
    pub segments: Seq<IdentV>,
    pub span: Span,
}

impl View for Path {
    type V = PathV;

    open spec fn view(&self) -> PathV {
        PathV { segments: self.segments@.map_values(|id: Ident| id@), span: self.span }
    }
}

/// The `::` separator.
pub open spec fn spec_sep() -> Seq<char> {
    seq![':', ':']
}

/// Joins raw segment strings with `::`.
pub open spec fn spec_join(segs: Seq<Seq<char>>) -> Seq<char>
    decreases segs.len(),
{
    if segs.len() == 0 {
        Seq::empty()
    } else if segs.len() == 1 {
        segs[0]
    } else {
        spec_join(segs.drop_last()) + spec_sep() + segs.last()
    }
}

/// Extending a joined prefix by one more segment appends `::` and the
/// segment, except for the first segment, which stands alone.
pub proof fn lemma_join_snoc(segs: Seq<Seq<char>>, i: int)
    requires
        0 <= i < segs.len(),
    ensures
        i == 0 ==> spec_join(segs.subrange(0, 1)) == segs[0],
        i > 0 ==> spec_join(segs.subrange(0, i + 1)) == spec_join(segs.subrange(0, i)) + spec_sep()
            + segs[i],
{
    let a = segs.subrange(0, i + 1);
    if i == 0 {
        assert(a.len() == 1);
    } else {
        assert(a.drop_last() =~= segs.subrange(0, i));
        assert(a.last() == segs[i]);
    }
}

impl PathV {
    /// The canonical string form: segments joined by `::`.
    pub open spec fn str(self) -> Seq<char> {
        spec_join(self.segments.map_values(|id: IdentV| id.raw))
    }
}

/// Splitting a string on `::` from index `i`, with the segment read so
/// far and the segments already complete.
pub open spec fn sp_split(s: Seq<char>, i: int, cur: Seq<char>, acc: Seq<IdentV>) -> Seq<IdentV>
    decreases s.len() - i,
    when 0 <= i
{
    if i < s.len() {
        if s[i] == ':' && i + 1 < s.len() && s[i + 1] == ':' {
            sp_split(s, i + 2, Seq::empty(), acc.push(IdentV { raw: cur, span: unknown_span() }))
        } else {
            sp_split(s, i + 1, cur.push(s[i]), acc)
        }
    } else {
        acc.push(IdentV { raw: cur, span: unknown_span() })
    }
}

/// The path built from a canonical string by splitting on `::`.
pub open spec fn path_from_chars(s: Seq<char>) -> PathV {
    PathV {
        segments: sp_split(s, 0, Seq::empty(), Seq::empty()),
        span: unknown_span(),
    }
}

impl Path {
    /// An empty path at the unknown position.
    pub fn new() -> (r: Self)
        ensures
            r@ == (PathV { segments: Seq::<IdentV>::empty(), span: unknown_span() }),
    {
        let r = Path { segments: Vec::new(), span: Span::new() };
        proof {
            assert(r@.segments =~= Seq::<IdentV>::empty());
        }
        r
    }

    pub fn with_segments(self, segments: Vec<Ident>) -> (r: Self)
        ensures
            r@ == (PathV { segments: segments@.map_values(|id: Ident| id@), span: self@.span }),
    {
        Path { segments, ..self }
    }

    pub fn with_span(self, span: Span) -> (r: Self)
        ensures
            r@ == (PathV { segments: self@.segments, span }),
    {
        Path { span, ..self }
    }

    /// The canonical string form of the path.
    pub fn to_chars(&self) -> (r: Vec<char>)
        ensures
            r@ == self@.str(),
    {
        let ghost raws = self@.segments.map_values(|id: IdentV| id.raw);
        let mut r: Vec<char> = Vec::new();
        let n = self.segments.len();
        let mut i: usize = 0;
        while i < n
            invariant
                n == self.segments@.len(),
                raws == self@.segments.map_values(|id: IdentV| id.raw),
                raws.len() == n,
                i <= n,
                r@ == spec_join(raws.subrange(0, i as int)),
            decreases n - i,
        {
            if i > 0 {
                r.push(':');
                r.push(':');
            }
            push_all(&mut r, self.segments[i].raw.as_slice());
            proof {
                lemma_join_snoc(raws, i as int);
                assert(raws[i as int] == self.segments@[i as int]@.raw);
                if i == 0 {
                    assert(r@ =~= spec_join(raws.subrange(0, i + 1 as int)));
                } else {
                    assert(r@ =~= spec_join(raws.subrange(0, i as int)) + spec_sep() + raws[i as int]);
                }
            }
            i += 1;
        }
        proof {
            assert(raws.subrange(0, n as int) =~= raws);
        }
        r
    }

    /// Builds a path from its canonical string form by splitting on `::`.
    /// Joining the result's segments reproduces the input; the path always
    /// has at least one (possibly empty) segment.
    pub fn from(value: &[char]) -> (r: Self)
        ensures
            r@ == path_from_chars(value@),
            r@.str() == value@,
            r@.segments.len() >= 1,
            r@.span == unknown_span(),
    {
        let n = value.len();
        let mut segments: Vec<Ident> = Vec::new();
        let mut current: Vec<char> = Vec::new();
        let mut i: usize = 0;
        proof {
            assert(current@ =~= Seq::<char>::empty());
            assert(segments@.map_values(|id: Ident| id@) =~= Seq::<IdentV>::empty());
        }
        while i < n
            invariant
                n == value@.len(),
                i <= n,
                forall|j: int|
                    0 <= j < segments@.len() ==> (#[trigger] segments@[j])@.span
                        == unknown_span(),
                sp_split(
                    value@,
                    i as int,
                    current@,
                    segments@.map_values(|id: Ident| id@),
                ) == sp_split(value@, 0, Seq::empty(), Seq::empty()),
                ({
                    let raws = segments@.map_values(|id: Ident| id@).map_values(
                        |id: IdentV| id.raw,
                    );
                    if raws.len() == 0 {
                        current@ == value@.subrange(0, i as int)
                    } else {
                        spec_join(raws) + spec_sep() + current@ == value@.subrange(0, i as int)
                    }
                }),
            decreases n - i,
        {
            let ghost old_segments = segments@;
            let ghost old_current = current@;
            if value[i] == ':' && i + 1 < n && value[i + 1] == ':' {
                segments.push(Ident::new().with_raw(current));
                current = Vec::new();
                proof {
                    assert(segments@.map_values(|id: Ident| id@) =~= old_segments.map_values(
                        |id: Ident| id@,
                    ).push(IdentV { raw: old_current, span: unknown_span() }));
                    let raws = segments@.map_values(|id: Ident| id@).map_values(
                        |id: IdentV| id.raw,
                    );
                    let old_raws = old_segments.map_values(|id: Ident| id@).map_values(
                        |id: IdentV| id.raw,
                    );
                    assert(raws =~= old_raws.push(old_current));
                    if old_raws.len() == 0 {
                        assert(raws.len() == 1);
                        assert(spec_join(raws) == old_current);
                    } else {
                        assert(raws.drop_last() =~= old_raws);
                        assert(spec_join(raws) == spec_join(old_raws) + spec_sep() + old_current);
                    }
                    assert(value@.subrange(0, i as int) + spec_sep() =~= value@.subrange(
                        0,
                        i + 2 as int,
                    ));
                }
                i += 2;
            } else {
                current.push(value[i]);
                proof {
                    assert(segments@.map_values(|id: Ident| id@) == old_segments.map_values(
                        |id: Ident| id@,
                    ));
                    let v = value@[i as int];
                    assert(value@.subrange(0, i as int).push(v) =~= value@.subrange(
                        0,
                        i + 1 as int,
                    ));
                    let raws = segments@.map_values(|id: Ident| id@).map_values(
                        |id: IdentV| id.raw,
                    );
                    if raws.len() > 0 {
                        assert(spec_join(raws) + spec_sep() + old_current.push(v) =~= (spec_join(
                            raws,
                        ) + spec_sep() + old_current).push(v));
                    }
                }
                i += 1;
            }
        }
        let ghost old_segments = segments@;
        let ghost old_current = current@;
        segments.push(Ident::new().with_raw(current));
        let r = Path { segments, span: Span::new() };
        proof {
            assert(r@.segments =~= old_segments.map_values(|id: Ident| id@).push(
                IdentV { raw: old_current, span: unknown_span() },
            ));
            assert(r@ =~= path_from_chars(value@));
            let raws = r@.segments.map_values(|id: IdentV| id.raw);
            let old_raws = old_segments.map_values(|id: Ident| id@).map_values(
                |id: IdentV| id.raw,
            );
            assert(raws =~= old_raws.push(old_current));
            if old_raws.len() == 0 {
                assert(spec_join(raws) == old_current);
            } else {
                assert(raws.drop_last() =~= old_raws);
                assert(spec_join(raws) == spec_join(old_raws) + spec_sep() + old_current);
            }
            assert(value@.subrange(0, n as int) =~= value@);
        }
        r
    }
}

impl Clone for Path {
    fn clone(&self) -> (r: Self)
        ensures
            r@ == self@,
    {
        let mut segments: Vec<Ident> = Vec::new();
        let n = self.segments.len();
        let mut i: usize = 0;
        while i < n
            invariant
                n == self.segments@.len(),
                i <= n,
                segments@.len() == i,
                forall|j: int| 0 <= j < i ==> #[trigger] segments@[j]@ == self.segments@[j]@,
            decreases n - i,
        {
            segments.push(self.segments[i].clone());
            i += 1;
        }
        let r = Path { segments, span: self.span };
        proof {
            assert(r@.segments =~= self@.segments);
        }
        r
    }
}

} // verus!
