//! A scoped symbol table.
//!
//! Maps string keys to values, with an optional link to a parent table;
//! lookup falls through to the parent on a miss, and later insertions of
//! the same key win. The view of a table is the flattened `Map` from key
//! to value view, with the table's own entries overriding the parent's.

use vstd::prelude::*;
use vstd::slice::slice_to_vec;

verus! {

/// A value that can be duplicated without changing its view.
pub trait ViewClone: View + Sized {
    fn view_clone(&self) -> (r: Self)
        ensures
            r@ == self@,
    ;
}

impl ViewClone for () {
    fn view_clone(&self) -> (r: Self)
        ensures
            r@ == self@,
    {
    }
}

/// A scoped mapping from string keys to values of type `T`.
pub struct SymbolTable<T> {
    pub previous: Option<Box<SymbolTable<T>>>,
    pub symbols: Vec<(Vec<char>, T)>,
}

/// The map described by a sequence of key/value entries, later entries
/// overriding earlier ones.
pub open spec fn entries_map<T: View>(s: Seq<(Vec<char>, T)>) -> Map<Seq<char>, T::V>
    decreases s,
{
    if s.len() == 0 {
        Map::empty()
    } else {
        entries_map(s.drop_last()).insert(s.last().0@, s.last().1@)
    }
}

/// The flattened view of a table chain: the parent's map, overridden by
/// the table's own entries.
pub open spec fn table_view<T: View>(t: SymbolTable<T>) -> Map<Seq<char>, T::V>
    decreases t,
{
    match t.previous {
        None => entries_map(t.symbols@),
        Some(prev) => table_view(*prev).union_prefer_right(entries_map(t.symbols@)),
    }
}

impl<T: View> View for SymbolTable<T> {
    type V = Map<Seq<char>, T::V>;

    open spec fn view(&self) -> Map<Seq<char>, T::V> {
        table_view(*self)
    }
}

/// If no entry of `s` has key `k`, the entries map does not contain `k`.
pub proof fn lemma_entries_map_absent<T: View>(s: Seq<(Vec<char>, T)>, k: Seq<char>)
    requires
        forall|j: int| 0 <= j < s.len() ==> (#[trigger] s[j]).0@ != k,
    ensures
        !entries_map(s).contains_key(k),
    decreases s,
{
    if s.len() > 0 {
        assert(s[s.len() - 1] == s.last());
        lemma_entries_map_absent(s.drop_last(), k);
    }
}

/// If entry `i` has key `k` and no later entry does, the entries map takes
/// `k` to that entry's value.
pub proof fn lemma_entries_map_found<T: View>(s: Seq<(Vec<char>, T)>, k: Seq<char>, i: int)
    requires
        0 <= i < s.len(),
        s[i].0@ == k,
        forall|j: int| i < j < s.len() ==> (#[trigger] s[j]).0@ != k,
    ensures
        entries_map(s).contains_key(k),
        entries_map(s)[k] == s[i].1@,
    decreases s,
{
    if i == s.len() - 1 {
        assert(s[i] == s.last());
    } else {
        assert(s[s.len() - 1] == s.last());
        assert(forall|j: int| i < j < s.drop_last().len() ==> (#[trigger] s.drop_last()[j]).0@
            != k);
        assert(s.drop_last()[i] == s[i]);
        lemma_entries_map_found(s.drop_last(), k, i);
    }
}

/// Two entry sequences with pairwise view-equal keys and values describe
/// the same map.
pub proof fn lemma_entries_map_congruent<T: View>(a: Seq<(Vec<char>, T)>, b: Seq<(Vec<char>, T)>)
    requires
        a.len() == b.len(),
        forall|i: int| 0 <= i < a.len() ==> (#[trigger] a[i]).0@ == (#[trigger] b[i]).0@,
        forall|i: int| 0 <= i < a.len() ==> (#[trigger] a[i]).1@ == (#[trigger] b[i]).1@,
    ensures
        entries_map(a) == entries_map(b),
    decreases a,
{
    if a.len() > 0 {
        assert(a[a.len() - 1] == a.last());
        assert(b[b.len() - 1] == b.last());
        lemma_entries_map_congruent(a.drop_last(), b.drop_last());
        assert(entries_map(a) =~= entries_map(b));
    }
}

impl<T: View> SymbolTable<T> {
    /// The view of the parent chain alone.
    pub open spec fn parent_map(self) -> Map<Seq<char>, T::V> {
        match self.previous {
            None => Map::empty(),
            Some(prev) => table_view(*prev),
        }
    }

    /// An empty table with no parent.
    pub fn new() -> (r: Self)
        ensures
            r@ == Map::<Seq<char>, T::V>::empty(),
            r.parent_map() == Map::<Seq<char>, T::V>::empty(),
    {
        SymbolTable { previous: None, symbols: Vec::new() }
    }

    /// Links `previous` as the parent table: lookups fall through to it.
    pub fn with_previous(self, previous: SymbolTable<T>) -> (r: Self)
        ensures
            r@ == previous@.union_prefer_right(entries_map(self.symbols@)),
            r.parent_map() == previous@,
    {
        SymbolTable { previous: Some(Box::new(previous)), ..self }
    }

    /// Binds `symbol` to `value`, overriding any earlier binding.
    pub fn insert(&mut self, symbol: Vec<char>, value: T)
        ensures
            final(self)@ == old(self)@.insert(symbol@, value@),
            final(self).parent_map() == old(self).parent_map(),
    {
        self.symbols.push((symbol, value));
        proof {
            assert(self.symbols@.drop_last() =~= old(self).symbols@);
            if self.previous is Some {
                assert(table_view(*self) =~= table_view(*old(self)).insert(symbol@, value@));
            } else {
                assert(table_view(*self) =~= table_view(*old(self)).insert(symbol@, value@));
            }
        }
    }

    /// Removes the table's own entries; the parent is untouched.
    pub fn clear(&mut self)
        ensures
            final(self)@ == old(self).parent_map(),
            final(self).parent_map() == old(self).parent_map(),
    {
        self.symbols.clear();
        proof {
            assert(self.symbols@ =~= Seq::<(Vec<char>, T)>::empty());
            assert(table_view(*self) =~= old(self).parent_map());
        }
    }
}

impl<T: ViewClone> SymbolTable<T> {
    /// Looks `symbol` up, falling through to the parent on a miss.
    pub fn find(&self, symbol: &[char]) -> (r: Option<T>)
        ensures
            match r {
                Some(v) => self@.contains_key(symbol@) && v@ == self@[symbol@],
                None => !self@.contains_key(symbol@),
            },
        decreases *self,
    {
        let n = self.symbols.len();
        let mut i: usize = n;
        while i > 0
            invariant
                n == self.symbols@.len(),
                i <= n,
                forall|j: int| i <= j < n ==> (#[trigger] self.symbols@[j]).0@ != symbol@,
            decreases i,
        {
            i -= 1;
            if crate::chars::chars_eq(self.symbols[i].0.as_slice(), symbol) {
                proof {
                    lemma_entries_map_found(self.symbols@, symbol@, i as int);
                }
                return Some(self.symbols[i].1.view_clone());
            }
        }
        proof {
            lemma_entries_map_absent(self.symbols@, symbol@);
        }
        match &self.previous {
            None => None,
            Some(prev) => prev.find(symbol),
        }
    }
}

impl<T: ViewClone> Clone for SymbolTable<T> {
    fn clone(&self) -> (r: Self)
        ensures
            r@ == self@,
            r.parent_map() == self.parent_map(),
        decreases *self,
    {
        let previous = match &self.previous {
            None => None,
            Some(prev) => Some(Box::new((**prev).clone())),
        };
        let n = self.symbols.len();
        let mut symbols: Vec<(Vec<char>, T)> = Vec::new();
        let mut i: usize = 0;
        while i < n
            invariant
                n == self.symbols@.len(),
                i <= n,
                symbols@.len() == i,
                forall|j: int| 0 <= j < i ==> (#[trigger] symbols@[j]).0@ == self.symbols@[j].0@,
                forall|j: int| 0 <= j < i ==> (#[trigger] symbols@[j]).1@ == self.symbols@[j].1@,
            decreases n - i,
        {
            let key = slice_to_vec(self.symbols[i].0.as_slice());
            let value = self.symbols[i].1.view_clone();
            symbols.push((key, value));
            i += 1;
        }
        let r = SymbolTable { previous, symbols };
        proof {
            lemma_entries_map_congruent(r.symbols@, self.symbols@);
        }
        r
    }
}

} // verus!
