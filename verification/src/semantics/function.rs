//! Function collection: canonical path to signature.
//!
//! Walks one file, maintaining the `::`-joined module prefix, and inserts
//! every function definition into the global table under
//! `<prefix>::<name>`. Duplicate definitions silently overwrite. The
//! caller passes in the table accumulated from earlier crates; the pass
//! extends it and returns the extension.

use vstd::prelude::*;
use vstd::slice::slice_to_vec;

use crate::ast::file::{File, FileV};
use crate::ast::item::{item_view, FnParamV, Item, ItemFn, ItemFnV, ItemMod, ItemV};
use crate::ast::origin::{Origin, OriginV};
use crate::chars::{chars_of, push_all};
use crate::semantics::error::SemaResult;
use crate::symbol::{SymbolTable, ViewClone};

verus! {

/// One collected parameter: its name and declared origin.
pub struct ParamData {
    pub name: Vec<char>,
    pub origin: Origin,
}

/// The view of a `ParamData`.
#[verifier::ext_equal]
pub ghost struct ParamDataV {
    pub name: Seq<char>,
    pub origin: OriginV,
}

impl View for ParamData {
    type V = ParamDataV;

    open spec fn view(&self) -> ParamDataV {
        ParamDataV { name: self.name@, origin: self.origin@ }
    }
}

impl ViewClone for ParamData {
    fn view_clone(&self) -> (r: Self)
        ensures
            r@ == self@,
    {
        ParamData { name: slice_to_vec(self.name.as_slice()), origin: self.origin.clone() }
    }
}

/// One collected signature: parameters and declared return origin.
pub struct FunctionData {
    pub params: Vec<ParamData>,
    pub ret_origin: Origin,
}

/// The view of a `FunctionData`.
#[verifier::ext_equal]
pub ghost struct FunctionDataV {
    pub params: Seq<ParamDataV>,
    pub ret_origin: OriginV,
}

impl View for FunctionData {
    type V = FunctionDataV;

    open spec fn view(&self) -> FunctionDataV {
        FunctionDataV {
            params: self.params@.map_values(|p: ParamData| p@),
            ret_origin: self.ret_origin@,
        }
    }
}

impl ViewClone for FunctionData {
    fn view_clone(&self) -> (r: Self)
        ensures
            r@ == self@,
    {
        let mut params: Vec<ParamData> = Vec::new();
        let n = self.params.len();
        let mut i: usize = 0;
        while i < n
            invariant
                n == self.params@.len(),
                i <= n,
                params@.len() == i,
                forall|j: int| 0 <= j < i ==> (#[trigger] params@[j])@ == self.params@[j]@,
            decreases n - i,
        {
            params.push(self.params[i].view_clone());
            i += 1;
        }
        let r = FunctionData { params, ret_origin: self.ret_origin.clone() };
        proof {
            assert(r@.params =~= self@.params);
        }
        r
    }
}

/// The canonical path of a name under a module prefix.
pub open spec fn canon(prefix: Seq<char>, name: Seq<char>) -> Seq<char> {
    prefix + crate::ast::path::spec_sep() + name
}

/// The signature a function definition contributes to the table.
pub open spec fn fn_data_of(f: ItemFnV) -> FunctionDataV {
    FunctionDataV {
        params: f.params.map_values(|p: FnParamV| ParamDataV { name: p.ident.raw, origin: p.origin }),
        ret_origin: f.ret_origin,
    }
}

/// Collecting the items of a file from index `i` on, threading the table.
pub open spec fn sp_collect_items(
    items: Seq<ItemV>,
    prefix: Seq<char>,
    table: Map<Seq<char>, FunctionDataV>,
    i: int,
) -> Map<Seq<char>, FunctionDataV>
    decreases items, items.len() - i, 0int,
{
    if 0 <= i < items.len() {
        sp_collect_items(items, prefix, sp_collect_item(items[i], prefix, table), i + 1)
    } else {
        table
    }
}

/// What one item contributes: a function inserts its signature; a module
/// collects its file under the extended prefix.
pub open spec fn sp_collect_item(
    item: ItemV,
    prefix: Seq<char>,
    table: Map<Seq<char>, FunctionDataV>,
) -> Map<Seq<char>, FunctionDataV>
    decreases item, 0int, 1int,
{
    match item {
        ItemV::ItemFn(f) => table.insert(canon(prefix, f.ident.raw), fn_data_of(f)),
        ItemV::ItemMod(m) => sp_collect_file(m.file, canon(prefix, m.ident.raw), table),
    }
}

/// Collecting a whole file.
pub open spec fn sp_collect_file(
    f: FileV,
    prefix: Seq<char>,
    table: Map<Seq<char>, FunctionDataV>,
) -> Map<Seq<char>, FunctionDataV>
    decreases f, 0int, 2int,
{
    sp_collect_items(f.items, prefix, table, 0)
}

/// The function-collection pass over one file.
pub struct FunctionAnalysis<'a> {
    pub file: &'a File,
    pub prefix: Vec<char>,
    pub table: SymbolTable<FunctionData>,
}

impl<'a> FunctionAnalysis<'a> {
    /// A pass over `file` with crate prefix `prefix`, extending a copy of
    /// the table accumulated from earlier crates.
    pub fn new(file: &'a File, prefix: Vec<char>, table: &'a SymbolTable<FunctionData>) -> (r:
        FunctionAnalysis<'a>)
        ensures
            r.file == file,
            r.prefix@ == prefix@,
            r.table@ == table@,
    {
        FunctionAnalysis { file, prefix, table: table.clone() }
    }

    /// Runs the pass. It always succeeds: the returned table is the input
    /// table extended with every function of the file under its canonical
    /// path.
    pub fn analyze(&mut self) -> (r: SemaResult<SymbolTable<FunctionData>>)
        ensures
            r matches Ok(t) && t@ == sp_collect_file(
                crate::ast::item::file_view(*old(self).file),
                old(self).prefix@,
                old(self).table@,
            ),
    {
        let f = self.file;
        self.visit_file(f);
        Ok(self.table.clone())
    }

    /// Collects every item of `node`.
    pub fn visit_file(&mut self, node: &File)
        ensures
            final(self).file == old(self).file,
            final(self).prefix@ == old(self).prefix@,
            final(self).table@ == sp_collect_file(
                crate::ast::item::file_view(*node),
                old(self).prefix@,
                old(self).table@,
            ),
        decreases *node, 1int,
    {
        let ghost fv = crate::ast::item::file_view(*node);
        let ghost prefix0 = self.prefix@;
        let n = node.items.len();
        let mut i: usize = 0;
        proof {
            crate::ast::item::lemma_item_view_seq(node.items@);
        }
        while i < n
            invariant
                n == node.items@.len(),
                i <= n,
                fv == crate::ast::item::file_view(*node),
                fv.items.len() == n,
                forall|j: int|
                    0 <= j < n ==> fv.items[j] == item_view(#[trigger] node.items@[j]),
                self.file == old(self).file,
                self.prefix@ == old(self).prefix@,
                sp_collect_items(fv.items, old(self).prefix@, self.table@, i as int)
                    == sp_collect_items(fv.items, old(self).prefix@, old(self).table@, 0),
            decreases n - i,
        {
            self.visit_item(&node.items[i]);
            i += 1;
        }
    }

    /// Collects one item.
    pub fn visit_item(&mut self, node: &Item)
        ensures
            final(self).file == old(self).file,
            final(self).prefix@ == old(self).prefix@,
            final(self).table@ == sp_collect_item(
                item_view(*node),
                old(self).prefix@,
                old(self).table@,
            ),
        decreases *node, 0int,
    {
        match node {
            Item::ItemFn(f) => self.visit_item_fn(f),
            Item::ItemMod(m) => self.visit_item_mod(m),
        }
    }

    /// Inserts one function under `<prefix>::<name>`.
    pub fn visit_item_fn(&mut self, node: &ItemFn)
        ensures
            final(self).file == old(self).file,
            final(self).prefix@ == old(self).prefix@,
            final(self).table@ == old(self).table@.insert(
                canon(old(self).prefix@, node@.ident.raw),
                fn_data_of(node@),
            ),
    {
        // Construct the canonical path for this function
        let mut path = slice_to_vec(self.prefix.as_slice());
        let sep = chars_of("::");
        push_all(&mut path, sep.as_slice());
        push_all(&mut path, node.ident.raw.as_slice());
        proof {
            reveal_strlit("::");
            assert("::"@ =~= crate::ast::path::spec_sep());
            assert(path@ =~= canon(old(self).prefix@, node@.ident.raw));
        }
        let mut params: Vec<ParamData> = Vec::new();
        let n = node.params.len();
        let mut i: usize = 0;
        while i < n
            invariant
                n == node.params@.len(),
                i <= n,
                params@.len() == i,
                forall|j: int|
                    0 <= j < i ==> (#[trigger] params@[j])@ == (ParamDataV {
                        name: node.params@[j]@.ident.raw,
                        origin: node.params@[j]@.origin,
                    }),
                self.file == old(self).file,
                self.prefix@ == old(self).prefix@,
                self.table@ == old(self).table@,
            decreases n - i,
        {
            let param = &node.params[i];
            params.push(
                ParamData { name: slice_to_vec(param.ident.raw.as_slice()), origin: param.origin.clone() },
            );
            i += 1;
        }
        let data = FunctionData { params, ret_origin: node.ret_origin.clone() };
        proof {
            assert(data@.params =~= fn_data_of(node@).params);
            assert(data@ =~= fn_data_of(node@));
        }
        self.table.insert(path, data);
    }

    /// Collects a module's file under the extended prefix.
    pub fn visit_item_mod(&mut self, node: &ItemMod)
        ensures
            final(self).file == old(self).file,
            final(self).prefix@ == old(self).prefix@,
            final(self).table@ == sp_collect_file(
                crate::ast::item::file_view(node.file),
                canon(old(self).prefix@, node@.ident.raw),
                old(self).table@,
            ),
        decreases *node, 1int,
    {
        let saved = slice_to_vec(self.prefix.as_slice());
        let sep = chars_of("::");
        push_all(&mut self.prefix, sep.as_slice());
        push_all(&mut self.prefix, node.ident.raw.as_slice());
        proof {
            reveal_strlit("::");
            assert("::"@ =~= crate::ast::path::spec_sep());
            assert(self.prefix@ =~= canon(old(self).prefix@, node@.ident.raw));
        }
        let f = &node.file;
        self.visit_file(f);
        self.prefix = saved;
    }
}

} // verus!
