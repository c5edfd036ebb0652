//! The virtual-dispatch-table manager. For a concrete struct and a trait it
//! implements, it assembles — once per (struct, trait) pair — the ordered
//! table of backend function values matching the trait's declared method
//! order, and installs it as a module global named `{struct_name}_vtable`.
//! Each method's function is obtained through the driver, demanding (and so
//! enqueuing for compilation) any not yet instanced. Asking again returns
//! the same global, never a second one.

use vstd::prelude::*;
use vstd::string::StringExecFns;
use crate::backend::GlobalValue;
use crate::errors::CompileError;
use crate::syntax::Syntax;
use crate::syntax::dispatch_list;
use crate::syntax::dispatch_ok;
use crate::syntax::impl_table_has;
use crate::syntax::impl_table_index;
use crate::syntax::trait_table_get;
use crate::syntax::trait_table_has;
use crate::type_getter::CompilerTypeGetter;
use crate::type_getter::lemma_demanded_listed;
use crate::type_getter::listed_method;
use crate::types::FinalizedTypes;
use crate::types::is_ground;
use crate::types::spec_inner_id;
use crate::types::spec_type_name;
use crate::util::table_get;
use crate::util::table_has;

verus! {

/// One memoized dispatch table: the implementing struct, the target trait,
/// and the module global holding the assembled table.
#[derive(Debug)]
pub struct VtableEntry {
    pub struct_id: u64,
    pub trait_id: u64,
    pub global: usize,
}

/// Whether a table for the pair was already assembled.
pub open spec fn vtable_has(data: Seq<VtableEntry>, struct_id: u64, trait_id: u64) -> bool {
    exists|k: int|
        0 <= k < data.len() && (#[trigger] data[k]).struct_id == struct_id && data[k].trait_id
            == trait_id
}

/// The index of the pair's memoized table.
pub open spec fn vtable_index(data: Seq<VtableEntry>, struct_id: u64, trait_id: u64) -> int {
    choose|k: int|
        0 <= k < data.len() && (#[trigger] data[k]).struct_id == struct_id && data[k].trait_id
            == trait_id
}

/// At most one memoized table per pair.
pub open spec fn vtables_unique(data: Seq<VtableEntry>) -> bool {
    forall|k1: int, k2: int|
        0 <= k1 < k2 < data.len() ==> !((#[trigger] data[k1]).struct_id
            == (#[trigger] data[k2]).struct_id && data[k1].trait_id == data[k2].trait_id)
}

/// With uniqueness, any index memoizing the pair is `vtable_index`.
pub proof fn lemma_vtable_index_unique(data: Seq<VtableEntry>, struct_id: u64, trait_id: u64, k: int)
    requires
        vtables_unique(data),
        0 <= k < data.len(),
        data[k].struct_id == struct_id,
        data[k].trait_id == trait_id,
    ensures
        vtable_has(data, struct_id, trait_id),
        vtable_index(data, struct_id, trait_id) == k,
{
    let j = vtable_index(data, struct_id, trait_id);
}

/// The pair's dispatch data is complete: the trait's declared method order
/// is known, the verified relation holds the pair's entry, and every
/// declared method has an implementation. Anything less is a
/// verification-phase bug.
pub open spec fn pair_dispatchable(syntax: Syntax, struct_id: u64, trait_id: u64) -> bool {
    &&& trait_table_has(syntax.trait_methods@, trait_id)
    &&& impl_table_has(syntax.implementations@, struct_id, trait_id)
    &&& dispatch_ok(
        trait_table_get(syntax.trait_methods@, trait_id)@,
        syntax.implementations@[impl_table_index(
            syntax.implementations@,
            struct_id,
            trait_id,
        )].methods@,
    )
}

/// Every implementing function the pair's table would name is defined in
/// the function table.
pub open spec fn pair_methods_defined(syntax: Syntax, struct_id: u64, trait_id: u64) -> bool {
    forall|j: int|
        0 <= j < trait_table_get(syntax.trait_methods@, trait_id)@.len() ==> table_has(
            syntax.functions@,
            #[trigger] dispatch_list(
                trait_table_get(syntax.trait_methods@, trait_id)@,
                syntax.implementations@[impl_table_index(
                    syntax.implementations@,
                    struct_id,
                    trait_id,
                )].methods@,
            )[j],
        )
}

/// Whatever name the dispatch table holds for a declared method, some entry
/// of the implementation's method list carries it.
pub proof fn lemma_dispatch_listed(methods: Seq<(String, String)>, m: Seq<char>)
    requires
        crate::util::names_unique(methods),
        table_has(methods, m),
    ensures
        exists|c: int|
            0 <= c < methods.len() && (#[trigger] methods[c]).1@ == table_get(methods, m)@,
{
    let c = choose|i: int| 0 <= i < methods.len() && methods[i].0@ == m;
    crate::util::lemma_table_get_unique(methods, m, c);
}

/// Manages the session's virtual dispatch tables, memoized by the
/// (implementing struct identity, target trait identity) pair, never
/// evicted.
#[derive(Debug)]
pub struct VTableManager {
    pub data: Vec<VtableEntry>,
}

impl VTableManager {
    /// At most one table per pair, every table a valid module global.
    pub open spec fn wf(&self, globals: Seq<GlobalValue>) -> bool {
        &&& vtables_unique(self.data@)
        &&& forall|k: int| 0 <= k < self.data@.len() ==> (#[trigger] self.data@[k]).global < globals.len()
    }

    pub fn new() -> (r: Self)
        ensures
            r.data@.len() == 0,
    {
        VTableManager { data: Vec::new() }
    }

    /// The dispatch table for `structure` implementing `target`, assembled
    /// if the pair was never asked for. It succeeds exactly when the pair
    /// is already memoized, or when its dispatch data is complete and every
    /// implementing function it names is defined — each is then obtained
    /// through the driver, demanding (and enqueuing for compilation) any
    /// not yet instanced. The assembled table holds one backend function
    /// per trait-declared method, in the trait's declared order — whatever
    /// order the implementation declared them in — under a global named
    /// `{struct_name}_vtable`. A pair already assembled returns its global
    /// with nothing changed. Incomplete dispatch data is fatal
    /// (`InternalDispatchError`); a named function missing from the
    /// function table is a resolution error; either way nothing is emitted
    /// or memoized.
    #[verifier::loop_isolation(false)]
    #[verifier::rlimit(90)]
    pub fn get_vtable(&mut self, type_getter: &mut CompilerTypeGetter, structure: &FinalizedTypes, target: &FinalizedTypes) -> (r: Result<
        usize,
        CompileError,
    >)
        requires
            old(type_getter).wf(),
            is_ground(structure@),
            is_ground(target@),
            old(self).wf(old(type_getter).compiler.globals@),
        ensures
            final(type_getter).wf(),
            final(self).wf(final(type_getter).compiler.globals@),
            final(type_getter).syntax == old(type_getter).syntax,
            final(type_getter).compiler.functions@.len() >= old(type_getter).compiler.functions@.len(),
            forall|k: int|
                0 <= k < old(type_getter).compiler.functions@.len() ==> final(type_getter).compiler.functions@[k]
                    == old(type_getter).compiler.functions@[k],
            forall|w: int|
                0 <= w < old(type_getter).compiling@.len() ==> final(type_getter).compiling@[w]
                    == old(type_getter).compiling@[w],
            final(type_getter).compiling@.len() - old(type_getter).compiling@.len() == final(type_getter).compiler.functions@.len()
                - old(type_getter).compiler.functions@.len(),
            r is Ok <==> vtable_has(old(self).data@, spec_inner_id(structure@), spec_inner_id(target@))
                || (pair_dispatchable(
                old(type_getter).syntax,
                spec_inner_id(structure@),
                spec_inner_id(target@),
            ) && pair_methods_defined(
                old(type_getter).syntax,
                spec_inner_id(structure@),
                spec_inner_id(target@),
            )),
            match r {
                Ok(g) => {
                    &&& g < final(type_getter).compiler.globals@.len()
                    &&& vtable_has(
                        final(self).data@,
                        spec_inner_id(structure@),
                        spec_inner_id(target@),
                    )
                    &&& final(self).data@[vtable_index(
                        final(self).data@,
                        spec_inner_id(structure@),
                        spec_inner_id(target@),
                    )].global == g
                    &&& (vtable_has(
                        old(self).data@,
                        spec_inner_id(structure@),
                        spec_inner_id(target@),
                    ) ==> {
                        &&& *final(self) == *old(self)
                        &&& *final(type_getter) == *old(type_getter)
                        &&& g == old(self).data@[vtable_index(
                            old(self).data@,
                            spec_inner_id(structure@),
                            spec_inner_id(target@),
                        )].global
                    })
                    &&& (!vtable_has(
                        old(self).data@,
                        spec_inner_id(structure@),
                        spec_inner_id(target@),
                    ) ==> {
                        &&& g == old(type_getter).compiler.globals@.len()
                        &&& final(type_getter).compiler.globals@.len() == old(type_getter).compiler.globals@.len() + 1
                        &&& forall|j: int|
                            0 <= j < old(type_getter).compiler.globals@.len() ==> final(type_getter).compiler.globals@[j]
                                == old(type_getter).compiler.globals@[j]
                        &&& final(type_getter).compiler.globals@[g as int].name@ == spec_type_name(
                            structure@,
                        ) + "_vtable"@
                        &&& {
                            let decl = trait_table_get(
                                old(type_getter).syntax.trait_methods@,
                                spec_inner_id(target@),
                            )@;
                            let methods = old(type_getter).syntax.implementations@[impl_table_index(
                                old(type_getter).syntax.implementations@,
                                spec_inner_id(structure@),
                                spec_inner_id(target@),
                            )].methods@;
                            let entries = final(type_getter).compiler.globals@[g as int].entries@;
                            &&& entries.len() == decl.len()
                            &&& forall|j: int|
                                0 <= j < entries.len() ==> (#[trigger] entries[j])
                                    < final(type_getter).compiler.functions@.len()
                                    && final(type_getter).compiler.functions@[entries[j] as int].name@
                                    == dispatch_list(decl, methods)[j]
                        }
                    })
                },
                Err(e) => {
                    &&& *final(self) == *old(self)
                    &&& *final(type_getter) == *old(type_getter)
                    &&& (e is InternalDispatchError <==> !pair_dispatchable(
                        old(type_getter).syntax,
                        spec_inner_id(structure@),
                        spec_inner_id(target@),
                    ))
                    &&& (e is SymbolNotFound <==> pair_dispatchable(
                        old(type_getter).syntax,
                        spec_inner_id(structure@),
                        spec_inner_id(target@),
                    ) && !pair_methods_defined(
                        old(type_getter).syntax,
                        spec_inner_id(structure@),
                        spec_inner_id(target@),
                    ))
                },
            },
    {
        let sid = structure.inner_id();
        let tid = target.inner_id();
        let mut k: usize = 0;
        while k < self.data.len()
            invariant
                k <= self.data@.len(),
                forall|j: int|
                    0 <= j < k ==> !((#[trigger] self.data@[j]).struct_id == sid
                        && self.data@[j].trait_id == tid),
            decreases self.data@.len() - k,
        {
            if self.data[k].struct_id == sid && self.data[k].trait_id == tid {
                proof {
                    lemma_vtable_index_unique(self.data@, sid, tid, k as int);
                }
                return Ok(self.data[k].global);
            }
            k += 1;
        }
        let methods = match type_getter.syntax.get_implementation_methods(structure, target) {
            Ok(v) => v,
            Err(e) => {
                proof {
                    assert(!pair_dispatchable(type_getter.syntax, sid, tid));
                }
                return Err(e);
            },
        };
        let ghost decl = trait_table_get(type_getter.syntax.trait_methods@, tid)@;
        let ghost impl_methods = type_getter.syntax.implementations@[impl_table_index(
            type_getter.syntax.implementations@,
            sid,
            tid,
        )].methods@;
        proof {
            assert(pair_dispatchable(type_getter.syntax, sid, tid));
        }
        let mut p: usize = 0;
        while p < methods.len()
            invariant
                p <= methods@.len(),
                crate::util::strs_of(methods@) == dispatch_list(decl, impl_methods),
                forall|l: int|
                    0 <= l < p ==> table_has(
                        type_getter.syntax.functions@,
                        (#[trigger] methods@[l])@,
                    ),
            decreases methods@.len() - p,
        {
            proof {
                assert(crate::util::strs_of(methods@)[p as int] == methods@[p as int]@);
            }
            let known = match type_getter.syntax.get_function(&methods[p]) {
                Some(_) => true,
                None => false,
            };
            if !known {
                proof {
                    assert(crate::util::strs_of(methods@).len() == methods@.len());
                    assert(dispatch_list(decl, impl_methods).len() == decl.len());
                    assert(0 <= p < decl.len());
                    assert(dispatch_list(decl, impl_methods)[p as int] == methods@[p as int]@);
                    assert(decl == trait_table_get(type_getter.syntax.trait_methods@, tid)@);
                    assert(!table_has(
                        type_getter.syntax.functions@,
                        dispatch_list(decl, impl_methods)[p as int],
                    ));
                    assert(!pair_methods_defined(type_getter.syntax, sid, tid));
                }
                return Err(CompileError::SymbolNotFound { name: methods[p].clone() });
            }
            p += 1;
        }
        proof {
            assert forall|j: int|
                0 <= j < trait_table_get(type_getter.syntax.trait_methods@, tid)@.len() implies table_has(
                type_getter.syntax.functions@,
                #[trigger] dispatch_list(decl, impl_methods)[j],
            ) by {
                assert(crate::util::strs_of(methods@).len() == methods@.len());
                assert(dispatch_list(decl, impl_methods).len() == decl.len());
                assert(decl == trait_table_get(type_getter.syntax.trait_methods@, tid)@);
                assert(0 <= j < methods@.len());
                assert(crate::util::strs_of(methods@)[j] == methods@[j]@);
                assert(dispatch_list(decl, impl_methods)[j] == methods@[j]@);
            }
            assert(pair_methods_defined(type_getter.syntax, sid, tid));
        }
        let mut entries: Vec<usize> = Vec::new();
        let mut j: usize = 0;
        while j < methods.len()
            invariant
                j <= methods@.len(),
                entries@.len() == j,
                crate::util::strs_of(methods@) == dispatch_list(decl, impl_methods),
                decl == trait_table_get(type_getter.syntax.trait_methods@, tid)@,
                impl_methods == type_getter.syntax.implementations@[impl_table_index(
                    type_getter.syntax.implementations@,
                    sid,
                    tid,
                )].methods@,
                type_getter.wf(),
                type_getter.syntax == old(type_getter).syntax,
                type_getter.compiler.globals == old(type_getter).compiler.globals,
                type_getter.compiler.functions@.len() >= old(type_getter).compiler.functions@.len(),
                forall|k2: int|
                    0 <= k2 < old(type_getter).compiler.functions@.len() ==> type_getter.compiler.functions@[k2]
                        == old(type_getter).compiler.functions@[k2],
                forall|w: int|
                    0 <= w < old(type_getter).compiling@.len() ==> type_getter.compiling@[w]
                        == old(type_getter).compiling@[w],
                type_getter.compiling@.len() - old(type_getter).compiling@.len() == type_getter.compiler.functions@.len()
                    - old(type_getter).compiler.functions@.len(),
                forall|l: int|
                    0 <= l < methods@.len() ==> table_has(
                        type_getter.syntax.functions@,
                        (#[trigger] methods@[l])@,
                    ),
                forall|l: int|
                    0 <= l < j ==> (#[trigger] entries@[l]) < type_getter.compiler.functions@.len()
                        && type_getter.compiler.functions@[entries@[l] as int].name@
                        == dispatch_list(decl, impl_methods)[l],
            decreases methods@.len() - j,
        {
            proof {
                assert(crate::util::strs_of(methods@).len() == methods@.len());
                assert(dispatch_list(decl, impl_methods).len() == decl.len());
                assert(0 <= j < decl.len());
                assert(crate::util::strs_of(methods@)[j as int] == methods@[j as int]@);
                assert(dispatch_list(decl, impl_methods)[j as int] == table_get(
                    impl_methods,
                    decl[j as int]@,
                )@);
                assert(table_has(impl_methods, decl[j as int]@));
                assert(crate::util::names_unique(impl_methods));
                lemma_dispatch_listed(impl_methods, decl[j as int]@);
                let c = choose|c: int|
                    0 <= c < impl_methods.len() && (#[trigger] impl_methods[c]).1@ == table_get(
                        impl_methods,
                        decl[j as int]@,
                    )@;
                let ii = impl_table_index(type_getter.syntax.implementations@, sid, tid);
                assert(0 <= ii < type_getter.syntax.implementations@.len());
                assert(type_getter.syntax.implementations@[ii].methods@[c].1@ == methods@[j as int]@);
                assert(listed_method(type_getter.syntax.implementations@, methods@[j as int]@));
                lemma_demanded_listed(type_getter.syntax, methods@[j as int]@);
            }
            let idx = type_getter.get_function(&methods[j]);
            entries.push(idx);
            j += 1;
        }
        let symbol = structure.name().concat("_vtable");
        let g = type_getter.compiler.globals.len();
        let ghost entries_v = entries@;
        type_getter.compiler.globals.push(GlobalValue { name: symbol, entries });
        proof {
            assert(type_getter.compiler.globals@[g as int].entries@ == entries_v);
            assert(entries_v.len() == methods@.len());
            assert(crate::util::strs_of(methods@).len() == methods@.len());
            assert(dispatch_list(decl, impl_methods).len() == decl.len());
            assert(entries_v.len() == decl.len());
        }
        self.data.push(VtableEntry { struct_id: sid, trait_id: tid, global: g });
        proof {
            assert forall|k1: int, k2: int|
                0 <= k1 < k2 < self.data@.len() implies !((#[trigger] self.data@[k1]).struct_id
                == (#[trigger] self.data@[k2]).struct_id && self.data@[k1].trait_id
                == self.data@[k2].trait_id) by {
                if k2 == self.data@.len() - 1 {
                    assert(self.data@[k1] == old(self).data@[k1]);
                    assert(!(old(self).data@[k1].struct_id == sid && old(self).data@[k1].trait_id
                        == tid));
                }
            }
            lemma_vtable_index_unique(self.data@, sid, tid, self.data@.len() - 1);
        }
        Ok(g)
    }
}

} // verus!
