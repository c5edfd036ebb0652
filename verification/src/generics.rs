//! The generics and trait-resolution engine: given a finalized generic
//! skeleton and concrete type arguments, it verifies every declared bound
//! and produces a specialized ground copy, cached by (definition identity,
//! argument list). A cached key is never rebuilt, so a struct layout exists
//! at most once and the constraint solver runs at most once per key.

use vstd::prelude::*;
use crate::errors::BoundError;
use crate::solver::Implementation;
use crate::structure::FinalizedStruct;
use crate::structure::IdGenerator;
use crate::structure::all_ground;
use crate::structure::all_params_ok;
use crate::structure::fields_of;
use crate::structure::params_of;
use crate::structure::params_unique;
use crate::structure::subst_fields;
use crate::types::FinalizedTypes;
use crate::types::TypeV;
use crate::types::lemma_type_eq_refl;
use crate::types::lemma_types_eq_sym;
use crate::types::lemma_types_eq_trans;
use crate::types::types_eq;
use crate::types::types_list_eq;
use crate::types::views_of;

verus! {

/// One memoized specialization: the generic definition's identity, the
/// concrete argument list, and the ground value produced for them.
#[derive(Debug)]
pub struct SpecializationEntry {
    pub definition_id: u64,
    pub arguments: Vec<FinalizedTypes>,
    pub value: FinalizedStruct,
}

/// Whether the entry memoizes the key (definition identity, argument list).
pub open spec fn entry_matches(e: SpecializationEntry, id: u64, args: Seq<TypeV>) -> bool {
    e.definition_id == id && types_eq(views_of(e.arguments@), args)
}

/// Whether some cache entry memoizes the key.
pub open spec fn cache_has(cache: Seq<SpecializationEntry>, id: u64, args: Seq<TypeV>) -> bool {
    exists|k: int| 0 <= k < cache.len() && entry_matches(#[trigger] cache[k], id, args)
}

/// The index memoizing the key.
pub open spec fn cache_index(cache: Seq<SpecializationEntry>, id: u64, args: Seq<TypeV>) -> int {
    choose|k: int| 0 <= k < cache.len() && entry_matches(#[trigger] cache[k], id, args)
}

/// The engine: its append-only cache, and how many times the constraint
/// solver has run.
#[derive(Debug)]
pub struct GenericsEngine {
    pub cache: Vec<SpecializationEntry>,
    /// How many times bound checking has run; a cache hit never raises it.
    pub solver_runs: u64,
}

impl GenericsEngine {
    /// At most one cache entry per key, and every cached value is ground.
    pub open spec fn wf(&self) -> bool {
        &&& forall|k1: int, k2: int, id: u64, args: Seq<TypeV>|
            0 <= k1 < k2 < self.cache@.len() ==> !((#[trigger] entry_matches(self.cache@[k1], id, args))
                && (#[trigger] entry_matches(self.cache@[k2], id, args)))
        &&& forall|k: int|
            0 <= k < self.cache@.len() ==> (#[trigger] self.cache@[k]).value.generics@.len() == 0
    }

    pub fn new() -> (r: Self)
        ensures
            r.wf(),
            r.cache@.len() == 0,
            r.solver_runs == 0,
    {
        GenericsEngine { cache: Vec::new(), solver_runs: 0 }
    }

    /// The memoized specialization for the key, if the key was ever built.
    #[verifier::loop_isolation(false)]
    pub fn lookup(&self, definition_id: u64, arguments: &Vec<FinalizedTypes>) -> (r: Option<usize>)
        requires
            self.wf(),
        ensures
            r is Some <==> cache_has(self.cache@, definition_id, views_of(arguments@)),
            match r {
                Some(k) => k < self.cache@.len() && entry_matches(
                    self.cache@[k as int],
                    definition_id,
                    views_of(arguments@),
                ) && k == cache_index(self.cache@, definition_id, views_of(arguments@)),
                None => true,
            },
    {
        let mut k: usize = 0;
        while k < self.cache.len()
            invariant
                k <= self.cache@.len(),
                forall|j: int|
                    0 <= j < k ==> !entry_matches(
                        #[trigger] self.cache@[j],
                        definition_id,
                        views_of(arguments@),
                    ),
            decreases self.cache@.len() - k,
        {
            if self.cache[k].definition_id == definition_id && types_list_eq(
                &self.cache[k].arguments,
                arguments,
            ) {
                proof {
                    lemma_cache_index_unique(
                        self.cache@,
                        definition_id,
                        views_of(arguments@),
                        k as int,
                    );
                }
                return Some(k);
            }
            k += 1;
        }
        None
    }

    /// Specializes `definition` for `arguments`. A key already built is
    /// answered from the cache, untouched and without running the solver
    /// again; a fresh key has every declared bound checked against its
    /// argument, in declaration order, and on the first unsatisfied bound
    /// nothing is cached and the violation is reported. A fresh success is
    /// a ground copy under a fresh identity, memoized before it is
    /// returned; a definition with no generic parameters passes through
    /// unchanged, identity included. The returned index is stable: later
    /// requests for the same key return it again.
    #[verifier::loop_isolation(false)]
    pub fn specialize(&mut self, definition: &FinalizedStruct, arguments: &Vec<FinalizedTypes>, impls: &Vec<Implementation>, ids: &mut IdGenerator) -> (r: Result<
        usize,
        BoundError,
    >)
        requires
            old(self).wf(),
            params_unique(params_of(definition.generics@)),
            arguments@.len() == definition.generics@.len(),
            all_ground(views_of(arguments@)),
            old(ids).last < u64::MAX,
            old(self).solver_runs < u64::MAX,
        ensures
            final(self).wf(),
            match r {
                Ok(k) => {
                    &&& k < final(self).cache@.len()
                    &&& entry_matches(
                        final(self).cache@[k as int],
                        definition.data.id,
                        views_of(arguments@),
                    )
                    &&& final(self).cache@[k as int].value.generics@.len() == 0
                    &&& (cache_has(
                        old(self).cache@,
                        definition.data.id,
                        views_of(arguments@),
                    ) ==> {
                        &&& *final(self) == *old(self)
                        &&& *final(ids) == *old(ids)
                        &&& k == cache_index(
                            old(self).cache@,
                            definition.data.id,
                            views_of(arguments@),
                        )
                    })
                    &&& (!cache_has(
                        old(self).cache@,
                        definition.data.id,
                        views_of(arguments@),
                    ) ==> {
                        &&& all_params_ok(
                            impls@,
                            params_of(definition.generics@),
                            views_of(arguments@),
                        )
                        &&& k == old(self).cache@.len()
                        &&& final(self).cache@.len() == old(self).cache@.len() + 1
                        &&& forall|j: int|
                            0 <= j < old(self).cache@.len() ==> final(self).cache@[j] == old(
                                self,
                            ).cache@[j]
                        &&& fields_of(final(self).cache@[k as int].value.fields@) == subst_fields(
                            fields_of(definition.fields@),
                            params_of(definition.generics@),
                            views_of(arguments@),
                        )
                        &&& (definition.generics@.len() > 0 ==> {
                            &&& final(self).cache@[k as int].value.data.id == final(ids).last
                            &&& final(ids).last == old(ids).last + 1
                        })
                        &&& (definition.generics@.len() == 0 ==> {
                            &&& final(self).cache@[k as int].value.data.id == definition.data.id
                            &&& *final(ids) == *old(ids)
                        })
                        &&& final(self).cache@[k as int].value.data.name == definition.data.name
                        &&& final(self).solver_runs == old(self).solver_runs + 1
                    })
                },
                Err(e) => {
                    &&& !cache_has(old(self).cache@, definition.data.id, views_of(arguments@))
                    &&& !all_params_ok(
                        impls@,
                        params_of(definition.generics@),
                        views_of(arguments@),
                    )
                    &&& final(self).cache == old(self).cache
                    &&& *final(ids) == *old(ids)
                    &&& final(self).solver_runs == old(self).solver_runs + 1
                    &&& exists|i: int, j: int|
                        {
                            &&& 0 <= i < params_of(definition.generics@).len()
                            &&& 0 <= j < params_of(definition.generics@)[i].bounds.len()
                            &&& !(#[trigger] crate::solver::spec_bound_ok(
                                impls@,
                                views_of(arguments@)[i],
                                params_of(definition.generics@)[i].bounds[j].id,
                            ))
                            &&& e.parameter@ == params_of(definition.generics@)[i].name
                            &&& e.required_trait@ == params_of(
                                definition.generics@,
                            )[i].bounds[j].name
                        }
                },
            },
    {
        match self.lookup(definition.data.id, arguments) {
            Some(k) => Ok(k),
            None => {
                let mut value = definition.duplicate();
                proof {
                    assert(params_of(value.generics@).len() == value.generics@.len());
                    assert(params_of(definition.generics@).len() == definition.generics@.len());
                    assert(fields_of(value.fields@).len() == value.fields@.len());
                }
                self.solver_runs = self.solver_runs + 1;
                match value.degeneric(arguments, impls) {
                    Err(e) => Err(e),
                    Ok(()) => {
                        if definition.generics.len() > 0 {
                            value.data.fix_id(ids);
                        }
                        let mut stored_args: Vec<FinalizedTypes> = Vec::new();
                        let mut i: usize = 0;
                        while i < arguments.len()
                            invariant
                                i <= arguments@.len(),
                                stored_args@.len() == i,
                                forall|j: int|
                                    0 <= j < i ==> stored_args@[j]@ == #[trigger] arguments@[j]@,
                            decreases arguments@.len() - i,
                        {
                            stored_args.push(arguments[i].duplicate());
                            i += 1;
                        }
                        proof {
                            assert forall|j: int|
                                0 <= j < views_of(stored_args@).len() implies views_of(
                                stored_args@,
                            )[j] == views_of(arguments@)[j] by {
                                assert(stored_args@[j]@ == arguments@[j]@);
                            }
                            assert(views_of(stored_args@) =~= views_of(arguments@));
                        }
                        let k = self.cache.len();
                        let entry = SpecializationEntry {
                            definition_id: definition.data.id,
                            arguments: stored_args,
                            value,
                        };
                        proof {
                            assert forall|i2: int| 0 <= i2 < views_of(arguments@).len() implies crate::types::type_eq(
                                views_of(arguments@)[i2],
                                #[trigger] views_of(arguments@)[i2],
                            ) by {
                                lemma_type_eq_refl(views_of(arguments@)[i2]);
                            }
                            assert(entry_matches(entry, definition.data.id, views_of(arguments@)));
                        }
                        self.cache.push(entry);
                        proof {
                            lemma_push_keeps_unique(
                                old(self).cache@,
                                self.cache@[k as int],
                                definition.data.id,
                                views_of(arguments@),
                            );
                        }
                        Ok(k)
                    },
                }
            },
        }
    }
}

/// With a well-formed cache, any index memoizing a key is `cache_index`:
/// a key is memoized at most once, so repeated requests return the same
/// specialization, not a second layout.
pub proof fn lemma_cache_index_unique(
    cache: Seq<SpecializationEntry>,
    id: u64,
    args: Seq<TypeV>,
    k: int,
)
    requires
        forall|k1: int, k2: int, id2: u64, args2: Seq<TypeV>|
            0 <= k1 < k2 < cache.len() ==> !((#[trigger] entry_matches(cache[k1], id2, args2))
                && (#[trigger] entry_matches(cache[k2], id2, args2))),
        0 <= k < cache.len(),
        entry_matches(cache[k], id, args),
    ensures
        cache_has(cache, id, args),
        cache_index(cache, id, args) == k,
{
    let j = cache_index(cache, id, args);
    if j < k {
        assert(!(entry_matches(cache[j], id, args) && entry_matches(cache[k], id, args)));
    } else if k < j {
        assert(!(entry_matches(cache[k], id, args) && entry_matches(cache[j], id, args)));
    }
}

/// Appending an entry for a key the cache does not hold keeps the cache
/// at-most-once per key.
proof fn lemma_push_keeps_unique(
    cache: Seq<SpecializationEntry>,
    entry: SpecializationEntry,
    id: u64,
    args: Seq<TypeV>,
)
    requires
        forall|k1: int, k2: int, id2: u64, args2: Seq<TypeV>|
            0 <= k1 < k2 < cache.len() ==> !((#[trigger] entry_matches(cache[k1], id2, args2))
                && (#[trigger] entry_matches(cache[k2], id2, args2))),
        !cache_has(cache, id, args),
        entry_matches(entry, id, args),
    ensures
        forall|k1: int, k2: int, id2: u64, args2: Seq<TypeV>|
            0 <= k1 < k2 < cache.push(entry).len() ==> !((#[trigger] entry_matches(
                cache.push(entry)[k1],
                id2,
                args2,
            )) && (#[trigger] entry_matches(cache.push(entry)[k2], id2, args2))),
{
    assert forall|k1: int, k2: int, id2: u64, args2: Seq<TypeV>|
        0 <= k1 < k2 < cache.push(entry).len() implies !((#[trigger] entry_matches(
        cache.push(entry)[k1],
        id2,
        args2,
    )) && (#[trigger] entry_matches(cache.push(entry)[k2], id2, args2))) by {
        if k2 == cache.len() {
            if entry_matches(cache[k1], id2, args2) && entry_matches(entry, id2, args2) {
                assert(cache[k1].definition_id == id && entry.definition_id == id2 && id == id2);
                lemma_types_eq_sym(views_of(entry.arguments@), args2);
                lemma_types_eq_trans(args2, views_of(entry.arguments@), args);
                lemma_types_eq_sym(views_of(entry.arguments@), args);
                lemma_types_eq_trans(
                    views_of(cache[k1].arguments@),
                    args2,
                    views_of(entry.arguments@),
                );
                lemma_types_eq_trans(
                    views_of(cache[k1].arguments@),
                    views_of(entry.arguments@),
                    args,
                );
                assert(entry_matches(cache[k1], id, args));
                assert(cache_has(cache, id, args));
            }
        }
    }
}

} // verus!
