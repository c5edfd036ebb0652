//! The process-wide symbol directory. Top-level elements land here
//! unfinalized as they are parsed; verification finalizes each exactly once.
//! A reference to a name not yet present registers a waiter, and the
//! finalization that introduces the name wakes every waiter registered for
//! it, exactly once each, before anything else observes the entry. A session
//! completion sweep turns waiters for names that never materialized into
//! `SymbolNotFound` errors instead of letting them hang.

use vstd::prelude::*;
use crate::errors::CompileError;
use crate::structure::FinalizedStruct;
use crate::structure::StructData;
use crate::util::lemma_table_get_unique;
use crate::util::names_unique;
use crate::util::table_find;
use crate::util::table_get;
use crate::util::table_has;

verus! {

/// The waiters registered for `n`, in registration order: the ids of every
/// suspended resolution future that must be woken when `n` is finalized.
pub open spec fn waiters_of(wakers: Seq<(String, u64)>, n: Seq<char>) -> Seq<u64>
    decreases wakers.len(),
{
    if wakers.len() == 0 {
        Seq::empty()
    } else {
        let rest = waiters_of(wakers.drop_last(), n);
        if wakers.last().0@ == n {
            rest.push(wakers.last().1)
        } else {
            rest
        }
    }
}

/// One kind of top-level element's directory: unfinalized entries as parsed,
/// finalized entries as verified, and the waiters registered for names
/// referenced before they are defined.
#[derive(Debug)]
pub struct AsyncGetter {
    /// Freshly parsed definitions, not yet verified, in arrival order.
    pub unfinalized: Vec<(String, StructData)>,
    /// Verified, monomorphization-ready entries; a name is finalized at most
    /// once, so names never repeat.
    pub data: Vec<(String, FinalizedStruct)>,
    /// Each suspended resolution future, as the name it waits for and the
    /// waiting future's id, in registration order.
    pub wakers: Vec<(String, u64)>,
}

impl AsyncGetter {
    /// The directory's structural invariant: a name is finalized at most
    /// once.
    pub open spec fn wf(&self) -> bool {
        names_unique(self.data@)
    }

    pub fn new() -> (r: Self)
        ensures
            r.wf(),
            r.unfinalized@.len() == 0,
            r.data@.len() == 0,
            r.wakers@.len() == 0,
    {
        AsyncGetter { unfinalized: Vec::new(), data: Vec::new(), wakers: Vec::new() }
    }

    /// Inserts a freshly parsed, unfinalized definition. Insertion is total:
    /// duplicates and errors are dealt with by poisoning, later.
    pub fn register(&mut self, name: String, definition: StructData)
        ensures
            final(self).unfinalized@ == old(self).unfinalized@.push((name, definition)),
            final(self).data == old(self).data,
            final(self).wakers == old(self).wakers,
            old(self).wf() ==> final(self).wf(),
    {
        self.unfinalized.push((name, definition));
    }

    /// Whether `name` is present at all, finalized or not.
    pub fn contains(&self, name: &String) -> (r: bool)
        ensures
            r == (table_has(self.unfinalized@, name@) || table_has(self.data@, name@)),
    {
        match table_find(&self.unfinalized, name) {
            Some(_) => true,
            None => table_find(&self.data, name).is_some(),
        }
    }

    /// The unfinalized definition most recently registered under `name`.
    pub fn get_unfinalized(&self, name: &String) -> (r: Option<&StructData>)
        ensures
            r is Some <==> table_has(self.unfinalized@, name@),
            match r {
                Some(v) => exists|i: int|
                    0 <= i < self.unfinalized@.len() && self.unfinalized@[i].0@ == name@ && *v
                        == self.unfinalized@[i].1,
                None => true,
            },
    {
        match table_find(&self.unfinalized, name) {
            Some(i) => Some(&self.unfinalized[i].1),
            None => None,
        }
    }

    /// The finalized entry under `name`, if any.
    pub fn get_finalized(&self, name: &String) -> (r: Option<&FinalizedStruct>)
        requires
            self.wf(),
        ensures
            r is Some <==> table_has(self.data@, name@),
            match r {
                Some(v) => *v == table_get(self.data@, name@),
                None => true,
            },
    {
        match table_find(&self.data, name) {
            Some(i) => {
                proof {
                    lemma_table_get_unique(self.data@, name@, i as int);
                }
                Some(&self.data[i].1)
            },
            None => None,
        }
    }

    /// One step of a resolution future: if `name` is present the future
    /// resolves now and the directory is untouched; otherwise the caller is
    /// registered as a waiter and the future suspends.
    pub fn resolve(&mut self, name: &String, waiter: u64) -> (r: bool)
        ensures
            r == (table_has(old(self).unfinalized@, name@) || table_has(old(self).data@, name@)),
            r ==> *final(self) == *old(self),
            !r ==> {
                &&& final(self).unfinalized == old(self).unfinalized
                &&& final(self).data == old(self).data
                &&& final(self).wakers@.len() == old(self).wakers@.len() + 1
                &&& final(self).wakers@.drop_last() == old(self).wakers@
                &&& final(self).wakers@.last().0@ == name@
                &&& final(self).wakers@.last().1 == waiter
                &&& waiters_of(final(self).wakers@, name@) == waiters_of(
                    old(self).wakers@,
                    name@,
                ).push(waiter)
                &&& forall|m: Seq<char>|
                    m != name@ ==> waiters_of(final(self).wakers@, m) == waiters_of(
                        old(self).wakers@,
                        m,
                    )
            },
            old(self).wf() ==> final(self).wf(),
    {
        if self.contains(name) {
            return true;
        }
        self.wakers.push((name.clone(), waiter));
        proof {
            assert(self.wakers@.drop_last() =~= old(self).wakers@);
        }
        false
    }

    /// Finalizes `name`: inserts the verified value and hands back every
    /// waiter registered for `name`, in registration order, their entries
    /// drained, so the caller can wake each exactly once. Insertion and
    /// drain happen under the same exclusive access, so no waiter can
    /// observe a half-finalized entry.
    #[verifier::loop_isolation(false)]
    pub fn finalize(&mut self, name: String, value: FinalizedStruct) -> (woken: Vec<u64>)
        requires
            old(self).wf(),
            !table_has(old(self).data@, name@),
        ensures
            final(self).wf(),
            final(self).unfinalized == old(self).unfinalized,
            final(self).data@ == old(self).data@.push((name, value)),
            table_has(final(self).data@, name@),
            table_get(final(self).data@, name@) == value,
            woken@ == waiters_of(old(self).wakers@, name@),
            waiters_of(final(self).wakers@, name@) == Seq::<u64>::empty(),
            forall|m: Seq<char>|
                m != name@ ==> waiters_of(final(self).wakers@, m) == waiters_of(
                    old(self).wakers@,
                    m,
                ),
    {
        let mut woken: Vec<u64> = Vec::new();
        let mut kept: Vec<(String, u64)> = Vec::new();
        let mut i: usize = 0;
        while i < self.wakers.len()
            invariant
                i <= self.wakers@.len(),
                self.wakers == old(self).wakers,
                woken@ == waiters_of(self.wakers@.subrange(0, i as int), name@),
                waiters_of(kept@, name@) == Seq::<u64>::empty(),
                forall|m: Seq<char>|
                    m != name@ ==> waiters_of(kept@, m) == waiters_of(
                        self.wakers@.subrange(0, i as int),
                        m,
                    ),
            decreases self.wakers@.len() - i,
        {
            let ghost prefix = self.wakers@.subrange(0, i as int);
            let ghost new_prefix = self.wakers@.subrange(0, i as int + 1);
            proof {
                assert(new_prefix.drop_last() =~= prefix);
                assert(new_prefix.last() == self.wakers@[i as int]);
            }
            let ghost kept_before = kept@;
            let entry_name_matches = self.wakers[i].0 == name;
            if entry_name_matches {
                woken.push(self.wakers[i].1);
            } else {
                let waiter = self.wakers[i].1;
                let moved_name = self.wakers[i].0.clone();
                kept.push((moved_name, waiter));
                proof {
                    assert(kept@.drop_last() =~= kept_before);
                    assert(kept@.last() == self.wakers@[i as int]);
                }
            }
            proof {
                assert forall|m: Seq<char>| m != name@ implies waiters_of(kept@, m)
                    == waiters_of(new_prefix, m) by {
                    assert(new_prefix.drop_last() =~= prefix);
                    assert(waiters_of(new_prefix, m) == if self.wakers@[i as int].0@ == m {
                        waiters_of(prefix, m).push(self.wakers@[i as int].1)
                    } else {
                        waiters_of(prefix, m)
                    });
                    if entry_name_matches {
                        assert(self.wakers@[i as int].0@ == name@);
                        assert(kept@ == kept_before);
                    } else {
                        assert(kept@.drop_last() =~= kept_before);
                        assert(kept@.last() == self.wakers@[i as int]);
                        assert(waiters_of(kept@, m) == if self.wakers@[i as int].0@ == m {
                            waiters_of(kept_before, m).push(self.wakers@[i as int].1)
                        } else {
                            waiters_of(kept_before, m)
                        });
                    }
                }
                assert(waiters_of(kept@, name@) == Seq::<u64>::empty());
                assert(woken@ == waiters_of(new_prefix, name@));
            }
            i += 1;
        }
        proof {
            assert(self.wakers@.subrange(0, self.wakers@.len() as int) =~= self.wakers@);
        }
        self.wakers = kept;
        let ghost data_before = self.data@;
        self.data.push((name, value));
        proof {
            lemma_table_get_unique(self.data@, name@, data_before.len() as int);
        }
        woken
    }

    /// The session-level completion check: every still-suspended waiter is
    /// resolved to a `SymbolNotFound` error for the name it waited on,
    /// instead of blocking forever. The directory keeps its entries; the
    /// waiter list is drained.
    pub fn complete_session(&mut self) -> (unresolved: Vec<(u64, CompileError)>)
        ensures
            final(self).unfinalized == old(self).unfinalized,
            final(self).data == old(self).data,
            final(self).wakers@.len() == 0,
            unresolved@.len() == old(self).wakers@.len(),
            forall|k: int|
                0 <= k < unresolved@.len() ==> {
                    &&& (#[trigger] unresolved@[k]).0 == old(self).wakers@[k].1
                    &&& unresolved@[k].1 matches CompileError::SymbolNotFound { name } && name@
                        == old(self).wakers@[k].0@
                },
            old(self).wf() ==> final(self).wf(),
    {
        let mut unresolved: Vec<(u64, CompileError)> = Vec::new();
        let mut i: usize = 0;
        while i < self.wakers.len()
            invariant
                i <= self.wakers@.len(),
                self.wakers == old(self).wakers,
                unresolved@.len() == i,
                forall|k: int|
                    0 <= k < i ==> {
                        &&& (#[trigger] unresolved@[k]).0 == self.wakers@[k].1
                        &&& unresolved@[k].1 matches CompileError::SymbolNotFound { name } && name@
                            == self.wakers@[k].0@
                    },
            decreases self.wakers@.len() - i,
        {
            let waiter = self.wakers[i].1;
            let missing = self.wakers[i].0.clone();
            unresolved.push((waiter, CompileError::SymbolNotFound { name: missing }));
            i += 1;
        }
        self.wakers = Vec::new();
        unresolved
    }
}

/// Defining B before A, where A references B, resolves identically to
/// defining A before B: the order in which two distinct names are finalized
/// does not change what any later resolution observes.
pub proof fn lemma_forward_reference_order(
    d: Seq<(String, FinalizedStruct)>,
    a: (String, FinalizedStruct),
    b: (String, FinalizedStruct),
    n: Seq<char>,
)
    requires
        names_unique(d),
        a.0@ != b.0@,
        !table_has(d, a.0@),
        !table_has(d, b.0@),
    ensures
        table_has(d.push(a).push(b), n) == table_has(d.push(b).push(a), n),
        table_has(d.push(a).push(b), n) ==> table_get(d.push(a).push(b), n) == table_get(
            d.push(b).push(a),
            n,
        ),
{
    let ab = d.push(a).push(b);
    let ba = d.push(b).push(a);
    assert(names_unique(ab));
    assert(names_unique(ba));
    if table_has(ab, n) {
        let i = choose|i: int| 0 <= i < ab.len() && ab[i].0@ == n;
        if i < d.len() {
            lemma_table_get_unique(ab, n, i);
            lemma_table_get_unique(ba, n, i);
        } else if i == d.len() {
            lemma_table_get_unique(ab, n, i);
            lemma_table_get_unique(ba, n, d.len() as int + 1);
        } else {
            lemma_table_get_unique(ab, n, i);
            lemma_table_get_unique(ba, n, d.len() as int);
        }
    }
    if table_has(ba, n) {
        let i = choose|i: int| 0 <= i < ba.len() && ba[i].0@ == n;
        if i < d.len() {
            lemma_table_get_unique(ab, n, i);
        } else if i == d.len() {
            lemma_table_get_unique(ab, n, d.len() as int + 1);
        } else {
            lemma_table_get_unique(ab, n, d.len() as int);
        }
    }
}

} // verus!
