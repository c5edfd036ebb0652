//! The session-wide syntax state: the struct directory, the finalized
//! function table, the verified implementation relation consumed from the
//! verification phase, the declared method order of every trait, the
//! built-in definitions, and the identity source.

use vstd::prelude::*;
use crate::directory::AsyncGetter;
use crate::errors::CompileError;
use crate::function::FinalizedFunction;
use crate::solver::Implementation;
use crate::structure::IdGenerator;
use crate::structure::StructData;
use crate::structure::make_internal_types;
use crate::types::FinalizedTypes;
use crate::types::is_ground;
use crate::types::spec_inner_id;
use crate::types::spec_type_name;
use crate::util::lemma_table_get_unique;
use crate::util::names_unique;
use crate::util::strs_of;
use crate::util::table_find;
use crate::util::table_get;
use crate::util::table_has;

verus! {

/// Trait ids never repeat in the trait-method table.
pub open spec fn trait_ids_unique(s: Seq<(u64, Vec<String>)>) -> bool {
    forall|i: int, j: int| 0 <= i < j < s.len() ==> s[i].0 != s[j].0
}

/// Some trait-method entry carries the id `t`.
pub open spec fn trait_table_has(s: Seq<(u64, Vec<String>)>, t: u64) -> bool {
    exists|i: int| 0 <= i < s.len() && s[i].0 == t
}

/// The declared method names of the trait `t`, in declaration order.
pub open spec fn trait_table_get(s: Seq<(u64, Vec<String>)>, t: u64) -> Vec<String> {
    s[choose|i: int| 0 <= i < s.len() && s[i].0 == t].1
}

/// With unique ids, any entry carrying `t` holds `trait_table_get`'s value.
pub proof fn lemma_trait_table_get_unique(s: Seq<(u64, Vec<String>)>, t: u64, i: int)
    requires
        trait_ids_unique(s),
        0 <= i < s.len(),
        s[i].0 == t,
    ensures
        trait_table_has(s, t),
        trait_table_get(s, t) == s[i].1,
{
    let j = choose|j: int| 0 <= j < s.len() && s[j].0 == t;
    if i < j {
        assert(s[i].0 != s[j].0);
    } else if j < i {
        assert(s[j].0 != s[i].0);
    }
}

/// The implementation relation holds at most one entry per
/// (struct, trait) pair.
pub open spec fn impls_unique(s: Seq<Implementation>) -> bool {
    forall|i: int, j: int|
        0 <= i < j < s.len() ==> !((#[trigger] s[i]).struct_id == (#[trigger] s[j]).struct_id
            && s[i].trait_id == s[j].trait_id)
}

/// The relation holds an entry for the pair.
pub open spec fn impl_table_has(s: Seq<Implementation>, struct_id: u64, trait_id: u64) -> bool {
    exists|i: int|
        0 <= i < s.len() && (#[trigger] s[i]).struct_id == struct_id && s[i].trait_id == trait_id
}

/// The index of the pair's entry.
pub open spec fn impl_table_index(s: Seq<Implementation>, struct_id: u64, trait_id: u64) -> int {
    choose|i: int|
        0 <= i < s.len() && (#[trigger] s[i]).struct_id == struct_id && s[i].trait_id == trait_id
}

/// With a unique relation, any entry for the pair stands at
/// `impl_table_index`.
pub proof fn lemma_impl_table_index_unique(s: Seq<Implementation>, struct_id: u64, trait_id: u64, i: int)
    requires
        impls_unique(s),
        0 <= i < s.len(),
        s[i].struct_id == struct_id,
        s[i].trait_id == trait_id,
    ensures
        impl_table_has(s, struct_id, trait_id),
        impl_table_index(s, struct_id, trait_id) == i,
{
    let j = impl_table_index(s, struct_id, trait_id);
}

/// Every declared method has an implementation in the methods table.
pub open spec fn dispatch_ok(decl: Seq<String>, methods: Seq<(String, String)>) -> bool {
    forall|j: int| 0 <= j < decl.len() ==> table_has(methods, (#[trigger] decl[j])@)
}

/// The implementing function names in trait-declared method order: position
/// `j` implements the `j`-th declared method. Well-defined whatever order
/// the implementation stored its methods in.
pub open spec fn dispatch_list(decl: Seq<String>, methods: Seq<(String, String)>) -> Seq<Seq<char>> {
    Seq::new(decl.len(), |j: int| table_get(methods, decl[j]@)@)
}

/// The dispatch list depends only on the name-to-implementation mapping,
/// never on the order an implementation declared its methods in: two
/// implementations answering alike yield the same table, entry for entry,
/// in trait-declared order.
pub proof fn lemma_dispatch_order_independent(
    decl: Seq<String>,
    m1: Seq<(String, String)>,
    m2: Seq<(String, String)>,
)
    requires
        forall|n: Seq<char>| #[trigger] table_has(m1, n) == table_has(m2, n),
        forall|n: Seq<char>|
            table_has(m1, n) ==> (#[trigger] table_get(m1, n))@ == table_get(m2, n)@,
        dispatch_ok(decl, m1),
    ensures
        dispatch_ok(decl, m2),
        dispatch_list(decl, m1) == dispatch_list(decl, m2),
{
    assert forall|j: int| 0 <= j < decl.len() implies table_has(m2, (#[trigger] decl[j])@) by {
        assert(table_has(m1, decl[j]@));
    }
    assert forall|j: int|
        0 <= j < decl.len() implies #[trigger] dispatch_list(decl, m1)[j] == dispatch_list(
        decl,
        m2,
    )[j] by {
        assert(table_has(m1, decl[j]@));
    }
    assert(dispatch_list(decl, m1) =~= dispatch_list(decl, m2));
}

/// The session-wide syntax state.
#[derive(Debug)]
pub struct Syntax {
    /// The struct directory, with its forward-reference machinery.
    pub structures: AsyncGetter,
    /// Finalized functions, by name; the codegen driver demands them.
    pub functions: Vec<(String, FinalizedFunction)>,
    /// The verified implementation relation, one entry per
    /// (struct, trait) pair.
    pub implementations: Vec<Implementation>,
    /// Each trait's declared method names, in declaration order, by id.
    pub trait_methods: Vec<(u64, Vec<String>)>,
    /// The built-in primitive definitions, registered at session start.
    pub internals: Vec<StructData>,
    /// The identity source every definition of this session draws from.
    pub ids: IdGenerator,
}

impl Syntax {
    /// Everything the contracts rely on: unique finalized names, a unique
    /// implementation relation, unique trait ids, unique function names.
    pub open spec fn wf(&self) -> bool {
        &&& self.structures.wf()
        &&& names_unique(self.functions@)
        &&& impls_unique(self.implementations@)
        &&& trait_ids_unique(self.trait_methods@)
        &&& forall|i: int|
            0 <= i < self.implementations@.len() ==> names_unique(
                (#[trigger] self.implementations@[i]).methods@,
            )
    }

    /// A fresh session: empty directory, the built-in definitions
    /// registered, identities 1 through 12 taken by them.
    pub fn new() -> (r: Self)
        ensures
            r.wf(),
            r.functions@.len() == 0,
            r.implementations@.len() == 0,
            r.trait_methods@.len() == 0,
            r.internals@.len() == 12,
            r.ids.last == 12,
            forall|k: int| 0 <= k < 12 ==> (#[trigger] r.internals@[k].id) == 1 + k,
            forall|k: int|
                0 <= k < 12 ==> (#[trigger] r.internals@[k].modifiers)
                    == crate::structure::MODIFIER_INTERNAL,
            forall|k: int| 0 <= k < 12 ==> (#[trigger] r.internals@[k].poisoned@.len()) == 0,
            r.internals@[0].name@ == "i64"@,
            r.internals@[1].name@ == "i32"@,
            r.internals@[2].name@ == "i16"@,
            r.internals@[3].name@ == "i8"@,
            r.internals@[4].name@ == "f64"@,
            r.internals@[5].name@ == "f32"@,
            r.internals@[6].name@ == "u64"@,
            r.internals@[7].name@ == "u32"@,
            r.internals@[8].name@ == "u16"@,
            r.internals@[9].name@ == "u8"@,
            r.internals@[10].name@ == "bool"@,
            r.internals@[11].name@ == "str"@,
            r.structures.data@.len() == 0,
            r.structures.unfinalized@.len() == 0,
            r.structures.wakers@.len() == 0,
    {
        let mut ids = IdGenerator::new();
        let internals = make_internal_types(&mut ids);
        Syntax {
            structures: AsyncGetter::new(),
            functions: Vec::new(),
            implementations: Vec::new(),
            trait_methods: Vec::new(),
            internals,
            ids,
        }
    }

    /// Adds a finalized function under its name.
    pub fn add_function(&mut self, name: String, function: FinalizedFunction)
        requires
            old(self).wf(),
            !table_has(old(self).functions@, name@),
        ensures
            final(self).wf(),
            final(self).functions@ == old(self).functions@.push((name, function)),
            final(self).structures == old(self).structures,
            final(self).implementations == old(self).implementations,
            final(self).trait_methods == old(self).trait_methods,
            final(self).internals == old(self).internals,
            final(self).ids == old(self).ids,
    {
        self.functions.push((name, function));
    }

    /// The finalized function under `name`, if any.
    pub fn get_function(&self, name: &String) -> (r: Option<&FinalizedFunction>)
        requires
            self.wf(),
        ensures
            r is Some <==> table_has(self.functions@, name@),
            match r {
                Some(f) => *f == table_get(self.functions@, name@),
                None => true,
            },
    {
        match table_find(&self.functions, name) {
            Some(i) => {
                proof {
                    lemma_table_get_unique(self.functions@, name@, i as int);
                }
                Some(&self.functions[i].1)
            },
            None => None,
        }
    }

    /// Records a trait's declared method order.
    pub fn add_trait_methods(&mut self, trait_id: u64, methods: Vec<String>)
        requires
            old(self).wf(),
            !trait_table_has(old(self).trait_methods@, trait_id),
        ensures
            final(self).wf(),
            final(self).trait_methods@ == old(self).trait_methods@.push((trait_id, methods)),
            final(self).structures == old(self).structures,
            final(self).functions == old(self).functions,
            final(self).implementations == old(self).implementations,
            final(self).internals == old(self).internals,
            final(self).ids == old(self).ids,
    {
        self.trait_methods.push((trait_id, methods));
    }

    /// Records one verified implementation entry.
    pub fn add_implementation(&mut self, implementation: Implementation)
        requires
            old(self).wf(),
            names_unique(implementation.methods@),
            !impl_table_has(
                old(self).implementations@,
                implementation.struct_id,
                implementation.trait_id,
            ),
        ensures
            final(self).wf(),
            final(self).implementations@ == old(self).implementations@.push(implementation),
            final(self).structures == old(self).structures,
            final(self).functions == old(self).functions,
            final(self).trait_methods == old(self).trait_methods,
            final(self).internals == old(self).internals,
            final(self).ids == old(self).ids,
    {
        self.implementations.push(implementation);
    }

    /// The index of the trait-method entry for `tid`, if any.
    fn find_trait_entry(&self, tid: u64) -> (r: Option<usize>)
        ensures
            match r {
                Some(i) => i < self.trait_methods@.len() && self.trait_methods@[i as int].0 == tid,
                None => !trait_table_has(self.trait_methods@, tid),
            },
    {
        let mut k: usize = 0;
        while k < self.trait_methods.len()
            invariant
                k <= self.trait_methods@.len(),
                forall|j: int| 0 <= j < k ==> self.trait_methods@[j].0 != tid,
            decreases self.trait_methods@.len() - k,
        {
            if self.trait_methods[k].0 == tid {
                return Some(k);
            }
            k += 1;
        }
        None
    }

    /// The index of the relation entry for the pair, if any.
    fn find_impl_entry(&self, sid: u64, tid: u64) -> (r: Option<usize>)
        ensures
            match r {
                Some(i) => i < self.implementations@.len() && self.implementations@[i as int].struct_id
                    == sid && self.implementations@[i as int].trait_id == tid,
                None => !impl_table_has(self.implementations@, sid, tid),
            },
    {
        let mut m: usize = 0;
        while m < self.implementations.len()
            invariant
                m <= self.implementations@.len(),
                forall|j: int|
                    0 <= j < m ==> !((#[trigger] self.implementations@[j]).struct_id == sid
                        && self.implementations@[j].trait_id == tid),
            decreases self.implementations@.len() - m,
        {
            if self.implementations[m].struct_id == sid && self.implementations[m].trait_id == tid {
                return Some(m);
            }
            m += 1;
        }
        None
    }

    /// The ordered method implementations `structure` provides for the trait
    /// `target`: one implementing function name per declared method, in the
    /// trait's declared order. A pair absent from the relation, or a
    /// declared method with no implementation, is a verification-phase bug:
    /// code generation must abort on it, never emit a partial table.
    #[verifier::loop_isolation(false)]
    pub fn get_implementation_methods(&self, structure: &FinalizedTypes, target: &FinalizedTypes) -> (r: Result<
        Vec<String>,
        CompileError,
    >)
        requires
            self.wf(),
            is_ground(structure@),
            is_ground(target@),
        ensures
            r is Ok <==> {
                &&& trait_table_has(self.trait_methods@, spec_inner_id(target@))
                &&& impl_table_has(
                    self.implementations@,
                    spec_inner_id(structure@),
                    spec_inner_id(target@),
                )
                &&& dispatch_ok(
                    trait_table_get(self.trait_methods@, spec_inner_id(target@))@,
                    self.implementations@[impl_table_index(
                        self.implementations@,
                        spec_inner_id(structure@),
                        spec_inner_id(target@),
                    )].methods@,
                )
            },
            match r {
                Ok(v) => strs_of(v@) == dispatch_list(
                    trait_table_get(self.trait_methods@, spec_inner_id(target@))@,
                    self.implementations@[impl_table_index(
                        self.implementations@,
                        spec_inner_id(structure@),
                        spec_inner_id(target@),
                    )].methods@,
                ),
                Err(e) => e matches CompileError::InternalDispatchError {
                    structure: s,
                    target: t,
                    missing_method: _,
                } && s@ == spec_type_name(structure@) && t@ == spec_type_name(target@),
            },
    {
        let sid = structure.inner_id();
        let tid = target.inner_id();
        let decl_k = match self.find_trait_entry(tid) {
            Some(k2) => k2,
            None => {
                return Err(
                    CompileError::InternalDispatchError {
                        structure: structure.name(),
                        target: target.name(),
                        missing_method: String::new(),
                    },
                );
            },
        };
        proof {
            lemma_trait_table_get_unique(self.trait_methods@, tid, decl_k as int);
        }
        let impl_k = match self.find_impl_entry(sid, tid) {
            Some(m2) => m2,
            None => {
                return Err(
                    CompileError::InternalDispatchError {
                        structure: structure.name(),
                        target: target.name(),
                        missing_method: String::new(),
                    },
                );
            },
        };
        proof {
            lemma_impl_table_index_unique(self.implementations@, sid, tid, impl_k as int);
        }
        let ghost decl = self.trait_methods@[decl_k as int].1@;
        let ghost methods = self.implementations@[impl_k as int].methods@;
        let mut out: Vec<String> = Vec::new();
        let mut j: usize = 0;
        let decl_len = self.trait_methods[decl_k].1.len();
        while j < decl_len
            invariant
                j <= decl_len,
                decl_len == decl.len(),
                decl == self.trait_methods@[decl_k as int].1@,
                methods == self.implementations@[impl_k as int].methods@,
                decl_k < self.trait_methods@.len(),
                impl_k < self.implementations@.len(),
                out@.len() == j,
                forall|l: int| 0 <= l < j ==> table_has(methods, (#[trigger] decl[l])@),
                forall|l: int| 0 <= l < j ==> (#[trigger] out@[l])@ == table_get(methods, decl[l]@)@,
            decreases decl_len - j,
        {
            match table_find(&self.implementations[impl_k].methods, &self.trait_methods[decl_k].1[j]) {
                Some(pos) => {
                    proof {
                        lemma_table_get_unique(methods, decl[j as int]@, pos as int);
                    }
                    out.push(self.implementations[impl_k].methods[pos].1.clone());
                },
                None => {
                    proof {
                        assert(!table_has(methods, decl[j as int]@));
                        assert(!dispatch_ok(decl, methods));
                    }
                    return Err(
                        CompileError::InternalDispatchError {
                            structure: structure.name(),
                            target: target.name(),
                            missing_method: self.trait_methods[decl_k].1[j].clone(),
                        },
                    );
                },
            }
            j += 1;
        }
        proof {
            assert(strs_of(out@) =~= dispatch_list(decl, methods));
        }
        Ok(out)
    }
}

} // verus!
