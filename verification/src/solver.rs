//! The trait-bound constraint capability the generics engine relies on:
//! `is_subtype` and `satisfies_bound`, answered against the verified
//! implementation relation that the verification phase produces. Any solver
//! answering these two queries conforms; this one reads the relation
//! directly.

use vstd::prelude::*;
use crate::types::FinalizedTypes;
use crate::types::TypeV;
use crate::types::spec_inner_id;
use crate::types::type_eq;
use crate::types::is_ground;

verus! {

/// One entry of the verified implementation relation: the implementing
/// struct, the implemented trait, and the method implementations the struct
/// provides, each under the trait-declared method name it implements.
/// The order of `methods` is whatever order the source declared them in;
/// nothing downstream may rely on it.
#[derive(Debug)]
pub struct Implementation {
    pub struct_id: u64,
    pub trait_id: u64,
    /// Pairs of (trait-declared method name, implementing function name).
    pub methods: Vec<(String, String)>,
}

/// A struct satisfies a trait when the relation holds an entry for the pair,
/// or when the "trait" is the struct itself.
pub open spec fn spec_satisfies(impls: Seq<Implementation>, struct_id: u64, trait_id: u64) -> bool {
    struct_id == trait_id || exists|k: int|
        0 <= k < impls.len() && impls[k].struct_id == struct_id && #[trigger] impls[k].trait_id
            == trait_id
}

/// A ground argument type satisfies a bound when the struct under its
/// references satisfies the bound's trait.
pub open spec fn spec_bound_ok(impls: Seq<Implementation>, arg: TypeV, bound_id: u64) -> bool {
    spec_satisfies(impls, spec_inner_id(arg), bound_id)
}

/// Whether `child` may stand where `parent` is expected: the same type by
/// identity, or an implementor of `parent`'s trait.
pub fn is_subtype(impls: &Vec<Implementation>, child: &FinalizedTypes, parent: &FinalizedTypes) -> (r: bool)
    requires
        is_ground(child@),
        is_ground(parent@),
    ensures
        r == (type_eq(child@, parent@) || spec_satisfies(
            impls@,
            spec_inner_id(child@),
            spec_inner_id(parent@),
        )),
{
    if child.same_as(parent) {
        return true;
    }
    satisfies_bound(impls, child, parent.inner_id())
}

/// Whether the ground type `arg` satisfies the trait bound `bound_id`.
#[verifier::loop_isolation(false)]
pub fn satisfies_bound(impls: &Vec<Implementation>, arg: &FinalizedTypes, bound_id: u64) -> (r: bool)
    requires
        is_ground(arg@),
    ensures
        r == spec_bound_ok(impls@, arg@, bound_id),
{
    let arg_id = arg.inner_id();
    if arg_id == bound_id {
        return true;
    }
    let mut k: usize = 0;
    while k < impls.len()
        invariant
            k <= impls@.len(),
            forall|j: int|
                0 <= j < k ==> !(impls@[j].struct_id == arg_id && #[trigger] impls@[j].trait_id
                    == bound_id),
        decreases impls@.len() - k,
    {
        if impls[k].struct_id == arg_id && impls[k].trait_id == bound_id {
            return true;
        }
        k += 1;
    }
    false
}

} // verus!
