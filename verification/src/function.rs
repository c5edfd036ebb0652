//! Function definitions in their finalized, monomorphization-ready form.

use vstd::prelude::*;
use crate::backend::Intrinsic;
use crate::blocks::CodeBody;
use crate::errors::BoundError;
use crate::errors::ParsingError;
use crate::solver::Implementation;
use crate::solver::spec_bound_ok;
use crate::solver::satisfies_bound;
use crate::structure::Attribute;
use crate::structure::FinalizedMemberField;
use crate::structure::FieldV;
use crate::structure::GenericParam;
use crate::structure::all_ground;
use crate::structure::all_params_ok;
use crate::structure::fields_of;
use crate::structure::param_ok;
use crate::structure::params_of;
use crate::structure::params_unique;
use crate::structure::subst_fields;
use crate::structure::subst_type;
use crate::structure::substitute_type;
use crate::types::FinalizedTypes;
use crate::types::spec_type_name;
use crate::types::views_of;

verus! {

/// The identity-bearing header of a function definition.
#[derive(Debug)]
pub struct FunctionData {
    pub modifiers: u8,
    /// Process-unique identity; the equality and cache key.
    pub id: u64,
    pub name: String,
    pub attributes: Vec<Attribute>,
    /// Errors accumulated while parsing or verifying; non-empty means the
    /// definition is poisoned and must not be compiled.
    pub poisoned: Vec<ParsingError>,
}

/// A fully type-checked function: either ground, or a generic skeleton
/// awaiting specialization.
#[derive(Debug)]
pub struct FinalizedFunction {
    /// Declared generic parameters in declaration order; empty means ground.
    pub generics: Vec<GenericParam>,
    /// Parameters, in declaration order.
    pub fields: Vec<FinalizedMemberField>,
    pub return_type: Option<FinalizedTypes>,
    /// The body to lower; ignored when `intrinsic` is set.
    pub code: CodeBody,
    /// The built-in operation this function lowers to, resolved once from
    /// its name at definition time; `None` for ordinary user functions.
    pub intrinsic: Option<Intrinsic>,
    pub data: FunctionData,
}

impl FinalizedFunction {
    /// Specializes this generic function skeleton in place: checks every
    /// declared bound against the argument standing at its parameter's
    /// position, and only if all hold substitutes the arguments into the
    /// parameter and return types, leaving a ground function. On the first
    /// unsatisfied bound nothing is changed and the violation is reported;
    /// no partial specialization is ever produced.
    #[verifier::loop_isolation(false)]
    pub fn degeneric(&mut self, generics: &Vec<FinalizedTypes>, impls: &Vec<Implementation>) -> (r: Result<(), BoundError>)
        requires
            params_unique(params_of(old(self).generics@)),
            generics@.len() == old(self).generics@.len(),
            all_ground(views_of(generics@)),
        ensures
            match r {
                Ok(()) => {
                    &&& all_params_ok(impls@, params_of(old(self).generics@), views_of(generics@))
                    &&& final(self).generics@.len() == 0
                    &&& fields_of(final(self).fields@) == subst_fields(
                        fields_of(old(self).fields@),
                        params_of(old(self).generics@),
                        views_of(generics@),
                    )
                    &&& (match old(self).return_type {
                        Some(t) => final(self).return_type matches Some(t2) && t2@ == subst_type(
                            t@,
                            params_of(old(self).generics@),
                            views_of(generics@),
                        ),
                        None => final(self).return_type is None,
                    })
                    &&& final(self).code == old(self).code
                    &&& final(self).intrinsic == old(self).intrinsic
                    &&& final(self).data == old(self).data
                },
                Err(e) => {
                    &&& !all_params_ok(impls@, params_of(old(self).generics@), views_of(generics@))
                    &&& *final(self) == *old(self)
                    &&& exists|i: int, j: int|
                        {
                            &&& 0 <= i < params_of(old(self).generics@).len()
                            &&& 0 <= j < params_of(old(self).generics@)[i].bounds.len()
                            &&& !(#[trigger] spec_bound_ok(
                                impls@,
                                views_of(generics@)[i],
                                params_of(old(self).generics@)[i].bounds[j].id,
                            ))
                            &&& e.parameter@ == params_of(old(self).generics@)[i].name
                            &&& e.required_trait@ == params_of(old(self).generics@)[i].bounds[j].name
                            &&& e.actual_type@ == spec_type_name(views_of(generics@)[i])
                        }
                },
            },
    {
        let ghost pv = params_of(self.generics@);
        let ghost av = views_of(generics@);
        let mut i: usize = 0;
        while i < self.generics.len()
            invariant
                i <= self.generics@.len(),
                pv == params_of(self.generics@),
                av == views_of(generics@),
                generics@.len() == self.generics@.len(),
                all_ground(av),
                forall|k: int| 0 <= k < i ==> param_ok(impls@, #[trigger] pv[k], av[k]),
            decreases self.generics@.len() - i,
        {
            proof {
                assert(pv[i as int] == self.generics@[i as int]@);
                assert(av[i as int] == generics@[i as int]@);
            }
            let bounds_len = self.generics[i].bounds.len();
            let mut j: usize = 0;
            while j < bounds_len
                invariant
                    i < self.generics@.len(),
                    j <= bounds_len,
                    bounds_len == self.generics@[i as int].bounds@.len(),
                    forall|l: int|
                        0 <= l < j ==> spec_bound_ok(
                            impls@,
                            av[i as int],
                            (#[trigger] pv[i as int].bounds[l]).id,
                        ),
                decreases bounds_len - j,
            {
                proof {
                    assert(pv[i as int].bounds[j as int] == self.generics@[i as int].bounds@[j as int]@);
                }
                if !satisfies_bound(impls, &generics[i], self.generics[i].bounds[j].id) {
                    let err = BoundError {
                        parameter: self.generics[i].name.clone(),
                        required_trait: self.generics[i].bounds[j].name.clone(),
                        actual_type: generics[i].name(),
                    };
                    proof {
                        assert(!param_ok(impls@, pv[i as int], av[i as int]));
                        assert(!all_params_ok(impls@, pv, av));
                        assert(pv == params_of(old(self).generics@));
                        assert(!spec_bound_ok(
                            impls@,
                            views_of(generics@)[i as int],
                            params_of(old(self).generics@)[i as int].bounds[j as int].id,
                        ));
                    }
                    return Err(err);
                }
                j += 1;
            }
            proof {
                assert(param_ok(impls@, pv[i as int], av[i as int]));
            }
            i += 1;
        }
        proof {
            assert(all_params_ok(impls@, pv, av));
        }

        let ghost old_fields = fields_of(self.fields@);
        let mut new_fields: Vec<FinalizedMemberField> = Vec::new();
        let mut k: usize = 0;
        while k < self.fields.len()
            invariant
                k <= self.fields@.len(),
                old_fields == fields_of(self.fields@),
                pv == params_of(self.generics@),
                av == views_of(generics@),
                generics@.len() == self.generics@.len(),
                params_unique(pv),
                new_fields@.len() == k,
                forall|l: int|
                    0 <= l < k ==> (#[trigger] new_fields@[l])@ == (FieldV {
                        modifiers: old_fields[l].modifiers,
                        name: old_fields[l].name,
                        ty: subst_type(old_fields[l].ty, pv, av),
                    }),
            decreases self.fields@.len() - k,
        {
            proof {
                assert(old_fields[k as int] == self.fields@[k as int]@);
            }
            let ty = substitute_type(&self.fields[k].field_type, &self.generics, generics);
            new_fields.push(
                FinalizedMemberField {
                    modifiers: self.fields[k].modifiers,
                    name: self.fields[k].name.clone(),
                    field_type: ty,
                },
            );
            k += 1;
        }
        let new_return = match &self.return_type {
            Some(t) => Some(substitute_type(t, &self.generics, generics)),
            None => None,
        };
        self.fields = new_fields;
        self.return_type = new_return;
        self.generics = Vec::new();
        proof {
            assert(fields_of(self.fields@) =~= subst_fields(old_fields, pv, av));
        }
        Ok(())
    }
}

} // verus!
