//! Named top-level definitions and their finalized forms. A definition is
//! created unfinalized at parse time, carries a process-unique identity, and
//! becomes finalized exactly once after verification. Specialization copies a
//! finalized skeleton and re-identifies the copy, so identity — never
//! structure — is the equality key.

use vstd::prelude::*;
use vstd::pervasive::unreached;
use crate::errors::BoundError;
use crate::errors::ParsingError;
use crate::resolver::UnparsedType;
use crate::solver::Implementation;
use crate::solver::spec_bound_ok;
use crate::solver::satisfies_bound;
use crate::types::BoundV;
use crate::types::FinalizedTypes;
use crate::types::TypeV;
use crate::types::is_ground;
use crate::types::refs_of;
use crate::types::spec_type_name;
use crate::types::views_of;

verus! {

/// Marks a definition as one of the compiler's built-in types.
pub const MODIFIER_INTERNAL: u8 = 1;

/// Marks a definition as a trait rather than a plain struct.
pub const MODIFIER_TRAIT: u8 = 2;

/// Marks a function definition as an operator implementation.
pub const MODIFIER_OPERATOR: u8 = 4;

/// Whether every bit of `modifier` is set in `modifiers`.
pub fn is_modifier(modifiers: u8, modifier: u8) -> (r: bool)
    ensures
        r == (modifiers & modifier == modifier),
{
    modifiers & modifier == modifier
}

/// Issues process-unique identities, in place of a global counter: the
/// directory owns one and threads it through every definition it creates.
#[derive(Debug)]
pub struct IdGenerator {
    /// The last identity handed out; 0 means none yet.
    pub last: u64,
}

impl IdGenerator {
    pub fn new() -> (r: Self)
        ensures
            r.last == 0,
    {
        IdGenerator { last: 0 }
    }

    /// The next fresh identity: strictly greater than every one handed out.
    pub fn next(&mut self) -> (r: u64)
        requires
            old(self).last < u64::MAX,
        ensures
            final(self).last == old(self).last + 1,
            r == final(self).last,
    {
        self.last = self.last + 1;
        self.last
    }
}

/// What the constraint solver keeps about a trait definition.
#[derive(Clone, Copy, Debug, PartialEq, Eq, Structural)]
pub struct TraitDatum {
    pub id: u32,
}

/// What the constraint solver keeps about a struct (algebraic data type)
/// definition.
#[derive(Clone, Copy, Debug, PartialEq, Eq, Structural)]
pub struct AdtDatum {
    pub id: u32,
}

/// The solver-facing type of a struct definition.
#[derive(Clone, Copy, Debug, PartialEq, Eq, Structural)]
pub struct Ty {
    pub adt_id: u32,
}

/// The constraint-solver record attached to a definition: a trait datum for
/// traits, a type plus an ADT datum for structs.
#[derive(Clone, Copy, Debug, PartialEq, Eq, Structural)]
pub enum ChalkData {
    Trait(TraitDatum),
    Struct(Ty, AdtDatum),
}

impl ChalkData {
    /// The trait datum inside; only trait definitions carry one.
    pub fn to_trait(&self) -> (r: &TraitDatum)
        requires
            self is Trait,
        ensures
            *self == ChalkData::Trait(*r),
    {
        match self {
            ChalkData::Trait(inner) => inner,
            ChalkData::Struct(_, _) => unreached(),
        }
    }

    /// The type and ADT datum inside; only struct definitions carry them.
    pub fn to_struct(&self) -> (r: (&Ty, &AdtDatum))
        requires
            self is Struct,
        ensures
            *self == ChalkData::Struct(*r.0, *r.1),
    {
        match self {
            ChalkData::Struct(types, inner) => (types, inner),
            ChalkData::Trait(_) => unreached(),
        }
    }
}

/// A source-level attribute attached to a definition.
#[derive(Debug)]
pub struct Attribute {
    pub name: String,
    pub value: String,
}

impl Attribute {
    /// A copy equal to this attribute.
    pub fn duplicate(&self) -> (r: Attribute)
        ensures
            r == *self,
    {
        Attribute { name: self.name.clone(), value: self.value.clone() }
    }
}

/// The identity-bearing header of a top-level definition.
#[derive(Debug)]
pub struct StructData {
    pub modifiers: u8,
    /// What the constraint solver keeps about this definition.
    pub chalk_data: ChalkData,
    /// Process-unique identity; the equality and cache key.
    pub id: u64,
    pub name: String,
    pub attributes: Vec<Attribute>,
    /// Errors accumulated while parsing or verifying; non-empty means the
    /// definition is poisoned and must not be compiled.
    pub poisoned: Vec<ParsingError>,
}

impl StructData {
    /// A freshly parsed definition with a fresh identity; traits get a trait
    /// datum, everything else a struct datum, both carrying the identity.
    pub fn new(attributes: Vec<Attribute>, modifiers: u8, name: String, ids: &mut IdGenerator) -> (r: Self)
        requires
            old(ids).last + 1 <= u32::MAX,
        ensures
            final(ids).last == old(ids).last + 1,
            r.id == final(ids).last,
            r.modifiers == modifiers,
            r.name == name,
            r.attributes == attributes,
            r.poisoned@.len() == 0,
            modifiers & MODIFIER_TRAIT == MODIFIER_TRAIT ==> r.chalk_data == ChalkData::Trait(
                TraitDatum { id: r.id as u32 },
            ),
            modifiers & MODIFIER_TRAIT != MODIFIER_TRAIT ==> r.chalk_data == ChalkData::Struct(
                Ty { adt_id: r.id as u32 },
                AdtDatum { id: r.id as u32 },
            ),
    {
        let id = ids.next();
        if is_modifier(modifiers, MODIFIER_TRAIT) {
            StructData {
                attributes,
                chalk_data: ChalkData::Trait(TraitDatum { id: id as u32 }),
                id,
                modifiers,
                name,
                poisoned: Vec::new(),
            }
        } else {
            StructData {
                attributes,
                chalk_data: ChalkData::Struct(Ty { adt_id: id as u32 }, AdtDatum { id: id as u32 }),
                id,
                modifiers,
                name,
                poisoned: Vec::new(),
            }
        }
    }

    /// Re-identifies this definition: a specialization shares its skeleton's
    /// content but must be distinguishable from it.
    pub fn fix_id(&mut self, ids: &mut IdGenerator)
        requires
            old(ids).last < u64::MAX,
        ensures
            final(ids).last == old(ids).last + 1,
            final(self).id == final(ids).last,
            final(self).modifiers == old(self).modifiers,
            final(self).chalk_data == old(self).chalk_data,
            final(self).name == old(self).name,
            final(self).attributes == old(self).attributes,
            final(self).poisoned == old(self).poisoned,
    {
        self.id = ids.next();
    }

    /// A definition that failed parsing, carrying its first error.
    pub fn new_poisoned(name: String, error: ParsingError, ids: &mut IdGenerator) -> (r: Self)
        requires
            old(ids).last + 1 <= u32::MAX,
        ensures
            final(ids).last == old(ids).last + 1,
            r.id == final(ids).last,
            r.modifiers == 0,
            r.name == name,
            r.attributes@.len() == 0,
            r.poisoned@.len() == 1,
            r.poisoned@[0] == error,
            r.chalk_data == ChalkData::Struct(
                Ty { adt_id: r.id as u32 },
                AdtDatum { id: r.id as u32 },
            ),
    {
        let mut output = StructData::new(Vec::new(), 0, name, ids);
        proof {
            assert(0u8 & MODIFIER_TRAIT != MODIFIER_TRAIT) by (bit_vector);
        }
        output.poisoned = vec![error];
        output
    }

    /// Records one more accumulated error.
    pub fn poison(&mut self, error: ParsingError)
        ensures
            final(self).poisoned@ == old(self).poisoned@.push(error),
            final(self).modifiers == old(self).modifiers,
            final(self).chalk_data == old(self).chalk_data,
            final(self).id == old(self).id,
            final(self).name == old(self).name,
            final(self).attributes == old(self).attributes,
    {
        self.poisoned.push(error);
    }

    /// Struct definitions are never operator implementations.
    pub fn is_operator(&self) -> (r: bool)
        ensures
            r == false,
    {
        false
    }

    /// The accumulated errors; non-empty means poisoned.
    pub fn errors(&self) -> (r: &Vec<ParsingError>)
        ensures
            r == &self.poisoned,
    {
        &self.poisoned
    }

    pub fn name(&self) -> (r: &String)
        ensures
            r == &self.name,
    {
        &self.name
    }

    /// A copy of this definition header: same identity, same content.
    pub fn duplicate(&self) -> (r: StructData)
        ensures
            r.modifiers == self.modifiers,
            r.chalk_data == self.chalk_data,
            r.id == self.id,
            r.name == self.name,
            r.attributes@ == self.attributes@,
            r.poisoned@ == self.poisoned@,
    {
        let mut attributes: Vec<Attribute> = Vec::new();
        let mut i: usize = 0;
        while i < self.attributes.len()
            invariant
                i <= self.attributes@.len(),
                attributes@.len() == i,
                forall|j: int| 0 <= j < i ==> attributes@[j] == #[trigger] self.attributes@[j],
            decreases self.attributes@.len() - i,
        {
            attributes.push(self.attributes[i].duplicate());
            i += 1;
        }
        let mut poisoned: Vec<ParsingError> = Vec::new();
        let mut k: usize = 0;
        while k < self.poisoned.len()
            invariant
                k <= self.poisoned@.len(),
                poisoned@.len() == k,
                forall|j: int| 0 <= j < k ==> poisoned@[j] == #[trigger] self.poisoned@[j],
            decreases self.poisoned@.len() - k,
        {
            poisoned.push(self.poisoned[k].duplicate());
            k += 1;
        }
        proof {
            assert(attributes@ =~= self.attributes@);
            assert(poisoned@ =~= self.poisoned@);
        }
        StructData {
            modifiers: self.modifiers,
            chalk_data: self.chalk_data,
            id: self.id,
            name: self.name.clone(),
            attributes,
            poisoned,
        }
    }
}

/// Identity, not structural content, decides whether two definition headers
/// are the same entity: a specialization copies its skeleton's content but
/// carries a fresh identity.
impl PartialEq for StructData {
    fn eq(&self, other: &Self) -> (r: bool) {
        self.id == other.id
    }
}

impl vstd::std_specs::cmp::PartialEqSpecImpl for StructData {
    open spec fn obeys_eq_spec() -> bool {
        true
    }

    open spec fn eq_spec(&self, other: &StructData) -> bool {
        self.id == other.id
    }
}

/// The built-in primitive type names, registered once per session.
pub fn make_internal_types(ids: &mut IdGenerator) -> (r: Vec<StructData>)
    requires
        old(ids).last + 12 <= u32::MAX,
    ensures
        final(ids).last == old(ids).last + 12,
        r@.len() == 12,
        forall|k: int| 0 <= k < 12 ==> (#[trigger] r@[k].id) == old(ids).last + 1 + k,
        forall|k: int| 0 <= k < 12 ==> (#[trigger] r@[k].modifiers) == MODIFIER_INTERNAL,
        forall|k: int| 0 <= k < 12 ==> (#[trigger] r@[k].poisoned@.len()) == 0,
        r@[0].name@ == "i64"@,
        r@[1].name@ == "i32"@,
        r@[2].name@ == "i16"@,
        r@[3].name@ == "i8"@,
        r@[4].name@ == "f64"@,
        r@[5].name@ == "f32"@,
        r@[6].name@ == "u64"@,
        r@[7].name@ == "u32"@,
        r@[8].name@ == "u16"@,
        r@[9].name@ == "u8"@,
        r@[10].name@ == "bool"@,
        r@[11].name@ == "str"@,
{
    let mut out: Vec<StructData> = Vec::new();
    out.push(StructData::new(Vec::new(), MODIFIER_INTERNAL, "i64".to_owned(), ids));
    out.push(StructData::new(Vec::new(), MODIFIER_INTERNAL, "i32".to_owned(), ids));
    out.push(StructData::new(Vec::new(), MODIFIER_INTERNAL, "i16".to_owned(), ids));
    out.push(StructData::new(Vec::new(), MODIFIER_INTERNAL, "i8".to_owned(), ids));
    out.push(StructData::new(Vec::new(), MODIFIER_INTERNAL, "f64".to_owned(), ids));
    out.push(StructData::new(Vec::new(), MODIFIER_INTERNAL, "f32".to_owned(), ids));
    out.push(StructData::new(Vec::new(), MODIFIER_INTERNAL, "u64".to_owned(), ids));
    out.push(StructData::new(Vec::new(), MODIFIER_INTERNAL, "u32".to_owned(), ids));
    out.push(StructData::new(Vec::new(), MODIFIER_INTERNAL, "u16".to_owned(), ids));
    out.push(StructData::new(Vec::new(), MODIFIER_INTERNAL, "u8".to_owned(), ids));
    out.push(StructData::new(Vec::new(), MODIFIER_INTERNAL, "bool".to_owned(), ids));
    out.push(StructData::new(Vec::new(), MODIFIER_INTERNAL, "str".to_owned(), ids));
    out
}

/// The registered built-in definition named `name`. The same session always
/// hands back the same definition, identity included.
pub fn get_internal<'a>(internals: &'a Vec<StructData>, name: &String) -> (r: &'a StructData)
    requires
        exists|i: int| 0 <= i < internals@.len() && internals@[i].name@ == name@,
    ensures
        r.name@ == name@,
        exists|i: int| 0 <= i < internals@.len() && internals@[i] == *r,
{
    let mut i: usize = 0;
    while i < internals.len()
        invariant
            i <= internals@.len(),
            exists|j: int| 0 <= j < internals@.len() && internals@[j].name@ == name@,
            forall|j: int| 0 <= j < i ==> internals@[j].name@ != name@,
        decreases internals@.len() - i,
    {
        if internals[i].name == *name {
            return &internals[i];
        }
        i += 1;
    }
    unreached()
}

/// A struct field as parsed, its type not yet resolved.
#[derive(Debug)]
pub struct MemberField {
    pub modifiers: u8,
    pub name: String,
    pub field_type: UnparsedType,
}

/// A struct between parsing and verification: generic parameters and field
/// types still unresolved.
#[derive(Debug)]
pub struct UnfinalizedStruct {
    /// Declared generic parameters, in declaration order, each with the
    /// not-yet-resolved bounds the arguments must satisfy.
    pub generics: Vec<(String, Vec<UnparsedType>)>,
    pub fields: Vec<MemberField>,
    pub data: StructData,
}

/// A declared generic parameter of a finalized definition: its name and the
/// traits any argument bound to it must satisfy, in declaration order.
#[derive(Debug)]
pub struct GenericParam {
    pub name: String,
    pub bounds: Vec<crate::types::TypeRef>,
}

impl GenericParam {
    /// A copy with the same mathematical value.
    pub fn duplicate(&self) -> (r: GenericParam)
        ensures
            r@ == self@,
    {
        let mut bounds: Vec<crate::types::TypeRef> = Vec::new();
        let mut i: usize = 0;
        while i < self.bounds.len()
            invariant
                i <= self.bounds@.len(),
                bounds@.len() == i,
                forall|j: int| 0 <= j < i ==> bounds@[j]@ == #[trigger] self.bounds@[j]@,
            decreases self.bounds@.len() - i,
        {
            bounds.push(self.bounds[i].duplicate());
            i += 1;
        }
        proof {
            assert(refs_of(bounds@) =~= refs_of(self.bounds@));
        }
        GenericParam { name: self.name.clone(), bounds }
    }
}

/// The mathematical value of a generic parameter.
#[verifier::ext_equal]
pub struct ParamV {
    pub name: Seq<char>,
    pub bounds: Seq<BoundV>,
}

impl View for GenericParam {
    type V = ParamV;

    open spec fn view(&self) -> ParamV {
        ParamV { name: self.name@, bounds: refs_of(self.bounds@) }
    }
}

/// The mathematical values of a parameter list.
pub open spec fn params_of(s: Seq<GenericParam>) -> Seq<ParamV> {
    s.map_values(|p: GenericParam| p@)
}

/// A fully type-checked struct field.
#[derive(Debug)]
pub struct FinalizedMemberField {
    pub modifiers: u8,
    pub name: String,
    pub field_type: FinalizedTypes,
}

impl FinalizedMemberField {
    /// A copy with the same mathematical value.
    pub fn duplicate(&self) -> (r: FinalizedMemberField)
        ensures
            r@ == self@,
    {
        FinalizedMemberField {
            modifiers: self.modifiers,
            name: self.name.clone(),
            field_type: self.field_type.duplicate(),
        }
    }
}

/// The mathematical value of a finalized field.
#[verifier::ext_equal]
pub struct FieldV {
    pub modifiers: u8,
    pub name: Seq<char>,
    pub ty: TypeV,
}

impl View for FinalizedMemberField {
    type V = FieldV;

    open spec fn view(&self) -> FieldV {
        FieldV { modifiers: self.modifiers, name: self.name@, ty: self.field_type@ }
    }
}

/// The mathematical values of a field list.
pub open spec fn fields_of(s: Seq<FinalizedMemberField>) -> Seq<FieldV> {
    s.map_values(|f: FinalizedMemberField| f@)
}

/// A fully type-checked struct: either ground, or a generic skeleton awaiting
/// specialization.
#[derive(Debug)]
pub struct FinalizedStruct {
    /// Declared generic parameters in declaration order; empty means ground.
    pub generics: Vec<GenericParam>,
    pub fields: Vec<FinalizedMemberField>,
    pub data: StructData,
}

/// Finalized structs, too, are the same entity exactly when their
/// definitions' identities agree.
impl PartialEq for FinalizedStruct {
    fn eq(&self, other: &Self) -> (r: bool) {
        self.data.id == other.data.id
    }
}

impl vstd::std_specs::cmp::PartialEqSpecImpl for FinalizedStruct {
    open spec fn obeys_eq_spec() -> bool {
        true
    }

    open spec fn eq_spec(&self, other: &FinalizedStruct) -> bool {
        self.data.id == other.data.id
    }
}

/// Declared generic parameter names never repeat.
pub open spec fn params_unique(params: Seq<ParamV>) -> bool {
    forall|i: int, j: int| 0 <= i < j < params.len() ==> params[i].name != params[j].name
}

/// Some parameter is declared under `name`.
pub open spec fn has_param(params: Seq<ParamV>, name: Seq<char>) -> bool {
    exists|i: int| 0 <= i < params.len() && params[i].name == name
}

/// The declaration position of the parameter named `name`.
pub open spec fn param_index(params: Seq<ParamV>, name: Seq<char>) -> int {
    choose|i: int| 0 <= i < params.len() && params[i].name == name
}

/// With unique names, any position declaring `name` is `param_index`.
pub proof fn lemma_param_index_unique(params: Seq<ParamV>, name: Seq<char>, i: int)
    requires
        params_unique(params),
        0 <= i < params.len(),
        params[i].name == name,
    ensures
        has_param(params, name),
        param_index(params, name) == i,
{
    assert(has_param(params, name));
    let j = param_index(params, name);
    if i < j {
        assert(params[i].name != params[j].name);
    } else if j < i {
        assert(params[j].name != params[i].name);
    }
}

/// Substitution of generic parameters by position: a generic occurrence is
/// replaced by the argument standing at its parameter's declaration position.
pub open spec fn subst_type(t: TypeV, params: Seq<ParamV>, args: Seq<TypeV>) -> TypeV
    decreases t,
{
    match t {
        TypeV::Struct { .. } => t,
        TypeV::Reference(inner) => TypeV::Reference(Box::new(subst_type(*inner, params, args))),
        TypeV::Generic { name, .. } => if has_param(params, name) {
            args[param_index(params, name)]
        } else {
            t
        },
    }
}

/// Substitution applied to every field of a struct.
pub open spec fn subst_fields(fields: Seq<FieldV>, params: Seq<ParamV>, args: Seq<TypeV>) -> Seq<
    FieldV,
> {
    fields.map_values(
        |f: FieldV| FieldV { modifiers: f.modifiers, name: f.name, ty: subst_type(f.ty, params, args) },
    )
}

/// Every bound of the parameter is satisfied by the argument.
pub open spec fn param_ok(impls: Seq<Implementation>, p: ParamV, arg: TypeV) -> bool {
    forall|j: int| 0 <= j < p.bounds.len() ==> spec_bound_ok(impls, arg, (#[trigger] p.bounds[j]).id)
}

/// Every argument satisfies every bound of its parameter, pairing by
/// declaration order.
pub open spec fn all_params_ok(impls: Seq<Implementation>, params: Seq<ParamV>, args: Seq<TypeV>) -> bool {
    forall|i: int| 0 <= i < params.len() ==> param_ok(impls, #[trigger] params[i], args[i])
}

/// Every type of the list is ground.
pub open spec fn all_ground(args: Seq<TypeV>) -> bool {
    forall|i: int| 0 <= i < args.len() ==> is_ground(#[trigger] args[i])
}

/// Substitutes generic parameters inside one type, by declaration position.
#[verifier::loop_isolation(false)]
pub(crate) fn substitute_type(t: &FinalizedTypes, params: &Vec<GenericParam>, args: &Vec<FinalizedTypes>) -> (r: FinalizedTypes)
    requires
        params_unique(params_of(params@)),
        args@.len() == params@.len(),
    ensures
        r@ == subst_type(t@, params_of(params@), views_of(args@)),
    decreases *t,
{
    let ghost pv = params_of(params@);
    let ghost av = views_of(args@);
    match t {
        FinalizedTypes::Struct(_) => t.duplicate(),
        FinalizedTypes::Reference(inner) => {
            FinalizedTypes::Reference(Box::new(substitute_type(&**inner, params, args)))
        },
        FinalizedTypes::Generic(name, _) => {
            let mut i: usize = 0;
            while i < params.len()
                invariant
                    i <= params@.len(),
                    pv == params_of(params@),
                    forall|j: int| 0 <= j < i ==> pv[j].name != name@,
                decreases params@.len() - i,
            {
                proof {
                    assert(pv[i as int] == params@[i as int]@);
                }
                if params[i].name == *name {
                    proof {
                        lemma_param_index_unique(pv, name@, i as int);
                        assert(av[i as int] == args@[i as int]@);
                    }
                    return args[i].duplicate();
                }
                i += 1;
            }
            proof {
                assert(!has_param(pv, name@));
            }
            t.duplicate()
        },
    }
}

impl FinalizedStruct {
    /// A copy sharing this struct's identity and mathematical content.
    pub fn duplicate(&self) -> (r: FinalizedStruct)
        ensures
            params_of(r.generics@) == params_of(self.generics@),
            fields_of(r.fields@) == fields_of(self.fields@),
            r.data.modifiers == self.data.modifiers,
            r.data.chalk_data == self.data.chalk_data,
            r.data.id == self.data.id,
            r.data.name == self.data.name,
            r.data.attributes@ == self.data.attributes@,
            r.data.poisoned@ == self.data.poisoned@,
    {
        let mut generics: Vec<GenericParam> = Vec::new();
        let mut i: usize = 0;
        while i < self.generics.len()
            invariant
                i <= self.generics@.len(),
                generics@.len() == i,
                forall|j: int| 0 <= j < i ==> generics@[j]@ == #[trigger] self.generics@[j]@,
            decreases self.generics@.len() - i,
        {
            generics.push(self.generics[i].duplicate());
            i += 1;
        }
        let mut fields: Vec<FinalizedMemberField> = Vec::new();
        let mut k: usize = 0;
        while k < self.fields.len()
            invariant
                k <= self.fields@.len(),
                fields@.len() == k,
                forall|j: int| 0 <= j < k ==> fields@[j]@ == #[trigger] self.fields@[j]@,
            decreases self.fields@.len() - k,
        {
            fields.push(self.fields[k].duplicate());
            k += 1;
        }
        proof {
            assert(params_of(generics@) =~= params_of(self.generics@));
            assert(fields_of(fields@) =~= fields_of(self.fields@));
        }
        FinalizedStruct { generics, fields, data: self.data.duplicate() }
    }

    /// A finalized struct with no generics and no fields, for a definition
    /// whose shape carries no content of its own.
    pub fn empty_of(data: StructData) -> (r: Self)
        ensures
            r.generics@.len() == 0,
            r.fields@.len() == 0,
            r.data == data,
    {
        FinalizedStruct { generics: Vec::new(), fields: Vec::new(), data }
    }

    /// Specializes this generic skeleton in place: checks every declared
    /// bound against the argument standing at its parameter's position, and
    /// only if all hold substitutes the arguments into the field types,
    /// leaving a ground struct. On the first unsatisfied bound nothing is
    /// changed and the violation is reported; no partial specialization is
    /// ever produced.
    #[verifier::loop_isolation(false)]
    pub fn degeneric(&mut self, generics: &Vec<FinalizedTypes>, impls: &Vec<Implementation>) -> (r: Result<(), BoundError>)
        requires
            params_unique(params_of(old(self).generics@)),
            generics@.len() == old(self).generics@.len(),
            all_ground(views_of(generics@)),
        ensures
            match r {
                Ok(()) => {
                    &&& all_params_ok(impls@, params_of(old(self).generics@), views_of(generics@))
                    &&& final(self).generics@.len() == 0
                    &&& fields_of(final(self).fields@) == subst_fields(
                        fields_of(old(self).fields@),
                        params_of(old(self).generics@),
                        views_of(generics@),
                    )
                    &&& final(self).data == old(self).data
                },
                Err(e) => {
                    &&& !all_params_ok(impls@, params_of(old(self).generics@), views_of(generics@))
                    &&& *final(self) == *old(self)
                    &&& exists|i: int, j: int|
                        {
                            &&& 0 <= i < params_of(old(self).generics@).len()
                            &&& 0 <= j < params_of(old(self).generics@)[i].bounds.len()
                            &&& !(#[trigger] spec_bound_ok(
                                impls@,
                                views_of(generics@)[i],
                                params_of(old(self).generics@)[i].bounds[j].id,
                            ))
                            &&& e.parameter@ == params_of(old(self).generics@)[i].name
                            &&& e.required_trait@ == params_of(old(self).generics@)[i].bounds[j].name
                            &&& e.actual_type@ == spec_type_name(views_of(generics@)[i])
                        }
                },
            },
    {
        let ghost pv = params_of(self.generics@);
        let ghost av = views_of(generics@);
        let mut i: usize = 0;
        while i < self.generics.len()
            invariant
                i <= self.generics@.len(),
                pv == params_of(self.generics@),
                av == views_of(generics@),
                generics@.len() == self.generics@.len(),
                all_ground(av),
                forall|k: int| 0 <= k < i ==> param_ok(impls@, #[trigger] pv[k], av[k]),
            decreases self.generics@.len() - i,
        {
            proof {
                assert(pv[i as int] == self.generics@[i as int]@);
                assert(av[i as int] == generics@[i as int]@);
            }
            let bounds_len = self.generics[i].bounds.len();
            let mut j: usize = 0;
            while j < bounds_len
                invariant
                    i < self.generics@.len(),
                    j <= bounds_len,
                    bounds_len == self.generics@[i as int].bounds@.len(),
                    pv == params_of(self.generics@),
                    av == views_of(generics@),
                    generics@.len() == self.generics@.len(),
                    all_ground(av),
                    pv[i as int] == self.generics@[i as int]@,
                    av[i as int] == generics@[i as int]@,
                    forall|l: int|
                        0 <= l < j ==> spec_bound_ok(impls@, av[i as int], (#[trigger] pv[i as int].bounds[l]).id),
                decreases bounds_len - j,
            {
                proof {
                    assert(pv[i as int].bounds[j as int] == self.generics@[i as int].bounds@[j as int]@);
                }
                if !satisfies_bound(impls, &generics[i], self.generics[i].bounds[j].id) {
                    let err = BoundError {
                        parameter: self.generics[i].name.clone(),
                        required_trait: self.generics[i].bounds[j].name.clone(),
                        actual_type: generics[i].name(),
                    };
                    proof {
                        assert(!param_ok(impls@, pv[i as int], av[i as int]));
                        assert(!all_params_ok(impls@, pv, av));
                        assert(pv == params_of(old(self).generics@));
                        assert(!spec_bound_ok(
                            impls@,
                            views_of(generics@)[i as int],
                            params_of(old(self).generics@)[i as int].bounds[j as int].id,
                        ));
                    }
                    return Err(err);
                }
                j += 1;
            }
            proof {
                assert(param_ok(impls@, pv[i as int], av[i as int]));
            }
            i += 1;
        }
        proof {
            assert(all_params_ok(impls@, pv, av));
        }

        let ghost old_fields = fields_of(self.fields@);
        let mut new_fields: Vec<FinalizedMemberField> = Vec::new();
        let mut k: usize = 0;
        while k < self.fields.len()
            invariant
                k <= self.fields@.len(),
                old_fields == fields_of(self.fields@),
                pv == params_of(self.generics@),
                av == views_of(generics@),
                generics@.len() == self.generics@.len(),
                params_unique(pv),
                new_fields@.len() == k,
                forall|l: int|
                    0 <= l < k ==> (#[trigger] new_fields@[l])@ == (FieldV {
                        modifiers: old_fields[l].modifiers,
                        name: old_fields[l].name,
                        ty: subst_type(old_fields[l].ty, pv, av),
                    }),
            decreases self.fields@.len() - k,
        {
            proof {
                assert(old_fields[k as int] == self.fields@[k as int]@);
            }
            let ty = substitute_type(&self.fields[k].field_type, &self.generics, generics);
            new_fields.push(
                FinalizedMemberField {
                    modifiers: self.fields[k].modifiers,
                    name: self.fields[k].name.clone(),
                    field_type: ty,
                },
            );
            k += 1;
        }
        self.fields = new_fields;
        self.generics = Vec::new();
        proof {
            assert(fields_of(self.fields@) =~= subst_fields(old_fields, pv, av));
        }
        Ok(())
    }
}

} // verus!
