//! Fully resolved types as the generics engine and the code-generation driver
//! see them. A type is either a reference to a struct definition (tracked by
//! identity), a reference wrapper around another type, or a still-unbound
//! generic parameter carrying its trait bounds. Identity, not structure, is
//! what makes two struct types the same.

use vstd::prelude::*;

verus! {

/// A reference to a named definition: its process-wide identity and its
/// display name. Two references with the same identity refer to the same
/// definition whatever their names say.
#[derive(Debug)]
pub struct TypeRef {
    pub id: u64,
    pub name: String,
}

/// The mathematical value of a `TypeRef`.
#[verifier::ext_equal]
pub struct BoundV {
    pub id: u64,
    pub name: Seq<char>,
}

/// A fully type-checked type. `Generic` is the only non-ground form; a value
/// reaching the backend must be ground.
#[derive(Debug)]
pub enum FinalizedTypes {
    /// A concrete struct definition.
    Struct(TypeRef),
    /// A reference to a value of the inner type.
    Reference(Box<FinalizedTypes>),
    /// A generic parameter, by declared name, with the traits any argument
    /// bound to it must satisfy.
    Generic(String, Vec<TypeRef>),
}

/// The mathematical value of a `FinalizedTypes`.
#[verifier::ext_equal]
pub enum TypeV {
    Struct { id: u64, name: Seq<char> },
    Reference(Box<TypeV>),
    Generic { name: Seq<char>, bounds: Seq<BoundV> },
}

impl View for TypeRef {
    type V = BoundV;

    open spec fn view(&self) -> BoundV {
        BoundV { id: self.id, name: self.name@ }
    }
}

/// The mathematical values of a list of definition references.
pub open spec fn refs_of(s: Seq<TypeRef>) -> Seq<BoundV> {
    s.map_values(|r: TypeRef| r@)
}

/// The mathematical value of a type.
pub open spec fn type_view(t: FinalizedTypes) -> TypeV
    decreases t,
{
    match t {
        FinalizedTypes::Struct(r) => TypeV::Struct { id: r.id, name: r.name@ },
        FinalizedTypes::Reference(inner) => TypeV::Reference(Box::new(type_view(*inner))),
        FinalizedTypes::Generic(n, b) => TypeV::Generic { name: n@, bounds: refs_of(b@) },
    }
}

impl View for FinalizedTypes {
    type V = TypeV;

    open spec fn view(&self) -> TypeV {
        type_view(*self)
    }
}

/// The mathematical values of a list of types.
pub open spec fn views_of(s: Seq<FinalizedTypes>) -> Seq<TypeV> {
    s.map_values(|t: FinalizedTypes| type_view(t))
}

/// Identity equality on types: struct types are the same when their
/// definitions are, whatever their display names; generic parameters are the
/// same when name and bound identities agree.
pub open spec fn type_eq(a: TypeV, b: TypeV) -> bool
    decreases a,
{
    match (a, b) {
        (TypeV::Struct { id: x, .. }, TypeV::Struct { id: y, .. }) => x == y,
        (TypeV::Reference(x), TypeV::Reference(y)) => type_eq(*x, *y),
        (TypeV::Generic { name: n1, bounds: b1 }, TypeV::Generic { name: n2, bounds: b2 }) => {
            n1 == n2 && b1.len() == b2.len() && forall|i: int|
                0 <= i < b1.len() ==> b1[i].id == #[trigger] b2[i].id
        },
        _ => false,
    }
}

/// Identity equality, pointwise, on two lists of types.
pub open spec fn types_eq(a: Seq<TypeV>, b: Seq<TypeV>) -> bool {
    a.len() == b.len() && forall|i: int| 0 <= i < a.len() ==> type_eq(a[i], #[trigger] b[i])
}

/// A type with no generic parameter anywhere inside it.
pub open spec fn is_ground(t: TypeV) -> bool
    decreases t,
{
    match t {
        TypeV::Struct { .. } => true,
        TypeV::Reference(inner) => is_ground(*inner),
        TypeV::Generic { .. } => false,
    }
}

/// The identity of the struct definition under any chain of references.
/// Meaningful only on ground types.
pub open spec fn spec_inner_id(t: TypeV) -> u64
    decreases t,
{
    match t {
        TypeV::Struct { id, .. } => id,
        TypeV::Reference(inner) => spec_inner_id(*inner),
        TypeV::Generic { .. } => 0,
    }
}

/// The display name of the struct definition under any chain of references;
/// for a generic parameter, the parameter's name.
pub open spec fn spec_type_name(t: TypeV) -> Seq<char>
    decreases t,
{
    match t {
        TypeV::Struct { name, .. } => name,
        TypeV::Reference(inner) => spec_type_name(*inner),
        TypeV::Generic { name, .. } => name,
    }
}

impl TypeRef {
    /// A copy referring to the same definition.
    pub fn duplicate(&self) -> (r: TypeRef)
        ensures
            r@ == self@,
    {
        TypeRef { id: self.id, name: self.name.clone() }
    }
}

impl FinalizedTypes {
    /// Whether this type is ground, that is, free of generic parameters.
    pub fn ground(&self) -> (r: bool)
        ensures
            r == is_ground(self@),
        decreases *self,
    {
        match self {
            FinalizedTypes::Struct(_) => true,
            FinalizedTypes::Reference(inner) => inner.ground(),
            FinalizedTypes::Generic(_, _) => false,
        }
    }

    /// The identity of the struct definition this type refers to.
    pub fn inner_id(&self) -> (r: u64)
        requires
            is_ground(self@),
        ensures
            r == spec_inner_id(self@),
        decreases *self,
    {
        match self {
            FinalizedTypes::Struct(tref) => tref.id,
            FinalizedTypes::Reference(inner) => inner.inner_id(),
            FinalizedTypes::Generic(_, _) => 0,
        }
    }

    /// The display name of this type, for error reports and symbol names.
    pub fn name(&self) -> (r: String)
        ensures
            r@ == spec_type_name(self@),
        decreases *self,
    {
        match self {
            FinalizedTypes::Struct(tref) => tref.name.clone(),
            FinalizedTypes::Reference(inner) => inner.name(),
            FinalizedTypes::Generic(n, _) => n.clone(),
        }
    }

    /// A copy with the same mathematical value.
    pub fn duplicate(&self) -> (r: FinalizedTypes)
        ensures
            r@ == self@,
        decreases *self,
    {
        match self {
            FinalizedTypes::Struct(tref) => FinalizedTypes::Struct(tref.duplicate()),
            FinalizedTypes::Reference(inner) => {
                FinalizedTypes::Reference(Box::new((**inner).duplicate()))
            },
            FinalizedTypes::Generic(n, b) => {
                let mut bounds: Vec<TypeRef> = Vec::new();
                let mut i: usize = 0;
                while i < b.len()
                    invariant
                        i <= b@.len(),
                        bounds@.len() == i,
                        forall|j: int| 0 <= j < i ==> bounds@[j]@ == #[trigger] b@[j]@,
                    decreases b@.len() - i,
                {
                    bounds.push(b[i].duplicate());
                    i += 1;
                }
                proof {
                    assert(refs_of(bounds@) =~= refs_of(b@));
                }
                FinalizedTypes::Generic(n.clone(), bounds)
            },
        }
    }

    /// Identity equality with another type.
    pub fn same_as(&self, other: &FinalizedTypes) -> (r: bool)
        ensures
            r == type_eq(self@, other@),
        decreases *self,
    {
        match (self, other) {
            (FinalizedTypes::Struct(x), FinalizedTypes::Struct(y)) => x.id == y.id,
            (FinalizedTypes::Reference(x), FinalizedTypes::Reference(y)) => x.same_as(y),
            (FinalizedTypes::Generic(n1, b1), FinalizedTypes::Generic(n2, b2)) => {
                let ghost v1 = refs_of(b1@);
                let ghost v2 = refs_of(b2@);
                proof {
                    assert(self@ == (TypeV::Generic { name: n1@, bounds: v1 }));
                    assert(other@ == (TypeV::Generic { name: n2@, bounds: v2 }));
                }
                if !(*n1 == *n2) {
                    return false;
                }
                if b1.len() != b2.len() {
                    return false;
                }
                let mut i: usize = 0;
                while i < b1.len()
                    invariant
                        i <= b1@.len(),
                        b1@.len() == b2@.len(),
                        v1 == refs_of(b1@),
                        v2 == refs_of(b2@),
                        n1@ == n2@,
                        self@ == (TypeV::Generic { name: n1@, bounds: v1 }),
                        other@ == (TypeV::Generic { name: n2@, bounds: v2 }),
                        forall|j: int| 0 <= j < i ==> v1[j].id == #[trigger] v2[j].id,
                    decreases b1@.len() - i,
                {
                    proof {
                        assert(v1[i as int] == b1@[i as int]@);
                        assert(v2[i as int] == b2@[i as int]@);
                    }
                    if b1[i].id != b2[i].id {
                        proof {
                            assert(v1[i as int].id != v2[i as int].id);
                        }
                        return false;
                    }
                    i += 1;
                }
                true
            },
            _ => false,
        }
    }
}

/// Identity equality is reflexive.
pub proof fn lemma_type_eq_refl(a: TypeV)
    ensures
        type_eq(a, a),
    decreases a,
{
    match a {
        TypeV::Reference(x) => lemma_type_eq_refl(*x),
        _ => {},
    }
}

/// Identity equality is symmetric.
pub proof fn lemma_type_eq_sym(a: TypeV, b: TypeV)
    ensures
        type_eq(a, b) == type_eq(b, a),
    decreases a,
{
    match (a, b) {
        (TypeV::Reference(x), TypeV::Reference(y)) => lemma_type_eq_sym(*x, *y),
        _ => {},
    }
}

/// Identity equality is transitive.
pub proof fn lemma_type_eq_trans(a: TypeV, b: TypeV, c: TypeV)
    requires
        type_eq(a, b),
        type_eq(b, c),
    ensures
        type_eq(a, c),
    decreases a,
{
    match (a, b, c) {
        (TypeV::Reference(x), TypeV::Reference(y), TypeV::Reference(z)) => {
            lemma_type_eq_trans(*x, *y, *z)
        },
        _ => {},
    }
}

/// Pointwise identity equality is symmetric.
pub proof fn lemma_types_eq_sym(a: Seq<TypeV>, b: Seq<TypeV>)
    ensures
        types_eq(a, b) == types_eq(b, a),
{
    if types_eq(a, b) {
        assert forall|i: int| 0 <= i < b.len() implies type_eq(b[i], #[trigger] a[i]) by {
            lemma_type_eq_sym(a[i], b[i]);
        }
    }
    if types_eq(b, a) {
        assert forall|i: int| 0 <= i < a.len() implies type_eq(a[i], #[trigger] b[i]) by {
            lemma_type_eq_sym(b[i], a[i]);
        }
    }
}

/// Pointwise identity equality is transitive.
pub proof fn lemma_types_eq_trans(a: Seq<TypeV>, b: Seq<TypeV>, c: Seq<TypeV>)
    requires
        types_eq(a, b),
        types_eq(b, c),
    ensures
        types_eq(a, c),
{
    assert forall|i: int| 0 <= i < a.len() implies type_eq(a[i], #[trigger] c[i]) by {
        lemma_type_eq_trans(a[i], b[i], c[i]);
    }
}

/// Identity equality, pointwise, on two type lists.
pub fn types_list_eq(a: &Vec<FinalizedTypes>, b: &Vec<FinalizedTypes>) -> (r: bool)
    ensures
        r == types_eq(views_of(a@), views_of(b@)),
{
    let ghost va = views_of(a@);
    let ghost vb = views_of(b@);
    if a.len() != b.len() {
        return false;
    }
    let mut i: usize = 0;
    while i < a.len()
        invariant
            i <= a@.len(),
            a@.len() == b@.len(),
            va == views_of(a@),
            vb == views_of(b@),
            forall|j: int| 0 <= j < i ==> type_eq(va[j], #[trigger] vb[j]),
        decreases a@.len() - i,
    {
        proof {
            assert(va[i as int] == a@[i as int]@);
            assert(vb[i as int] == b@[i as int]@);
        }
        if !a[i].same_as(&b[i]) {
            return false;
        }
        i += 1;
    }
    true
}

} // verus!
