//! The type model that the planner, the pipeline compiler and the response
//! serializer share.
use vstd::prelude::*;
use crate::scalar_types::{BsonScalarType, MongoScalarType};

verus! {

/// A resolved type. Object types are held by value; a synthetic one has no name.
#[derive(Debug, PartialEq)]
pub enum Type {
    Scalar(MongoScalarType),
    Object(ObjectType),
    ArrayOf(Box<Type>),
    Nullable(Box<Type>),
}

#[derive(Debug, PartialEq)]
pub struct ObjectType {
    pub name: Option<String>,
    pub fields: Vec<(String, Type)>,
}

/// A type as plain data.
pub enum TypeV {
    Scalar(MongoScalarType),
    Object(Option<Seq<char>>, Seq<(Seq<char>, TypeV)>),
    ArrayOf(Box<TypeV>),
    Nullable(Box<TypeV>),
}

pub open spec fn opt_string_view(s: Option<String>) -> Option<Seq<char>> {
    match s {
        Some(v) => Some(v@),
        None => None,
    }
}

pub open spec fn type_view(t: Type) -> TypeV
    decreases t,
{
    match t {
        Type::Scalar(s) => TypeV::Scalar(s),
        Type::Object(o) => TypeV::Object(opt_string_view(o.name), type_fields_view(o.fields@)),
        Type::ArrayOf(e) => TypeV::ArrayOf(Box::new(type_view(*e))),
        Type::Nullable(e) => TypeV::Nullable(Box::new(type_view(*e))),
    }
}

pub open spec fn type_fields_view(s: Seq<(String, Type)>) -> Seq<(Seq<char>, TypeV)>
    decreases s,
{
    if s.len() == 0 {
        Seq::empty()
    } else {
        type_fields_view(s.subrange(0, s.len() - 1)).push((s[s.len() - 1].0@, type_view(s[s.len() - 1].1)))
    }
}

pub proof fn lemma_type_fields_view(s: Seq<(String, Type)>)
    ensures
        type_fields_view(s).len() == s.len(),
        forall|i: int| 0 <= i < s.len() ==> #[trigger] type_fields_view(s)[i] == (s[i].0@, type_view(s[i].1)),
    decreases s.len(),
{
    if s.len() > 0 {
        lemma_type_fields_view(s.subrange(0, s.len() - 1));
    }
}

impl View for Type {
    type V = TypeV;

    open spec fn view(&self) -> TypeV {
        type_view(*self)
    }
}

/// A null value is allowed: the type is nullable, or it is the `Null` scalar,
/// or any BSON value.
pub open spec fn spec_is_nullable(t: TypeV) -> bool {
    match t {
        TypeV::Nullable(_) => true,
        TypeV::Scalar(MongoScalarType::Bson(BsonScalarType::Null)) => true,
        TypeV::Scalar(MongoScalarType::ExtendedJSON) => true,
        _ => false,
    }
}

/// The nullable form of `t`: `t` itself where it is already `Nullable`.
pub open spec fn spec_into_nullable(t: TypeV) -> TypeV {
    if t is Nullable {
        t
    } else {
        TypeV::Nullable(Box::new(t))
    }
}

/// Making a type nullable twice is making it nullable once.
pub proof fn lemma_into_nullable_idempotent(t: TypeV)
    ensures
        spec_into_nullable(spec_into_nullable(t)) == spec_into_nullable(t),
        spec_is_nullable(spec_into_nullable(t)),
{
}

/// Whether null is a value of the type.
pub fn is_nullable(t: &Type) -> (r: bool)
    ensures
        r == spec_is_nullable(t@),
{
    match t {
        Type::Nullable(_) => true,
        Type::Scalar(MongoScalarType::Bson(BsonScalarType::Null)) => true,
        Type::Scalar(MongoScalarType::ExtendedJSON) => true,
        _ => false,
    }
}

impl Type {
    /// Makes the type nullable; a nullable type stays as it is.
    pub fn into_nullable(self) -> (r: Type)
        ensures
            r@ == spec_into_nullable(self@),
    {
        match self {
            Type::Nullable(_) => self,
            _ => Type::Nullable(Box::new(self)),
        }
    }
}

/// A copy of an optional text.
pub fn clone_opt_string(s: &Option<String>) -> (r: Option<String>)
    ensures
        r == *s,
{
    match s {
        Some(v) => Some(v.clone()),
        None => None,
    }
}

/// A copy of `t`.
pub fn clone_type(t: &Type) -> (r: Type)
    ensures
        r@ == t@,
    decreases t,
{
    match t {
        Type::Scalar(s) => Type::Scalar(*s),
        Type::Object(o) => Type::Object(ObjectType { name: clone_opt_string(&o.name), fields: clone_type_fields(&o.fields) }),
        Type::ArrayOf(e) => Type::ArrayOf(Box::new(clone_type(e))),
        Type::Nullable(e) => Type::Nullable(Box::new(clone_type(e))),
    }
}

fn clone_type_fields(fields: &Vec<(String, Type)>) -> (r: Vec<(String, Type)>)
    ensures
        type_fields_view(r@) == type_fields_view(fields@),
    decreases fields,
{
    let mut r: Vec<(String, Type)> = Vec::new();
    let mut i: usize = 0;
    while i < fields.len()
        invariant
            i <= fields@.len(),
            type_fields_view(r@) == type_fields_view(fields@.subrange(0, i as int)),
        decreases fields.len() - i,
    {
        let t = clone_type(&fields[i].1);
        let ghost before = r@;
        r.push((fields[i].0.clone(), t));
        proof {
            let s = fields@.subrange(0, i + 1);
            assert(s.subrange(0, s.len() - 1) =~= fields@.subrange(0, i as int));
            assert(r@.subrange(0, r@.len() - 1) =~= before);
        }
        i = i + 1;
    }
    assert(fields@.subrange(0, i as int) =~= fields@);
    r
}

} // verus!
