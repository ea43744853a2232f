use vstd::prelude::*;
use crate::schema::Type;

verus! {

/// A declared type with nullability made explicit: a value is non-null unless
/// it is wrapped in `NullableType`.
#[derive(Debug, PartialEq)]
pub enum NullableType {
    NamedType(String),
    ListType(Box<NullableType>),
    NullableType(Box<NullableType>),
}

/// The normalized form of `t`, where `non_null` says whether an enclosing
/// non-null marker has been seen.
pub open spec fn normalize(t: Type, non_null: bool) -> NullableType
    decreases t,
{
    match t {
        Type::NamedType(n) => if non_null {
            NullableType::NamedType(n)
        } else {
            NullableType::NullableType(Box::new(NullableType::NamedType(n)))
        },
        Type::ListType(inner) => if non_null {
            NullableType::ListType(Box::new(normalize(*inner, false)))
        } else {
            NullableType::NullableType(
                Box::new(NullableType::ListType(Box::new(normalize(*inner, false)))),
            )
        },
        Type::NonNullType(inner) => normalize(*inner, true),
    }
}

/// The name at the core of a declared type, under every list and non-null
/// wrapper.
pub open spec fn spec_type_name(t: Type) -> Seq<char>
    decreases t,
{
    match t {
        Type::NamedType(n) => n@,
        Type::ListType(inner) => spec_type_name(*inner),
        Type::NonNullType(inner) => spec_type_name(*inner),
    }
}

/// Two normalized types are the same: the same wrappers in the same order
/// around the same name.
pub open spec fn same_type(a: NullableType, b: NullableType) -> bool
    decreases a,
{
    match (a, b) {
        (NullableType::NamedType(x), NullableType::NamedType(y)) => x@ == y@,
        (NullableType::ListType(x), NullableType::ListType(y)) => same_type(*x, *y),
        (NullableType::NullableType(x), NullableType::NullableType(y)) => same_type(*x, *y),
        _ => false,
    }
}

fn from_type_rec(t: &Type, non_null: bool) -> (r: NullableType)
    ensures
        r == normalize(*t, non_null),
    decreases t,
{
    match t {
        Type::NamedType(n) => {
            let named = NullableType::NamedType(n.clone());
            if non_null {
                named
            } else {
                NullableType::NullableType(Box::new(named))
            }
        },
        Type::ListType(inner) => {
            let list = NullableType::ListType(Box::new(from_type_rec(inner, false)));
            if non_null {
                list
            } else {
                NullableType::NullableType(Box::new(list))
            }
        },
        Type::NonNullType(inner) => from_type_rec(inner, true),
    }
}

impl NullableType {
    /// Normalizes a declared type, keeping the order of its wrappers.
    pub fn from_type(t: &Type) -> (r: NullableType)
        ensures
            r == normalize(*t, false),
    {
        from_type_rec(t, false)
    }

    /// Whether two normalized types are the same.
    pub fn same_as(&self, other: &NullableType) -> (r: bool)
        ensures
            r == same_type(*self, *other),
        decreases self,
    {
        match (self, other) {
            (NullableType::NamedType(a), NullableType::NamedType(b)) => *a == *b,
            (NullableType::ListType(a), NullableType::ListType(b)) => a.same_as(b),
            (NullableType::NullableType(a), NullableType::NullableType(b)) => a.same_as(b),
            _ => false,
        }
    }
}

/// The name at the core of a declared type.
pub fn named_type_name(t: &Type) -> (r: String)
    ensures
        r@ == spec_type_name(*t),
    decreases t,
{
    match t {
        Type::NamedType(n) => n.clone(),
        Type::ListType(inner) => named_type_name(inner),
        Type::NonNullType(inner) => named_type_name(inner),
    }
}

} // verus!
