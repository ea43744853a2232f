use vstd::prelude::*;
use crate::schema::{Document, TypeDefinition};

verus! {

/// Whether `d` is a scalar type named `name`.
pub open spec fn is_scalar_named(d: TypeDefinition, name: Seq<char>) -> bool {
    match d {
        TypeDefinition::Scalar(s) => s.name@ == name,
        _ => false,
    }
}

/// Whether `d` is a scalar or enum type named `name`.
pub open spec fn is_leaf_def_named(d: TypeDefinition, name: Seq<char>) -> bool {
    match d {
        TypeDefinition::Scalar(s) => s.name@ == name,
        TypeDefinition::Enum(e) => e.name@ == name,
        _ => false,
    }
}

/// Whether the document declares a scalar type named `name`.
pub open spec fn declares_scalar(defs: Seq<TypeDefinition>, name: Seq<char>) -> bool {
    exists|i: int| 0 <= i < defs.len() && #[trigger] is_scalar_named(defs[i], name)
}

/// Whether `d` is an enum type named `name`.
pub open spec fn is_enum_named(d: TypeDefinition, name: Seq<char>) -> bool {
    match d {
        TypeDefinition::Enum(e) => e.name@ == name,
        _ => false,
    }
}

/// Whether the document declares an enum type named `name`.
pub open spec fn declares_enum(defs: Seq<TypeDefinition>, name: Seq<char>) -> bool {
    exists|i: int| 0 <= i < defs.len() && #[trigger] is_enum_named(defs[i], name)
}

/// The scalar types that GraphQL itself defines.
pub open spec fn is_builtin_scalar(name: Seq<char>) -> bool {
    name == "Int"@ || name == "Float"@ || name == "String"@ || name == "Boolean"@ || name == "ID"@
}

/// Whether a field of the named type is a leaf of a query: a built-in scalar,
/// or a scalar or enum type of the document.
pub open spec fn is_leaf(defs: Seq<TypeDefinition>, name: Seq<char>) -> bool {
    is_builtin_scalar(name) || exists|i: int|
        0 <= i < defs.len() && #[trigger] is_leaf_def_named(defs[i], name)
}

/// Which of the well-known custom scalars a document declares.
#[derive(PartialEq, Eq, Structural, Clone, Copy, Debug)]
pub struct ScalarFlags {
    pub url: bool,
    pub uuid: bool,
    pub date: bool,
    pub date_time: bool,
}

impl ScalarFlags {
    /// The flags of a document.
    pub open spec fn of(defs: Seq<TypeDefinition>) -> ScalarFlags {
        ScalarFlags {
            url: declares_scalar(defs, "Url"@),
            uuid: declares_scalar(defs, "Uuid"@),
            date: declares_scalar(defs, "Date"@),
            date_time: declares_scalar(defs, "DateTime"@),
        }
    }
}

/// Whether a string equals a literal.
pub(crate) fn is_named(s: &String, lit: &str) -> (r: bool)
    ensures
        r == (s@ == lit@),
{
    *s == lit.to_owned()
}

/// Records which of the scalars `Url`, `Uuid`, `Date` and `DateTime` the
/// document declares.
pub fn declared_scalars(doc: &Document) -> (r: ScalarFlags)
    ensures
        r == ScalarFlags::of(doc.definitions@),
{
    let mut r = ScalarFlags { url: false, uuid: false, date: false, date_time: false };
    let ghost defs = doc.definitions@;
    let mut i: usize = 0;
    while i < doc.definitions.len()
        invariant
            defs == doc.definitions@,
            i <= defs.len(),
            r == ScalarFlags::of(defs.take(i as int)),
        decreases defs.len() - i,
    {
        let ghost before = defs.take(i as int);
        let ghost after = defs.take(i + 1);
        proof {
            assert(after =~= before.push(defs[i as int]));
            assert forall|name: Seq<char>|
                declares_scalar(after, name) == (declares_scalar(before, name) || is_scalar_named(defs[i as int], name)) by {
                if declares_scalar(after, name) {
                    let k = choose|k: int| 0 <= k < after.len() && #[trigger] is_scalar_named(after[k], name);
                    if k < i {
                        assert(before[k] == after[k]);
                    }
                }
                if declares_scalar(before, name) {
                    let k = choose|k: int| 0 <= k < before.len() && #[trigger] is_scalar_named(before[k], name);
                    assert(before[k] == after[k]);
                }
                if is_scalar_named(defs[i as int], name) {
                    assert(after[i as int] == defs[i as int]);
                }
            }
        }
        match &doc.definitions[i] {
            TypeDefinition::Scalar(s) => {
                if is_named(&s.name, "Url") {
                    r.url = true;
                }
                if is_named(&s.name, "Uuid") {
                    r.uuid = true;
                }
                if is_named(&s.name, "Date") {
                    r.date = true;
                }
                if is_named(&s.name, "DateTime") {
                    r.date_time = true;
                }
            },
            _ => {},
        }
        i = i + 1;
    }
    proof {
        assert(defs.take(defs.len() as int) =~= defs);
    }
    r
}

/// Whether fields of the named type are leaves of a query.
pub fn is_leaf_type(doc: &Document, name: &String) -> (r: bool)
    ensures
        r == is_leaf(doc.definitions@, name@),
{
    if is_named(name, "Int") || is_named(name, "Float") || is_named(name, "String")
        || is_named(name, "Boolean") || is_named(name, "ID") {
        return true;
    }
    let mut i: usize = 0;
    while i < doc.definitions.len()
        invariant
            i <= doc.definitions@.len(),
            !is_builtin_scalar(name@),
            forall|k: int| 0 <= k < i ==> !#[trigger] is_leaf_def_named(doc.definitions@[k], name@),
        decreases doc.definitions@.len() - i,
    {
        let found = match &doc.definitions[i] {
            TypeDefinition::Scalar(s) => s.name == *name,
            TypeDefinition::Enum(e) => e.name == *name,
            _ => false,
        };
        if found {
            proof {
                assert(is_leaf_def_named(doc.definitions@[i as int], name@));
            }
            return true;
        }
        i = i + 1;
    }
    false
}

/// Whether the document declares an enum type of the name.
pub fn is_enum_type(doc: &Document, name: &String) -> (r: bool)
    ensures
        r == declares_enum(doc.definitions@, name@),
{
    let mut i: usize = 0;
    while i < doc.definitions.len()
        invariant
            i <= doc.definitions@.len(),
            forall|k: int| 0 <= k < i ==> !#[trigger] is_enum_named(doc.definitions@[k], name@),
        decreases doc.definitions@.len() - i,
    {
        let found = match &doc.definitions[i] {
            TypeDefinition::Enum(t) => t.name == *name,
            _ => false,
        };
        if found {
            proof {
                assert(is_enum_named(doc.definitions@[i as int], name@));
            }
            return true;
        }
        i = i + 1;
    }
    false
}

/// Whether the document declares a scalar type of the name.
pub fn is_scalar_type(doc: &Document, name: &String) -> (r: bool)
    ensures
        r == declares_scalar(doc.definitions@, name@),
{
    let mut i: usize = 0;
    while i < doc.definitions.len()
        invariant
            i <= doc.definitions@.len(),
            forall|k: int| 0 <= k < i ==> !#[trigger] is_scalar_named(doc.definitions@[k], name@),
        decreases doc.definitions@.len() - i,
    {
        let found = match &doc.definitions[i] {
            TypeDefinition::Scalar(t) => t.name == *name,
            _ => false,
        };
        if found {
            proof {
                assert(is_scalar_named(doc.definitions@[i as int], name@));
            }
            return true;
        }
        i = i + 1;
    }
    false
}

} // verus!
