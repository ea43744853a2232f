use vstd::prelude::*;
use crate::schema::{Field, UnionType, TypeDefinition};
use crate::nullable::{NullableType, normalize, same_type};
use crate::fields_map::{FieldsMap, object_fields, read_fields};

verus! {

/// The fields of a union's first `n` member types, each with the member it
/// comes from, in member order and then field order.
pub open spec fn member_fields(defs: Seq<TypeDefinition>, members: Seq<String>, n: nat) -> Seq<
    (Seq<char>, Field),
>
    decreases n,
{
    if n == 0 || n > members.len() {
        Seq::empty()
    } else {
        member_fields(defs, members, (n - 1) as nat) + object_fields(
            defs,
            members[n - 1]@,
            defs.len(),
        ).map_values(|f: Field| (members[n - 1]@, f))
    }
}

/// All fields of a union's member types, each with its member.
pub open spec fn union_entries(defs: Seq<TypeDefinition>, u: UnionType) -> Seq<(Seq<char>, Field)> {
    member_fields(defs, u.types@, u.types@.len())
}

/// The flat entries held by references, read through them.
pub open spec fn read_entries(s: Seq<(&String, &Field)>) -> Seq<(Seq<char>, Field)> {
    s.map_values(|e: (&String, &Field)| (e.0@, *e.1))
}

/// Collects the fields of every member type of the union, each with its
/// member, in member order and then field order.
pub fn union_field_entries<'a>(map: &FieldsMap<'a>, u: &'a UnionType) -> (r: Vec<(&'a String, &'a Field)>)
    requires
        map.wf(),
    ensures
        read_entries(r@) == union_entries(map.definitions(), *u),
{
    let ghost defs = map.definitions();
    let mut r: Vec<(&'a String, &'a Field)> = Vec::new();
    let mut i: usize = 0;
    while i < u.types.len()
        invariant
            map.wf(),
            defs == map.definitions(),
            i <= u.types@.len(),
            read_entries(r@) == member_fields(defs, u.types@, i as nat),
        decreases u.types@.len() - i,
    {
        let member = &u.types[i];
        let ghost before = read_entries(r@);
        let ghost added = object_fields(defs, member@, defs.len()).map_values(
            |f: Field| (member@, f),
        );
        match map.get(member) {
            Some(fields) => {
                let mut j: usize = 0;
                while j < fields.len()
                    invariant
                        j <= fields@.len(),
                        read_fields(fields@) == object_fields(defs, member@, defs.len()),
                        added == object_fields(defs, member@, defs.len()).map_values(
                            |f: Field| (member@, f),
                        ),
                        read_entries(r@) == before + added.take(j as int),
                    decreases fields@.len() - j,
                {
                    let ghost r0 = r@;
                    r.push((member, fields[j]));
                    proof {
                        assert(read_entries(r@) =~= read_entries(r0).push((member@, *fields@[j as int])));
                        assert(read_fields(fields@)[j as int] == *fields@[j as int]);
                        assert(added.take(j + 1) =~= added.take(j as int).push(added[j as int]));
                    }
                    j = j + 1;
                }
                proof {
                    assert(added.take(added.len() as int) =~= added);
                }
            },
            None => {
                proof {
                    assert(added =~= Seq::<(Seq<char>, Field)>::empty());
                    assert(read_entries(r@) =~= before + added);
                }
            },
        }
        proof {
            assert(u.types@[i as int] == *member);
        }
        i = i + 1;
    }
    r
}

/// The position of the last entry before `n` whose field is named `name`.
pub open spec fn last_named(e: Seq<(Seq<char>, Field)>, name: Seq<char>, n: nat) -> Option<nat>
    decreases n,
{
    if n == 0 || n > e.len() {
        None
    } else if e[n - 1].1.name@ == name {
        Some((n - 1) as nat)
    } else {
        last_named(e, name, (n - 1) as nat)
    }
}

/// A union whose member types declare a field of one name with two
/// different types.
#[derive(Debug)]
pub struct UnionFieldTypeMismatch {
    pub union_name: String,
    pub field_name: String,
    /// The member type that declared the field before.
    pub type_a: String,
    /// The member type whose field differs from it.
    pub type_b: String,
    pub field_type_a: NullableType,
    pub field_type_b: NullableType,
}

/// The mathematical model of a mismatch finding.
pub struct MismatchModel {
    pub union_name: Seq<char>,
    pub field_name: Seq<char>,
    pub type_a: Seq<char>,
    pub type_b: Seq<char>,
    pub field_type_a: NullableType,
    pub field_type_b: NullableType,
}

impl UnionFieldTypeMismatch {
    pub open spec fn model(self) -> MismatchModel {
        MismatchModel {
            union_name: self.union_name@,
            field_name: self.field_name@,
            type_a: self.type_a@,
            type_b: self.type_b@,
            field_type_a: self.field_type_a,
            field_type_b: self.field_type_b,
        }
    }
}

pub open spec fn models_of_findings(s: Seq<UnionFieldTypeMismatch>) -> Seq<MismatchModel> {
    s.map_values(|d: UnionFieldTypeMismatch| d.model())
}

/// The finding at entry `k`, if any: the entry's field type differs from the
/// one of the last earlier field of the same name.
pub open spec fn finding_at(union_name: Seq<char>, e: Seq<(Seq<char>, Field)>, k: nat) -> Option<
    MismatchModel,
> {
    match last_named(e, e[k as int].1.name@, k) {
        Some(j) => {
            let a = normalize(e[j as int].1.field_type, false);
            let b = normalize(e[k as int].1.field_type, false);
            if same_type(a, b) {
                None
            } else {
                Some(
                    MismatchModel {
                        union_name,
                        field_name: e[k as int].1.name@,
                        type_a: e[j as int].0,
                        type_b: e[k as int].0,
                        field_type_a: a,
                        field_type_b: b,
                    },
                )
            }
        },
        None => None,
    }
}

/// The findings of the first `n` entries, in entry order.
pub open spec fn findings(union_name: Seq<char>, e: Seq<(Seq<char>, Field)>, n: nat) -> Seq<
    MismatchModel,
>
    decreases n,
{
    if n == 0 || n > e.len() {
        Seq::empty()
    } else {
        let prev = findings(union_name, e, (n - 1) as nat);
        match finding_at(union_name, e, (n - 1) as nat) {
            Some(d) => prev.push(d),
            None => prev,
        }
    }
}

/// The position of the last of the first `k` entries whose field is named
/// `name`.
fn find_last_named(entries: &Vec<(&String, &Field)>, name: &String, k: usize) -> (r: Option<usize>)
    requires
        k <= entries@.len(),
    ensures
        match r {
            Some(p) => last_named(read_entries(entries@), name@, k as nat) == Some(p as nat) && p < k,
            None => last_named(read_entries(entries@), name@, k as nat) is None,
        },
{
    let ghost e = read_entries(entries@);
    let mut j: usize = k;
    while j > 0
        invariant
            e == read_entries(entries@),
            j <= k <= entries@.len(),
            last_named(e, name@, k as nat) == last_named(e, name@, j as nat),
        decreases j,
    {
        proof {
            assert(e[j - 1].1 == *entries@[j - 1].1);
        }
        if entries[j - 1].1.name == *name {
            return Some(j - 1);
        }
        j = j - 1;
    }
    None
}

/// Compares, for every field of the union's member types, its normalized
/// type with the one of the last earlier member field of the same name, and
/// reports each difference. Every member is checked, whatever was found
/// before.
pub fn error_msg_if_field_types_dont_overlap<'a>(map: &FieldsMap<'a>, u: &'a UnionType) -> (r: Vec<
    UnionFieldTypeMismatch,
>)
    requires
        map.wf(),
    ensures
        models_of_findings(r@) == findings(
            u.name@,
            union_entries(map.definitions(), *u),
            union_entries(map.definitions(), *u).len(),
        ),
{
    let entries = union_field_entries(map, u);
    let ghost e = read_entries(entries@);
    let mut r: Vec<UnionFieldTypeMismatch> = Vec::new();
    let mut k: usize = 0;
    while k < entries.len()
        invariant
            e == read_entries(entries@),
            k <= entries@.len(),
            models_of_findings(r@) == findings(u.name@, e, k as nat),
        decreases entries@.len() - k,
    {
        let (member_b, field_b) = entries[k];
        let ghost name = e[k as int].1.name@;
        proof {
            assert(*field_b == e[k as int].1);
        }
        let prev = find_last_named(&entries, &field_b.name, k);
        let ghost r0 = r@;
        match prev {
            Some(p) => {
                let (member_a, field_a) = entries[p];
                let type_a = NullableType::from_type(&field_a.field_type);
                let type_b = NullableType::from_type(&field_b.field_type);
                if !type_a.same_as(&type_b) {
                    r.push(
                        UnionFieldTypeMismatch {
                            union_name: u.name.clone(),
                            field_name: field_b.name.clone(),
                            type_a: member_a.clone(),
                            type_b: member_b.clone(),
                            field_type_a: type_a,
                            field_type_b: type_b,
                        },
                    );
                }
            },
            None => {
                proof {
                    assert(last_named(e, name, 0) is None);
                }
            },
        }
        proof {
            assert(models_of_findings(r@) =~= findings(u.name@, e, (k + 1) as nat));
        }
        k = k + 1;
    }
    r
}

/// The field that stands for the name of entry `k` in the union's field set:
/// the last entry of that name wins.
pub open spec fn last_of_name(e: Seq<(Seq<char>, Field)>, k: int) -> Field {
    match last_named(e, e[k].1.name@, e.len()) {
        Some(j) => e[j as int].1,
        None => e[k].1,
    }
}

/// The union's field set among the first `n` entries: each field name once,
/// in the order the names first occur, the last field of that name among all
/// entries standing for it.
pub open spec fn union_field_set(e: Seq<(Seq<char>, Field)>, n: nat) -> Seq<Field>
    decreases n,
{
    if n == 0 || n > e.len() {
        Seq::empty()
    } else {
        let prev = union_field_set(e, (n - 1) as nat);
        if last_named(e, e[n - 1].1.name@, (n - 1) as nat) is None {
            prev.push(last_of_name(e, n - 1))
        } else {
            prev
        }
    }
}

/// The fields of all member types of the union, one per field name, in the
/// order the names first occur. Where members declare a field of one name
/// with different types, the field of the last such member is the one kept.
pub fn build_union_fields_set<'a>(map: &FieldsMap<'a>, u: &'a UnionType) -> (r: Vec<&'a Field>)
    requires
        map.wf(),
    ensures
        read_fields(r@) == union_field_set(
            union_entries(map.definitions(), *u),
            union_entries(map.definitions(), *u).len(),
        ),
{
    let entries = union_field_entries(map, u);
    let ghost e = read_entries(entries@);
    let mut r: Vec<&'a Field> = Vec::new();
    let mut k: usize = 0;
    while k < entries.len()
        invariant
            e == read_entries(entries@),
            k <= entries@.len(),
            read_fields(r@) == union_field_set(e, k as nat),
        decreases entries@.len() - k,
    {
        let field = entries[k].1;
        proof {
            assert(*field == e[k as int].1);
        }
        let ghost r0 = r@;
        if find_last_named(&entries, &field.name, k).is_none() {
            let kept = match find_last_named(&entries, &field.name, entries.len()) {
                Some(p) => entries[p].1,
                None => field,
            };
            proof {
                assert(*kept == last_of_name(e, k as int));
            }
            r.push(kept);
            proof {
                assert(read_fields(r@) =~= read_fields(r0).push(*kept));
            }
        }
        k = k + 1;
    }
    r
}

} // verus!
