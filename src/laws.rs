use vstd::prelude::*;
use crate::schema::{Field, TypeDefinition, UnionType};
use crate::nullable::{NullableType, normalize, same_type};
use crate::union_check::{
    last_named, last_of_name, finding_at, findings, union_field_set, union_entries,
};
use crate::query_trail::{
    surface_of, reachable_fields, trail_defs, union_findings, QueryTrailSurface, WalkMethod,
    WalkKind, ArgsAccessor, ArgumentAccessor, CodeGenPass, names_of,
};
use crate::union_check::models_of_findings;
use crate::convert::{
    result_model, spec_convert, LookAheadValue, DefaultScalarValue, HostType, HostModel, ErrorModel,
};
use crate::registry::ScalarFlags;

verus! {

/// The field names of a union's entries.
pub open spec fn entry_names(e: Seq<(Seq<char>, Field)>) -> Seq<Seq<char>> {
    e.map_values(|x: (Seq<char>, Field)| x.1.name@)
}

/// The names of a sequence of fields.
pub open spec fn field_names(s: Seq<Field>) -> Seq<Seq<char>> {
    s.map_values(|f: Field| f.name@)
}

/// The normalized type of entry `k`.
pub open spec fn entry_type(e: Seq<(Seq<char>, Field)>, k: int) -> NullableType {
    normalize(e[k].1.field_type, false)
}

proof fn lemma_same_type_refl(a: NullableType)
    ensures
        same_type(a, a),
    decreases a,
{
    match a {
        NullableType::NamedType(_) => {},
        NullableType::ListType(x) => lemma_same_type_refl(*x),
        NullableType::NullableType(x) => lemma_same_type_refl(*x),
    }
}

proof fn lemma_same_type_sym(a: NullableType, b: NullableType)
    requires
        same_type(a, b),
    ensures
        same_type(b, a),
    decreases a,
{
    match (a, b) {
        (NullableType::ListType(x), NullableType::ListType(y)) => lemma_same_type_sym(*x, *y),
        (NullableType::NullableType(x), NullableType::NullableType(y)) => lemma_same_type_sym(*x, *y),
        _ => {},
    }
}

proof fn lemma_same_type_trans(a: NullableType, b: NullableType, c: NullableType)
    requires
        same_type(a, b),
        same_type(b, c),
    ensures
        same_type(a, c),
    decreases a,
{
    match (a, b, c) {
        (NullableType::ListType(x), NullableType::ListType(y), NullableType::ListType(z)) => lemma_same_type_trans(*x, *y, *z),
        (NullableType::NullableType(x), NullableType::NullableType(y), NullableType::NullableType(z)) => lemma_same_type_trans(*x, *y, *z),
        _ => {},
    }
}

proof fn lemma_last_named(e: Seq<(Seq<char>, Field)>, name: Seq<char>, n: nat)
    requires
        n <= e.len(),
    ensures
        last_named(e, name, n) is None <==> forall|j: int| 0 <= j < n ==> e[j].1.name@ != name,
        last_named(e, name, n) matches Some(j) ==> j < n && e[j as int].1.name@ == name && forall|i: int| j < i < n ==> e[i].1.name@ != name,
    decreases n,
{
    if n > 0 {
        lemma_last_named(e, name, (n - 1) as nat);
    }
}

proof fn lemma_findings_hold(u: Seq<char>, e: Seq<(Seq<char>, Field)>, n: nat, name: Seq<char>)
    requires
        n <= e.len(),
    ensures
        (exists|i: int| 0 <= i < findings(u, e, n).len() && #[trigger] findings(u, e, n)[i].field_name == name)
            <==> (exists|k: int| 0 <= k < n && e[k].1.name@ == name && #[trigger] finding_at(u, e, k as nat) is Some),
    decreases n,
{
    if n > 0 {
        lemma_findings_hold(u, e, (n - 1) as nat, name);
        let prev = findings(u, e, (n - 1) as nat);
        let k = n - 1;
        match finding_at(u, e, k as nat) {
            Some(d) => {
                assert(findings(u, e, n) == prev.push(d));
                assert(d.field_name == e[k].1.name@);
                if exists|k2: int| 0 <= k2 < n && e[k2].1.name@ == name && #[trigger] finding_at(u, e, k2 as nat) is Some {
                    let k2 = choose|k2: int| 0 <= k2 < n && e[k2].1.name@ == name && #[trigger] finding_at(u, e, k2 as nat) is Some;
                    if k2 < k {
                        let i = choose|i: int| 0 <= i < prev.len() && #[trigger] prev[i].field_name == name;
                        assert(findings(u, e, n)[i] == prev[i]);
                    } else {
                        assert(findings(u, e, n)[prev.len() as int] == d);
                    }
                }
                if exists|i: int| 0 <= i < findings(u, e, n).len() && #[trigger] findings(u, e, n)[i].field_name == name {
                    let i = choose|i: int| 0 <= i < findings(u, e, n).len() && #[trigger] findings(u, e, n)[i].field_name == name;
                    if i < prev.len() {
                        assert(prev[i] == findings(u, e, n)[i]);
                    }
                }
            },
            None => {
                assert(findings(u, e, n) == prev);
            },
        }
    }
}

/// With no finding for field `name` among the first `n` entries, every entry
/// of that name has the type of its first one.
proof fn lemma_agree_with_first(u: Seq<char>, e: Seq<(Seq<char>, Field)>, name: Seq<char>, first: int, n: nat)
    requires
        n <= e.len(),
        0 <= first < e.len(),
        e[first].1.name@ == name,
        forall|j: int| 0 <= j < first ==> e[j].1.name@ != name,
        forall|k: int| 0 <= k < e.len() && e[k].1.name@ == name ==> #[trigger] finding_at(u, e, k as nat) is None,
    ensures
        forall|k: int| 0 <= k < n && e[k].1.name@ == name ==> same_type(entry_type(e, first), #[trigger] entry_type(e, k)),
    decreases n,
{
    if n > 0 {
        lemma_agree_with_first(u, e, name, first, (n - 1) as nat);
        let k = n - 1;
        if e[k].1.name@ == name {
            lemma_last_named(e, name, k as nat);
            assert(finding_at(u, e, k as nat) is None);
            match last_named(e, name, k as nat) {
                Some(j) => {
                    assert(same_type(entry_type(e, j as int), entry_type(e, k)));
                    lemma_same_type_trans(entry_type(e, first), entry_type(e, j as int), entry_type(e, k));
                },
                None => {
                    if first < k {
                        assert(e[first].1.name@ == name);
                    }
                    assert(first == k);
                    lemma_same_type_refl(entry_type(e, k));
                },
            }
        }
    }
}

/// A union's findings name a field exactly when two of its member types
/// declare fields of that name whose normalized types differ: a union whose
/// overlapping fields all agree gets no finding.
pub proof fn law_union_mismatch_reported(defs: Seq<TypeDefinition>, u: UnionType, name: Seq<char>)
    ensures
        ({
            let e = union_entries(defs, u);
            let f = findings(u.name@, e, e.len());
            (exists|i: int| 0 <= i < f.len() && #[trigger] f[i].field_name == name && f[i].union_name == u.name@)
                <==> (exists|j: int, k: int|
                0 <= j < k < e.len() && e[j].1.name@ == name && e[k].1.name@ == name
                    && !same_type(#[trigger] entry_type(e, j), #[trigger] entry_type(e, k)))
        }),
{
    let e = union_entries(defs, u);
    let f = findings(u.name@, e, e.len());
    lemma_findings_hold(u.name@, e, e.len(), name);
    lemma_union_names(u.name@, e, e.len());
    if exists|i: int| 0 <= i < f.len() && #[trigger] f[i].field_name == name && f[i].union_name == u.name@ {
        let k = choose|k: int| 0 <= k < e.len() && e[k].1.name@ == name && #[trigger] finding_at(u.name@, e, k as nat) is Some;
        lemma_last_named(e, name, k as nat);
        let j = last_named(e, name, k as nat)->Some_0 as int;
        assert(!same_type(entry_type(e, j), entry_type(e, k)));
    }
    if exists|j: int, k: int|
        0 <= j < k < e.len() && e[j].1.name@ == name && e[k].1.name@ == name
            && !same_type(#[trigger] entry_type(e, j), #[trigger] entry_type(e, k)) {
        let (j, k) = choose|j: int, k: int|
            0 <= j < k < e.len() && e[j].1.name@ == name && e[k].1.name@ == name
                && !same_type(#[trigger] entry_type(e, j), #[trigger] entry_type(e, k));
        if !exists|k2: int| 0 <= k2 < e.len() && e[k2].1.name@ == name && #[trigger] finding_at(u.name@, e, k2 as nat) is Some {
            lemma_last_named(e, name, e.len());
            let first = first_index(e, name, e.len());
            lemma_agree_with_first(u.name@, e, name, first, e.len());
            lemma_same_type_sym(entry_type(e, first), entry_type(e, j));
            lemma_same_type_trans(entry_type(e, j), entry_type(e, first), entry_type(e, k));
        }
        let i = choose|i: int| 0 <= i < f.len() && #[trigger] f[i].field_name == name;
        assert(f[i].union_name == u.name@);
    }
}

/// Every finding of a union names that union.
proof fn lemma_union_names(u: Seq<char>, e: Seq<(Seq<char>, Field)>, n: nat)
    requires
        n <= e.len(),
    ensures
        forall|i: int| 0 <= i < findings(u, e, n).len() ==> (#[trigger] findings(u, e, n)[i]).union_name == u,
    decreases n,
{
    if n > 0 {
        lemma_union_names(u, e, (n - 1) as nat);
    }
}

/// The position of the first entry named `name`, where one is.
proof fn first_index(e: Seq<(Seq<char>, Field)>, name: Seq<char>, n: nat) -> (r: int)
    requires
        n <= e.len(),
        exists|k: int| 0 <= k < n && e[k].1.name@ == name,
    ensures
        0 <= r < n,
        e[r].1.name@ == name,
        forall|j: int| 0 <= j < r ==> e[j].1.name@ != name,
    decreases n,
{
    if exists|k: int| 0 <= k < n - 1 && e[k].1.name@ == name {
        first_index(e, name, (n - 1) as nat)
    } else {
        (n - 1) as int
    }
}

proof fn lemma_union_field_set(e: Seq<(Seq<char>, Field)>, n: nat)
    requires
        n <= e.len(),
    ensures
        field_names(union_field_set(e, n)).no_duplicates(),
        field_names(union_field_set(e, n)).to_set() == entry_names(e.take(n as int)).to_set(),
    decreases n,
{
    if n > 0 {
        let k = (n - 1) as int;
        lemma_union_field_set(e, (n - 1) as nat);
        lemma_last_named(e, e[k].1.name@, (n - 1) as nat);
        let prev = union_field_set(e, (n - 1) as nat);
        let name = e[k].1.name@;
        assert(entry_names(e.take(n as int)) =~= entry_names(e.take(k)).push(name));
        if last_named(e, name, (n - 1) as nat) is None {
            lemma_last_named(e, name, e.len());
            assert(last_of_name(e, k).name@ == name);
            assert(field_names(prev.push(last_of_name(e, k))) =~= field_names(prev).push(name));
            assert(!entry_names(e.take(k)).contains(name)) by {
                if entry_names(e.take(k)).contains(name) {
                    let j = choose|j: int| 0 <= j < k && entry_names(e.take(k))[j] == name;
                    assert(e.take(k)[j] == e[j]);
                }
            }
            assert(!field_names(prev).to_set().contains(name));
            field_names(prev).lemma_push_to_set_commute(name);
            assert(field_names(prev).push(name).to_set() =~= field_names(prev).to_set().insert(name));
            entry_names(e.take(k)).lemma_push_to_set_commute(name);
            assert(entry_names(e.take(k)).push(name).to_set() =~= entry_names(e.take(k)).to_set().insert(name));
        } else {
            let j = last_named(e, name, (n - 1) as nat)->Some_0 as int;
            assert(entry_names(e.take(k))[j] == name);
            assert(entry_names(e.take(k)).to_set().contains(name));
            entry_names(e.take(k)).lemma_push_to_set_commute(name);
            assert(entry_names(e.take(k)).push(name).to_set() =~= entry_names(e.take(k)).to_set().insert(name));
            assert(entry_names(e.take(k)).to_set().insert(name) =~= entry_names(e.take(k)).to_set());
        }
    }
}

/// A navigation surface has one method per distinct field reachable for its
/// type: per declared field of an object or interface, per distinct field
/// name among the member types of a union.
pub proof fn law_one_method_per_field(defs: Seq<TypeDefinition>, flags: ScalarFlags, d: TypeDefinition, s: QueryTrailSurface)
    requires
        surface_of(defs, flags, d, s),
    ensures
        match d {
            TypeDefinition::Object(o) => s.methods@.len() == o.fields@.len(),
            TypeDefinition::Interface(i) => s.methods@.len() == i.fields@.len(),
            TypeDefinition::Union(u) => s.methods@.len() == entry_names(union_entries(defs, u)).to_set().len(),
            _ => s.methods@.len() == 0,
        },
{
    if let TypeDefinition::Union(u) = d {
        let e = union_entries(defs, u);
        lemma_union_field_set(e, e.len());
        assert(e.take(e.len() as int) =~= e);
        field_names(union_field_set(e, e.len())).unique_seq_to_set();
    }
}

/// Two argument accessors are the same in every part a generator reads.
pub open spec fn same_accessor(a: ArgumentAccessor, b: ArgumentAccessor) -> bool {
    &&& a.method_name@ == b.method_name@
    &&& a.argument_name@ == b.argument_name@
    &&& a.value_type == b.value_type
    &&& a.host_type == b.host_type
    &&& match (a.default_value, b.default_value) {
        (Some(x), Some(y)) => result_model(x) == result_model(y),
        (None, None) => true,
        _ => false,
    }
}

/// Two argument surfaces are the same in every part a generator reads.
pub open spec fn same_args(a: ArgsAccessor, b: ArgsAccessor) -> bool {
    match (a, b) {
        (ArgsAccessor::Unit, ArgsAccessor::Unit) => true,
        (
            ArgsAccessor::Arguments { type_ident: t1, accessors: x1 },
            ArgsAccessor::Arguments { type_ident: t2, accessors: x2 },
        ) => t1@ == t2@ && x1@.len() == x2@.len() && forall|i: int|
            0 <= i < x1@.len() ==> same_accessor(#[trigger] x1@[i], x2@[i]),
        _ => false,
    }
}

/// Two navigation methods are the same in every part a generator reads.
pub open spec fn same_method(a: WalkMethod, b: WalkMethod) -> bool {
    &&& a.field_name@ == b.field_name@
    &&& a.method_name@ == b.method_name@
    &&& a.selection_name@ == b.selection_name@
    &&& match (a.kind, b.kind) {
        (WalkKind::Leaf, WalkKind::Leaf) => true,
        (WalkKind::Walk(x), WalkKind::Walk(y)) => x@ == y@,
        _ => false,
    }
    &&& a.args_method_name@ == b.args_method_name@
    &&& same_args(a.args, b.args)
}

/// Two navigation surfaces are the same in every part a generator reads.
pub open spec fn same_surface(a: QueryTrailSurface, b: QueryTrailSurface) -> bool {
    &&& a.type_ident@ == b.type_ident@
    &&& a.trait_name@ == b.trait_name@
    &&& a.args_trait_name@ == b.args_trait_name@
    &&& a.methods@.len() == b.methods@.len()
    &&& forall|i: int| 0 <= i < a.methods@.len() ==> same_method(#[trigger] a.methods@[i], b.methods@[i])
    &&& names_of(a.downcasts@) == names_of(b.downcasts@)
}

/// Planning the same definition twice gives the same surface: what a
/// surface holds is fixed by the document alone.
pub proof fn law_surface_deterministic(
    defs: Seq<TypeDefinition>,
    flags: ScalarFlags,
    d: TypeDefinition,
    a: QueryTrailSurface,
    b: QueryTrailSurface,
)
    requires
        surface_of(defs, flags, d, a),
        surface_of(defs, flags, d, b),
    ensures
        same_surface(a, b),
{
    let fields = reachable_fields(defs, d);
    assert forall|i: int| 0 <= i < a.methods@.len() implies same_method(#[trigger] a.methods@[i], b.methods@[i]) by {
        let ma = a.methods@[i];
        let mb = b.methods@[i];
        assert(crate::query_trail::walk_method_of(defs, flags, def_name_of(d), fields[i], ma));
        assert(crate::query_trail::walk_method_of(defs, flags, def_name_of(d), fields[i], mb));
        if fields[i].arguments@.len() > 0 {
            if let (
                ArgsAccessor::Arguments { type_ident: t1, accessors: x1 },
                ArgsAccessor::Arguments { type_ident: t2, accessors: x2 },
            ) = (ma.args, mb.args) {
                assert forall|k: int| 0 <= k < x1@.len() implies same_accessor(#[trigger] x1@[k], x2@[k]) by {
                    assert(crate::query_trail::accessor_of(defs, flags, fields[i].arguments@[k], x1@[k]));
                    assert(crate::query_trail::accessor_of(defs, flags, fields[i].arguments@[k], x2@[k]));
                }
            }
        }
    }
}

pub open spec fn def_name_of(d: TypeDefinition) -> Seq<char> {
    crate::query_trail::def_name(d)
}

/// What a fresh pass holds after planning the query trails of a document
/// with definitions `defs`.
pub open spec fn planned(defs: Seq<TypeDefinition>, p: CodeGenPass) -> bool {
    &&& p.scalars == ScalarFlags::of(defs)
    &&& p.surfaces@.len() == trail_defs(defs, defs.len()).len()
    &&& forall|k: int|
        0 <= k < p.surfaces@.len() ==> surface_of(defs, ScalarFlags::of(defs), trail_defs(defs, defs.len())[k], #[trigger] p.surfaces@[k])
    &&& models_of_findings(p.errors@) == union_findings(defs, defs.len())
}

/// Compiling the same document twice gives the same surfaces, one by one,
/// and the same findings.
pub proof fn law_compile_twice(defs: Seq<TypeDefinition>, a: CodeGenPass, b: CodeGenPass)
    requires
        planned(defs, a),
        planned(defs, b),
    ensures
        a.surfaces@.len() == b.surfaces@.len(),
        forall|k: int| 0 <= k < a.surfaces@.len() ==> same_surface(#[trigger] a.surfaces@[k], b.surfaces@[k]),
        models_of_findings(a.errors@) == models_of_findings(b.errors@),
{
    assert forall|k: int| 0 <= k < a.surfaces@.len() implies same_surface(#[trigger] a.surfaces@[k], b.surfaces@[k]) by {
        law_surface_deterministic(defs, ScalarFlags::of(defs), trail_defs(defs, defs.len())[k], a.surfaces@[k], b.surfaces@[k]);
    }
}

/// A literal of each scalar kind, written as the dynamic value of that kind,
/// converts back to itself: an integer, a float (by its bits), a string, a
/// boolean, and an optional string both absent and present.
pub proof fn law_scalar_round_trip(n: i32, bits: u64, s: String, b: bool)
    ensures
        spec_convert(LookAheadValue::Scalar(DefaultScalarValue::Int(n)), HostType::Int)
            == Ok::<HostModel, ErrorModel>(HostModel::Int(n)),
        spec_convert(LookAheadValue::Scalar(DefaultScalarValue::Float(bits)), HostType::Float)
            == Ok::<HostModel, ErrorModel>(HostModel::Float(bits)),
        spec_convert(LookAheadValue::Scalar(DefaultScalarValue::String(s)), HostType::String)
            == Ok::<HostModel, ErrorModel>(HostModel::String(s@)),
        spec_convert(LookAheadValue::Scalar(DefaultScalarValue::Boolean(b)), HostType::Boolean)
            == Ok::<HostModel, ErrorModel>(HostModel::Boolean(b)),
        spec_convert(LookAheadValue::Null, HostType::Optional(Box::new(HostType::String)))
            == Ok::<HostModel, ErrorModel>(HostModel::Optional(None)),
        spec_convert(
            LookAheadValue::Scalar(DefaultScalarValue::String(s)),
            HostType::Optional(Box::new(HostType::String)),
        ) == Ok::<HostModel, ErrorModel>(HostModel::Optional(Some(Box::new(HostModel::String(s@))))),
{
    reveal_with_fuel(spec_convert, 2);
}

} // verus!
