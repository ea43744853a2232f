use vstd::prelude::*;
use crate::schema::{Document, Field, InputValue, TypeDefinition, ObjectType};
use crate::fields_map::{build_fields_map, read_fields};
use crate::union_check::{
    UnionFieldTypeMismatch, MismatchModel, models_of_findings, findings, union_entries,
    union_field_set, error_msg_if_field_types_dont_overlap, build_union_fields_set,
};
use crate::nullable::{NullableType, normalize, spec_type_name, named_type_name};
use crate::convert::{
    HostType, HostValue, ConversionError, LookAheadValue, convert, result_model, spec_convert, HostModel,
    ErrorModel,
};
use crate::registry::{
    ScalarFlags, is_leaf, is_leaf_type, is_named, is_enum_type, is_scalar_type, declares_enum,
    declares_scalar,
};
use crate::naming::{snake_of, mixed_of, camel_of, to_snake_case, to_mixed_case, to_camel_case, concat};

verus! {

/// The host type that values of a normalized type convert into: the
/// built-in scalars, the declared scalars `Url`, `Uuid`, `Date` and
/// `DateTime` (a date-time in UTC), the enums and other custom scalars of the
/// document, and lists and optionals of these. The naive date-time conversion
/// is there for callers that choose it; a schema type never selects it.
pub open spec fn spec_host_type(defs: Seq<TypeDefinition>, flags: ScalarFlags, t: NullableType) -> Option<HostType>
    decreases t,
{
    match t {
        NullableType::NamedType(n) => if n@ == "Int"@ {
            Some(HostType::Int)
        } else if n@ == "Float"@ {
            Some(HostType::Float)
        } else if n@ == "String"@ {
            Some(HostType::String)
        } else if n@ == "Boolean"@ {
            Some(HostType::Boolean)
        } else if n@ == "ID"@ {
            Some(HostType::Id)
        } else if n@ == "Url"@ && flags.url {
            Some(HostType::Url)
        } else if n@ == "Uuid"@ && flags.uuid {
            Some(HostType::Uuid)
        } else if n@ == "Date"@ && flags.date {
            Some(HostType::Date)
        } else if n@ == "DateTime"@ && flags.date_time {
            Some(HostType::DateTime)
        } else if declares_enum(defs, n@) {
            Some(HostType::Enum)
        } else if declares_scalar(defs, n@) {
            Some(HostType::Custom)
        } else {
            None
        },
        NullableType::ListType(inner) => match spec_host_type(defs, flags, *inner) {
            Some(h) => Some(HostType::List(Box::new(h))),
            None => None,
        },
        NullableType::NullableType(inner) => match spec_host_type(defs, flags, *inner) {
            Some(h) => Some(HostType::Optional(Box::new(h))),
            None => None,
        },
    }
}

/// Finds the host type of a normalized type.
pub fn host_type(doc: &Document, flags: &ScalarFlags, t: &NullableType) -> (r: Option<HostType>)
    ensures
        r == spec_host_type(doc.definitions@, *flags, *t),
    decreases t,
{
    match t {
        NullableType::NamedType(n) => {
            if is_named(n, "Int") {
                Some(HostType::Int)
            } else if is_named(n, "Float") {
                Some(HostType::Float)
            } else if is_named(n, "String") {
                Some(HostType::String)
            } else if is_named(n, "Boolean") {
                Some(HostType::Boolean)
            } else if is_named(n, "ID") {
                Some(HostType::Id)
            } else if is_named(n, "Url") && flags.url {
                Some(HostType::Url)
            } else if is_named(n, "Uuid") && flags.uuid {
                Some(HostType::Uuid)
            } else if is_named(n, "Date") && flags.date {
                Some(HostType::Date)
            } else if is_named(n, "DateTime") && flags.date_time {
                Some(HostType::DateTime)
            } else if is_enum_type(doc, n) {
                Some(HostType::Enum)
            } else if is_scalar_type(doc, n) {
                Some(HostType::Custom)
            } else {
                None
            }
        },
        NullableType::ListType(inner) => match host_type(doc, flags, inner) {
            Some(h) => Some(HostType::List(Box::new(h))),
            None => None,
        },
        NullableType::NullableType(inner) => match host_type(doc, flags, inner) {
            Some(h) => Some(HostType::Optional(Box::new(h))),
            None => None,
        },
    }
}

/// The normalized type an argument accessor returns: an argument with a
/// default is never absent, so its outer nullable wrapper goes.
pub open spec fn argument_type(a: InputValue) -> NullableType {
    let t = normalize(a.value_type, false);
    match t {
        NullableType::NullableType(inner) => if a.default_value is Some {
            *inner
        } else {
            t
        },
        _ => t,
    }
}

/// An accessor for one argument of a field.
#[derive(Debug)]
pub struct ArgumentAccessor {
    /// The accessor's method name: the argument name in snake case.
    pub method_name: String,
    /// The argument's name in the schema.
    pub argument_name: String,
    /// The type the accessor returns.
    pub value_type: NullableType,
    /// The host type that the argument's value converts into, where the
    /// conversion layer covers it.
    pub host_type: Option<HostType>,
    /// The schema's default for the argument, converted once into the host
    /// type; present where the argument has a default and a host type.
    pub default_value: Option<Result<HostValue, ConversionError>>,
}

/// What the accessor of argument `a` is.
pub open spec fn accessor_of(defs: Seq<TypeDefinition>, flags: ScalarFlags, a: InputValue, acc: ArgumentAccessor) -> bool {
    &&& acc.method_name@ == snake_of(a.name@)
    &&& acc.argument_name@ == a.name@
    &&& acc.value_type == argument_type(a)
    &&& acc.host_type == spec_host_type(defs, flags, argument_type(a))
    &&& match (a.default_value, spec_host_type(defs, flags, argument_type(a))) {
        (Some(v), Some(t)) => match acc.default_value {
            Some(d) => result_model(d) == spec_convert(v, t),
            None => false,
        },
        _ => acc.default_value is None,
    }
}

/// Plans the accessor of one argument, converting its default once.
pub fn gen_argument_look_ahead_methods(doc: &Document, flags: &ScalarFlags, a: &InputValue) -> (r: ArgumentAccessor)
    ensures
        accessor_of(doc.definitions@, *flags, *a, r),
{
    let normalized = NullableType::from_type(&a.value_type);
    let value_type = match normalized {
        NullableType::NullableType(inner) => if a.default_value.is_some() {
            *inner
        } else {
            NullableType::NullableType(inner)
        },
        other => other,
    };
    let host = host_type(doc, flags, &value_type);
    let default_value = match (&a.default_value, &host) {
        (Some(v), Some(t)) => Some(convert(v, t)),
        _ => None,
    };
    ArgumentAccessor {
        method_name: to_snake_case(&a.name),
        argument_name: a.name.clone(),
        value_type,
        host_type: host,
        default_value,
    }
}

/// Why an argument accessor found no value.
#[derive(Debug)]
pub enum ArgumentError {
    /// The argument was not supplied and has no default.
    Missing,
    /// The argument's type is not one the conversion layer covers.
    NoConversion,
    /// The supplied value, or the default, did not convert.
    Conversion(ConversionError),
}

/// The mathematical model of an accessor's failure.
pub enum ArgumentErrorModel {
    Missing,
    NoConversion,
    Conversion(ErrorModel),
}

pub open spec fn argument_result_model(r: Result<HostValue, ArgumentError>) -> Result<HostModel, ArgumentErrorModel> {
    match r {
        Ok(v) => Ok(v.model()),
        Err(ArgumentError::Missing) => Err(ArgumentErrorModel::Missing),
        Err(ArgumentError::NoConversion) => Err(ArgumentErrorModel::NoConversion),
        Err(ArgumentError::Conversion(e)) => Err(ArgumentErrorModel::Conversion(e.model())),
    }
}

pub open spec fn lift(r: Result<HostModel, ErrorModel>) -> Result<HostModel, ArgumentErrorModel> {
    match r {
        Ok(v) => Ok(v),
        Err(e) => Err(ArgumentErrorModel::Conversion(e)),
    }
}

/// The position of the first of the first `n` supplied arguments named `name`.
pub open spec fn first_named(s: Seq<(String, LookAheadValue)>, name: Seq<char>, n: nat) -> Option<nat>
    decreases n,
{
    if n == 0 || n > s.len() {
        None
    } else {
        match first_named(s, name, (n - 1) as nat) {
            Some(i) => Some(i),
            None => if s[n - 1].0@ == name {
                Some((n - 1) as nat)
            } else {
                None
            },
        }
    }
}

/// What an argument accessor gives for the arguments supplied in a live
/// selection.
pub open spec fn spec_argument_value(acc: ArgumentAccessor, supplied: Seq<(String, LookAheadValue)>) -> Result<HostModel, ArgumentErrorModel> {
    match first_named(supplied, acc.argument_name@, supplied.len()) {
        Some(i) => match acc.host_type {
            Some(t) => lift(spec_convert(supplied[i as int].1, t)),
            None => Err(ArgumentErrorModel::NoConversion),
        },
        None => match acc.default_value {
            Some(Ok(d)) => Ok(d.model()),
            Some(Err(e)) => Err(ArgumentErrorModel::Conversion(e.model())),
            None => Err(ArgumentErrorModel::Missing),
        },
    }
}

impl ArgumentAccessor {
    /// The value of the argument in a live selection: the first supplied
    /// argument of its name, converted into the host type; where none is
    /// supplied, the converted default; where there is no default either,
    /// `Missing`.
    ///
    /// Deliberate deviation: a missing argument, like a failed conversion,
    /// means the query engine's own validation was bypassed. It comes back as
    /// an `ArgumentError` for the caller to raise at the query-resolution
    /// boundary instead of aborting the process.
    pub fn argument_value(&self, supplied: &Vec<(String, LookAheadValue)>) -> (r: Result<HostValue, ArgumentError>)
        ensures
            argument_result_model(r) == spec_argument_value(*self, supplied@),
    {
        let mut i: usize = 0;
        while i < supplied.len()
            invariant
                i <= supplied@.len(),
                first_named(supplied@, self.argument_name@, i as nat) is None,
            decreases supplied@.len() - i,
        {
            if supplied[i].0 == self.argument_name {
                proof {
                    lemma_first_named_stays(supplied@, self.argument_name@, (i + 1) as nat, supplied@.len());
                }
                return match &self.host_type {
                    Some(t) => match convert(&supplied[i].1, t) {
                        Ok(v) => Ok(v),
                        Err(e) => Err(ArgumentError::Conversion(e)),
                    },
                    None => Err(ArgumentError::NoConversion),
                };
            }
            i = i + 1;
        }
        match &self.default_value {
            Some(Ok(d)) => Ok(d.copied()),
            Some(Err(e)) => Err(ArgumentError::Conversion(e.copied())),
            None => Err(ArgumentError::Missing),
        }
    }
}

proof fn lemma_first_named_stays(s: Seq<(String, LookAheadValue)>, name: Seq<char>, n: nat, m: nat)
    requires
        n <= m <= s.len(),
        first_named(s, name, n) is Some,
    ensures
        first_named(s, name, m) == first_named(s, name, n),
    decreases m - n,
{
    if m > n {
        lemma_first_named_stays(s, name, n, (m - 1) as nat);
    }
}

/// The argument surface of a field: nothing for a field without arguments,
/// otherwise a named inspection type with one accessor per argument.
#[derive(Debug)]
pub enum ArgsAccessor {
    Unit,
    Arguments { type_ident: String, accessors: Vec<ArgumentAccessor> },
}

/// What the argument surface of `field` on type `owner` is.
pub open spec fn args_of(defs: Seq<TypeDefinition>, flags: ScalarFlags, owner: Seq<char>, field: Field, r: ArgsAccessor) -> bool {
    if field.arguments@.len() == 0 {
        r is Unit
    } else {
        match r {
            ArgsAccessor::Arguments { type_ident, accessors } => {
                &&& type_ident@ == owner + camel_of(snake_of(field.name@)) + "Args"@
                &&& accessors@.len() == field.arguments@.len()
                &&& forall|i: int|
                    0 <= i < accessors@.len() ==> accessor_of(
                        defs,
                        flags,
                        field.arguments@[i],
                        #[trigger] accessors@[i],
                    )
            },
            ArgsAccessor::Unit => false,
        }
    }
}

/// Plans the argument surface of a field of type `owner`.
pub fn gen_args_query_trail(doc: &Document, flags: &ScalarFlags, owner: &String, field: &Field) -> (r: ArgsAccessor)
    ensures
        args_of(doc.definitions@, *flags, owner@, *field, r),
{
    if field.arguments.len() == 0 {
        return ArgsAccessor::Unit;
    }
    let camel = to_camel_case(&to_snake_case(&field.name));
    let type_ident = concat(&concat(owner, camel.as_str()), "Args");
    let mut accessors: Vec<ArgumentAccessor> = Vec::new();
    let mut i: usize = 0;
    while i < field.arguments.len()
        invariant
            i <= field.arguments@.len(),
            accessors@.len() == i,
            forall|k: int| 0 <= k < i ==> accessor_of(doc.definitions@, *flags, field.arguments@[k], #[trigger] accessors@[k]),
        decreases field.arguments@.len() - i,
    {
        accessors.push(gen_argument_look_ahead_methods(doc, flags, &field.arguments[i]));
        i = i + 1;
    }
    ArgsAccessor::Arguments { type_ident, accessors }
}

/// What a navigation method leads to.
#[derive(Debug)]
pub enum WalkKind {
    /// A leaf field: the method tells whether the field is selected.
    Leaf,
    /// A field of an object, interface or union type: the method gives a
    /// not-yet-inspected trail of the named type.
    Walk(String),
}

/// The navigation method generated for one field.
#[derive(Debug)]
pub struct WalkMethod {
    /// The field's name in the schema, under which the field's arguments are
    /// looked up.
    pub field_name: String,
    /// The method's name: the field name in snake case.
    pub method_name: String,
    /// The name looked up in the live selection: the field name in mixed case.
    pub selection_name: String,
    pub kind: WalkKind,
    /// The name of the argument accessor: the method name followed by `_args`.
    pub args_method_name: String,
    pub args: ArgsAccessor,
}

/// What the navigation method of `field` on type `owner` is.
pub open spec fn walk_method_of(
    defs: Seq<TypeDefinition>,
    flags: ScalarFlags,
    owner: Seq<char>,
    field: Field,
    m: WalkMethod,
) -> bool {
    &&& m.field_name@ == field.name@
    &&& m.method_name@ == snake_of(field.name@)
    &&& m.selection_name@ == mixed_of(field.name@)
    &&& if is_leaf(defs, spec_type_name(field.field_type)) {
        m.kind is Leaf
    } else {
        m.kind matches WalkKind::Walk(t) && t@ == camel_of(spec_type_name(field.field_type))
    }
    &&& m.args_method_name@ == snake_of(field.name@) + "_args"@
    &&& args_of(defs, flags, owner, field, m.args)
}

/// Plans the navigation method of one field of type `owner`.
pub fn gen_field_walk_method(doc: &Document, flags: &ScalarFlags, owner: &String, field: &Field) -> (r: WalkMethod)
    ensures
        walk_method_of(doc.definitions@, *flags, owner@, *field, r),
{
    let field_type = named_type_name(&field.field_type);
    let kind = if is_leaf_type(doc, &field_type) {
        WalkKind::Leaf
    } else {
        WalkKind::Walk(to_camel_case(&field_type))
    };
    let method_name = to_snake_case(&field.name);
    let args_method_name = concat(&method_name, "_args");
    WalkMethod {
        field_name: field.name.clone(),
        method_name,
        selection_name: to_mixed_case(&field.name),
        kind,
        args_method_name,
        args: gen_args_query_trail(doc, flags, owner, field),
    }
}

/// The navigation surface generated for one object, interface or union type.
#[derive(Debug)]
pub struct QueryTrailSurface {
    /// The schema type's name.
    pub type_ident: String,
    /// `QueryTrail` followed by the type name and `Extensions`.
    pub trait_name: String,
    /// `QueryTrail` followed by the type name and `ArgumentsExtensions`.
    pub args_trait_name: String,
    /// One navigation method per field, in field order.
    pub methods: Vec<WalkMethod>,
    /// The concrete types that a trail of this type can be downcast to.
    pub downcasts: Vec<String>,
}

/// Plans the navigation methods of a type with the given fields and downcast
/// targets.
pub fn gen_field_walk_methods(
    doc: &Document,
    flags: &ScalarFlags,
    name: &String,
    fields: &Vec<&Field>,
    downcasts: Vec<String>,
) -> (r: QueryTrailSurface)
    ensures
        r.type_ident@ == name@,
        r.trait_name@ == "QueryTrail"@ + name@ + "Extensions"@,
        r.args_trait_name@ == "QueryTrail"@ + name@ + "ArgumentsExtensions"@,
        r.methods@.len() == fields@.len(),
        forall|i: int|
            0 <= i < fields@.len() ==> walk_method_of(
                doc.definitions@,
                *flags,
                name@,
                *fields@[i],
                #[trigger] r.methods@[i],
            ),
        r.downcasts@ == downcasts@,
{
    let mut methods: Vec<WalkMethod> = Vec::new();
    let mut i: usize = 0;
    while i < fields.len()
        invariant
            i <= fields@.len(),
            methods@.len() == i,
            forall|k: int|
                0 <= k < i ==> walk_method_of(
                    doc.definitions@,
                    *flags,
                    name@,
                    *fields@[k],
                    #[trigger] methods@[k],
                ),
        decreases fields@.len() - i,
    {
        methods.push(gen_field_walk_method(doc, flags, name, fields[i]));
        i = i + 1;
    }
    let prefix = "QueryTrail".to_owned();
    let trait_name = concat(&concat(&prefix, name.as_str()), "Extensions");
    let args_trait_name = concat(&concat(&prefix, name.as_str()), "ArgumentsExtensions");
    QueryTrailSurface { type_ident: name.clone(), trait_name, args_trait_name, methods, downcasts }
}

/// Whether object type `o` declares that it implements interface `iface`.
pub open spec fn implements(o: ObjectType, iface: Seq<char>) -> bool {
    exists|k: int| 0 <= k < o.implements_interfaces@.len() && (#[trigger] o.implements_interfaces@[k])@ == iface
}

/// The names of the object types among the first `n` definitions that
/// implement interface `iface`, in document order.
pub open spec fn implementors(defs: Seq<TypeDefinition>, iface: Seq<char>, n: nat) -> Seq<Seq<char>>
    decreases n,
{
    if n == 0 || n > defs.len() {
        Seq::empty()
    } else {
        implementors(defs, iface, (n - 1) as nat) + match defs[n - 1] {
            TypeDefinition::Object(o) => if implements(o, iface) {
                seq![o.name@]
            } else {
                Seq::empty()
            },
            _ => Seq::empty(),
        }
    }
}

pub open spec fn names_of(s: Seq<String>) -> Seq<Seq<char>> {
    s.map_values(|n: String| n@)
}

fn declares_interface(o: &ObjectType, iface: &String) -> (r: bool)
    ensures
        r == implements(*o, iface@),
{
    let mut k: usize = 0;
    while k < o.implements_interfaces.len()
        invariant
            k <= o.implements_interfaces@.len(),
            forall|j: int| 0 <= j < k ==> (#[trigger] o.implements_interfaces@[j])@ != iface@,
        decreases o.implements_interfaces@.len() - k,
    {
        if o.implements_interfaces[k] == *iface {
            return true;
        }
        k = k + 1;
    }
    false
}

/// The concrete types that a trail of interface `iface` can be downcast to:
/// every object type that implements it.
pub fn interface_downcasts(doc: &Document, iface: &String) -> (r: Vec<String>)
    ensures
        names_of(r@) == implementors(doc.definitions@, iface@, doc.definitions@.len()),
{
    let mut r: Vec<String> = Vec::new();
    let mut i: usize = 0;
    while i < doc.definitions.len()
        invariant
            i <= doc.definitions@.len(),
            names_of(r@) == implementors(doc.definitions@, iface@, i as nat),
        decreases doc.definitions@.len() - i,
    {
        let ghost r0 = r@;
        match &doc.definitions[i] {
            TypeDefinition::Object(o) => {
                if declares_interface(o, iface) {
                    r.push(o.name.clone());
                    proof {
                        assert(names_of(r@) =~= names_of(r0) + seq![o.name@]);
                    }
                } else {
                    proof {
                        assert(names_of(r0) =~= names_of(r0) + Seq::<Seq<char>>::empty());
                    }
                }
            },
            _ => {
                proof {
                    assert(names_of(r0) =~= names_of(r0) + Seq::<Seq<char>>::empty());
                }
            },
        }
        i = i + 1;
    }
    r
}

/// A copy of a list of names.
fn copy_names(s: &Vec<String>) -> (r: Vec<String>)
    ensures
        names_of(r@) == names_of(s@),
{
    let mut r: Vec<String> = Vec::new();
    let mut i: usize = 0;
    while i < s.len()
        invariant
            i <= s@.len(),
            names_of(r@) == names_of(s@.take(i as int)),
        decreases s@.len() - i,
    {
        let ghost r0 = r@;
        r.push(s[i].clone());
        proof {
            assert(names_of(r@) =~= names_of(r0).push(s@[i as int]@));
            assert(s@.take(i + 1) =~= s@.take(i as int).push(s@[i as int]));
            assert(names_of(r@) =~= names_of(s@.take(i + 1)));
        }
        i = i + 1;
    }
    proof {
        assert(s@.take(s@.len() as int) =~= s@);
    }
    r
}

/// The definitions among the first `n` that get a navigation surface: the
/// object, interface and union types, in document order.
pub open spec fn trail_defs(defs: Seq<TypeDefinition>, n: nat) -> Seq<TypeDefinition>
    decreases n,
{
    if n == 0 || n > defs.len() {
        Seq::empty()
    } else {
        let prev = trail_defs(defs, (n - 1) as nat);
        match defs[n - 1] {
            TypeDefinition::Object(_) => prev.push(defs[n - 1]),
            TypeDefinition::Interface(_) => prev.push(defs[n - 1]),
            TypeDefinition::Union(_) => prev.push(defs[n - 1]),
            _ => prev,
        }
    }
}

/// The union mismatch findings of the first `n` definitions, union by union.
pub open spec fn union_findings(defs: Seq<TypeDefinition>, n: nat) -> Seq<MismatchModel>
    decreases n,
{
    if n == 0 || n > defs.len() {
        Seq::empty()
    } else {
        union_findings(defs, (n - 1) as nat) + match defs[n - 1] {
            TypeDefinition::Union(u) => findings(
                u.name@,
                union_entries(defs, u),
                union_entries(defs, u).len(),
            ),
            _ => Seq::empty(),
        }
    }
}

/// The fields whose navigation methods a type's surface holds: all declared
/// fields of an object or interface, the field set of a union.
pub open spec fn reachable_fields(defs: Seq<TypeDefinition>, d: TypeDefinition) -> Seq<Field> {
    match d {
        TypeDefinition::Object(o) => o.fields@,
        TypeDefinition::Interface(i) => i.fields@,
        TypeDefinition::Union(u) => union_field_set(union_entries(defs, u), union_entries(defs, u).len()),
        _ => Seq::empty(),
    }
}

/// The type names a trail of definition `d` can be downcast to.
pub open spec fn downcasts_of(defs: Seq<TypeDefinition>, d: TypeDefinition) -> Seq<Seq<char>> {
    match d {
        TypeDefinition::Interface(i) => implementors(defs, i.name@, defs.len()),
        TypeDefinition::Union(u) => names_of(u.types@),
        _ => Seq::empty(),
    }
}

pub open spec fn def_name(d: TypeDefinition) -> Seq<char> {
    match d {
        TypeDefinition::Object(o) => o.name@,
        TypeDefinition::Interface(i) => i.name@,
        TypeDefinition::Union(u) => u.name@,
        TypeDefinition::Enum(e) => e.name@,
        TypeDefinition::Scalar(s) => s.name@,
    }
}

/// What the navigation surface of definition `d` is.
pub open spec fn surface_of(defs: Seq<TypeDefinition>, flags: ScalarFlags, d: TypeDefinition, s: QueryTrailSurface) -> bool {
    let fields = reachable_fields(defs, d);
    &&& s.type_ident@ == def_name(d)
    &&& s.trait_name@ == "QueryTrail"@ + def_name(d) + "Extensions"@
    &&& s.args_trait_name@ == "QueryTrail"@ + def_name(d) + "ArgumentsExtensions"@
    &&& s.methods@.len() == fields.len()
    &&& forall|i: int|
        0 <= i < fields.len() ==> walk_method_of(defs, flags, def_name(d), fields[i], #[trigger] s.methods@[i])
    &&& names_of(s.downcasts@) == downcasts_of(defs, d)
}

fn field_refs(fields: &Vec<Field>) -> (r: Vec<&Field>)
    ensures
        read_fields(r@) == fields@,
{
    let mut r: Vec<&Field> = Vec::new();
    let mut i: usize = 0;
    while i < fields.len()
        invariant
            i <= fields@.len(),
            read_fields(r@) == fields@.take(i as int),
        decreases fields@.len() - i,
    {
        let ghost r0 = r@;
        r.push(&fields[i]);
        proof {
            assert(read_fields(r@) =~= read_fields(r0).push(fields@[i as int]));
            assert(fields@.take(i + 1) =~= fields@.take(i as int).push(fields@[i as int]));
        }
        i = i + 1;
    }
    proof {
        assert(fields@.take(fields@.len() as int) =~= fields@);
    }
    r
}

/// The state of code generation over one schema document: the navigation
/// surfaces planned so far, the findings recorded so far, and the custom
/// scalars the document declares.
#[derive(Debug)]
pub struct CodeGenPass {
    pub surfaces: Vec<QueryTrailSurface>,
    pub errors: Vec<UnionFieldTypeMismatch>,
    pub scalars: ScalarFlags,
}

impl CodeGenPass {
    /// A pass with nothing planned and nothing found.
    pub fn new() -> (r: CodeGenPass)
        ensures
            r.surfaces@.len() == 0,
            r.errors@.len() == 0,
            r.scalars == (ScalarFlags { url: false, uuid: false, date: false, date_time: false }),
    {
        CodeGenPass {
            surfaces: Vec::new(),
            errors: Vec::new(),
            scalars: ScalarFlags { url: false, uuid: false, date: false, date_time: false },
        }
    }

    /// Plans the navigation surface of every object, interface and union
    /// type of the document, in document order, after those planned before;
    /// records the mismatch findings of every union after those found before.
    /// A finding never stops the planning.
    pub fn gen_query_trails(&mut self, doc: &Document)
        ensures
            final(self).scalars == ScalarFlags::of(doc.definitions@),
            final(self).surfaces@.len() == old(self).surfaces@.len() + trail_defs(
                doc.definitions@,
                doc.definitions@.len(),
            ).len(),
            forall|k: int|
                0 <= k < old(self).surfaces@.len() ==> #[trigger] final(self).surfaces@[k] == old(
                    self,
                ).surfaces@[k],
            forall|k: int|
                0 <= k < trail_defs(doc.definitions@, doc.definitions@.len()).len() ==> surface_of(
                    doc.definitions@,
                    ScalarFlags::of(doc.definitions@),
                    trail_defs(doc.definitions@, doc.definitions@.len())[k],
                    #[trigger] final(self).surfaces@[old(self).surfaces@.len() + k],
                ),
            models_of_findings(final(self).errors@) == models_of_findings(old(self).errors@)
                + union_findings(doc.definitions@, doc.definitions@.len()),
    {
        let ghost defs = doc.definitions@;
        let flags = crate::registry::declared_scalars(doc);
        let map = build_fields_map(doc);
        let mut surfaces: Vec<QueryTrailSurface> = Vec::new();
        let mut errors: Vec<UnionFieldTypeMismatch> = Vec::new();
        let mut i: usize = 0;
        while i < doc.definitions.len()
            invariant
                defs == doc.definitions@,
                flags == ScalarFlags::of(defs),
                map.wf(),
                map.definitions() == defs,
                i <= defs.len(),
                surfaces@.len() == trail_defs(defs, i as nat).len(),
                forall|k: int|
                    0 <= k < surfaces@.len() ==> surface_of(
                        defs,
                        flags,
                        trail_defs(defs, i as nat)[k],
                        #[trigger] surfaces@[k],
                    ),
                models_of_findings(errors@) == union_findings(defs, i as nat),
            decreases defs.len() - i,
        {
            let ghost s0 = surfaces@;
            let ghost e0 = errors@;
            match &doc.definitions[i] {
                TypeDefinition::Object(o) => {
                    let fields = field_refs(&o.fields);
                    surfaces.push(gen_field_walk_methods(doc, &flags, &o.name, &fields, Vec::new()));
                    proof {
                        let sf = surfaces@[s0.len() as int];
                        assert forall|j: int| 0 <= j < o.fields@.len() implies walk_method_of(
                            defs, flags, o.name@, o.fields@[j], #[trigger] sf.methods@[j]) by {
                            assert(read_fields(fields@)[j] == *fields@[j]);
                        }
                        assert(names_of(sf.downcasts@) =~= Seq::<Seq<char>>::empty());
                        assert(surface_of(defs, flags, defs[i as int], sf));
                        assert(models_of_findings(errors@) =~= union_findings(defs, (i + 1) as nat));
                    }
                },
                TypeDefinition::Interface(it) => {
                    let fields = field_refs(&it.fields);
                    let downcasts = interface_downcasts(doc, &it.name);
                    surfaces.push(gen_field_walk_methods(doc, &flags, &it.name, &fields, downcasts));
                    proof {
                        let sf = surfaces@[s0.len() as int];
                        assert forall|j: int| 0 <= j < it.fields@.len() implies walk_method_of(
                            defs, flags, it.name@, it.fields@[j], #[trigger] sf.methods@[j]) by {
                            assert(read_fields(fields@)[j] == *fields@[j]);
                        }
                        assert(surface_of(defs, flags, defs[i as int], sf));
                        assert(models_of_findings(errors@) =~= union_findings(defs, (i + 1) as nat));
                    }
                },
                TypeDefinition::Union(u) => {
                    let mut found = error_msg_if_field_types_dont_overlap(&map, u);
                    let ghost f = found@;
                    errors.append(&mut found);
                    proof {
                        assert(models_of_findings(errors@) =~= models_of_findings(e0) + models_of_findings(f));
                    }
                    let fields = build_union_fields_set(&map, u);
                    let downcasts = copy_names(&u.types);
                    surfaces.push(gen_field_walk_methods(doc, &flags, &u.name, &fields, downcasts));
                    proof {
                        let sf = surfaces@[s0.len() as int];
                        let fs = union_field_set(union_entries(defs, *u), union_entries(defs, *u).len());
                        assert forall|j: int| 0 <= j < fs.len() implies walk_method_of(
                            defs, flags, u.name@, fs[j], #[trigger] sf.methods@[j]) by {
                            assert(read_fields(fields@)[j] == *fields@[j]);
                        }
                        assert(surface_of(defs, flags, defs[i as int], sf));
                    }
                },
                _ => {
                    proof {
                        assert(models_of_findings(errors@) =~= union_findings(defs, (i + 1) as nat));
                    }
                },
            }
            proof {
                assert forall|k: int|
                    0 <= k < surfaces@.len() implies surface_of(
                        defs,
                        flags,
                        trail_defs(defs, (i + 1) as nat)[k],
                        #[trigger] surfaces@[k],
                    ) by {
                    if k < s0.len() {
                        assert(surfaces@[k] == s0[k]);
                    }
                }
            }
            i = i + 1;
        }
        let ghost old_surfaces = self.surfaces@;
        let ghost old_errors = self.errors@;
        self.scalars = flags;
        self.surfaces.append(&mut surfaces);
        self.errors.append(&mut errors);
        proof {
            assert(models_of_findings(self.errors@) =~= models_of_findings(old_errors) + union_findings(defs, defs.len()));
        }
    }
}

} // verus!
