use vstd::prelude::*;
use crate::schema::{Document, Field, InputValue, ObjectType, TypeDefinition, EnumType, ScalarType, SchemaDefinition};
use crate::nullable::{NullableType, normalize, spec_type_name, named_type_name};
use crate::registry::{is_leaf, is_leaf_type, is_named};
use crate::naming::{snake_of, camel_of, to_snake_case, to_camel_case, concat};
use crate::attributes::{
    Attributes, Ownership, parse_attributes, attributes_of, lines_of, spec_ownership,
};

verus! {

/// How a field resolves: a scalar field's method is called directly; a
/// relation field's method also gets a trail of the named type.
#[derive(Debug)]
pub enum FieldKind {
    Scalar,
    Relation(String),
}

/// An argument of a field method.
#[derive(Debug)]
pub struct ResolverArgument {
    /// The argument's name in snake case.
    pub name: String,
    pub value_type: NullableType,
}

/// The resolver method of one field of an object type.
#[derive(Debug)]
pub struct ResolverField {
    /// The field's name in the schema.
    pub name: String,
    /// `field_` followed by the field name in snake case.
    pub method_name: String,
    pub kind: FieldKind,
    pub return_type: NullableType,
    /// `Owned` fields return plain values; `Borrowed` ones return references
    /// into the object.
    pub ownership: Ownership,
    pub arguments: Vec<ResolverArgument>,
    pub description: Option<String>,
}

/// The resolver trait of one object type.
#[derive(Debug)]
pub struct ObjectResolver {
    pub struct_name: String,
    /// The type name followed by `Fields`.
    pub trait_name: String,
    pub fields: Vec<ResolverField>,
    pub description: Option<String>,
}

/// Why resolver code cannot be planned for a document.
#[derive(Debug)]
pub enum CodeGenError {
    /// A field argument has a default value, which resolver methods do not
    /// take.
    ArgumentDefault { field: String, argument: String },
    /// Interfaces and unions get no resolver trait.
    UnsupportedDefinition { name: String },
    /// The schema definition names no query type.
    MissingQuery,
}

/// The mathematical model of a planning failure.
pub enum CodeGenErrorModel {
    ArgumentDefault { field: Seq<char>, argument: Seq<char> },
    UnsupportedDefinition { name: Seq<char> },
    MissingQuery,
}

pub open spec fn codegen_error_model(e: CodeGenError) -> CodeGenErrorModel {
    match e {
        CodeGenError::ArgumentDefault { field, argument } => CodeGenErrorModel::ArgumentDefault {
            field: field@,
            argument: argument@,
        },
        CodeGenError::UnsupportedDefinition { name } => CodeGenErrorModel::UnsupportedDefinition { name: name@ },
        CodeGenError::MissingQuery => CodeGenErrorModel::MissingQuery,
    }
}

/// The directives of a field's description; none without a description.
pub open spec fn field_attributes(f: Field) -> Seq<crate::attributes::Attribute> {
    match f.description {
        Some(d) => attributes_of(lines_of(d@), lines_of(d@).len()),
        None => Seq::empty(),
    }
}

/// The first of the first `n` arguments that has a default.
pub open spec fn first_default(args: Seq<InputValue>, n: nat) -> Option<nat>
    decreases n,
{
    if n == 0 || n > args.len() {
        None
    } else {
        match first_default(args, (n - 1) as nat) {
            Some(i) => Some(i),
            None => if args[n - 1].default_value is Some {
                Some((n - 1) as nat)
            } else {
                None
            },
        }
    }
}

/// Why the resolver method of a field cannot be planned, if it cannot.
pub open spec fn field_failure(f: Field) -> Option<CodeGenErrorModel> {
    match first_default(f.arguments@, f.arguments@.len()) {
        Some(i) => Some(CodeGenErrorModel::ArgumentDefault {
            field: f.name@,
            argument: f.arguments@[i as int].name@,
        }),
        None => None,
    }
}

/// What the resolver method of field `f` is.
pub open spec fn resolver_field_of(defs: Seq<TypeDefinition>, f: Field, r: ResolverField) -> bool {
    &&& r.name@ == f.name@
    &&& r.method_name@ == "field_"@ + snake_of(f.name@)
    &&& if is_leaf(defs, spec_type_name(f.field_type)) {
        r.kind is Scalar
    } else {
        r.kind matches FieldKind::Relation(t) && t@ == camel_of(spec_type_name(f.field_type))
    }
    &&& r.return_type == normalize(f.field_type, false)
    &&& r.ownership == spec_ownership(field_attributes(f))
    &&& r.arguments@.len() == f.arguments@.len()
    &&& forall|i: int|
        0 <= i < r.arguments@.len() ==> (#[trigger] r.arguments@[i]).name@ == snake_of(f.arguments@[i].name@)
            && r.arguments@[i].value_type == normalize(f.arguments@[i].value_type, false)
    &&& r.description == f.description
}

fn find_default(args: &Vec<InputValue>) -> (r: Option<usize>)
    ensures
        match r {
            Some(i) => first_default(args@, args@.len()) == Some(i as nat) && i < args@.len(),
            None => first_default(args@, args@.len()) is None,
        },
{
    let mut i: usize = 0;
    while i < args.len()
        invariant
            i <= args@.len(),
            first_default(args@, i as nat) is None,
        decreases args@.len() - i,
    {
        if args[i].default_value.is_some() {
            proof {
                lemma_first_default_stays(args@, (i + 1) as nat, args@.len());
            }
            return Some(i);
        }
        i = i + 1;
    }
    None
}

proof fn lemma_first_default_stays(args: Seq<InputValue>, n: nat, m: nat)
    requires
        n <= m <= args.len(),
        first_default(args, n) is Some,
    ensures
        first_default(args, m) == first_default(args, n),
    decreases m - n,
{
    if m > n {
        lemma_first_default_stays(args, n, (m - 1) as nat);
    }
}

fn copy_description(d: &Option<String>) -> (r: Option<String>)
    ensures
        r == *d,
{
    match d {
        Some(s) => Some(s.clone()),
        None => None,
    }
}

/// Plans the resolver method of one field.
pub fn gen_field(doc: &Document, f: &Field) -> (r: Result<ResolverField, CodeGenError>)
    ensures
        match r {
            Ok(rf) => field_failure(*f) is None && resolver_field_of(doc.definitions@, *f, rf),
            Err(e) => field_failure(*f) == Some(codegen_error_model(e)),
        },
{
    let attributes = match &f.description {
        Some(d) => parse_attributes(d),
        None => Attributes::new(),
    };
    proof {
        assert(field_attributes(*f) == attributes.list@);
    }
    match find_default(&f.arguments) {
        Some(i) => {
            return Err(
                CodeGenError::ArgumentDefault {
                    field: f.name.clone(),
                    argument: f.arguments[i].name.clone(),
                },
            );
        },
        None => {},
    }
    let mut arguments: Vec<ResolverArgument> = Vec::new();
    let mut i: usize = 0;
    while i < f.arguments.len()
        invariant
            i <= f.arguments@.len(),
            arguments@.len() == i,
            forall|k: int|
                0 <= k < i ==> (#[trigger] arguments@[k]).name@ == snake_of(f.arguments@[k].name@)
                    && arguments@[k].value_type == normalize(f.arguments@[k].value_type, false),
        decreases f.arguments@.len() - i,
    {
        arguments.push(
            ResolverArgument {
                name: to_snake_case(&f.arguments[i].name),
                value_type: NullableType::from_type(&f.arguments[i].value_type),
            },
        );
        i = i + 1;
    }
    let field_type = named_type_name(&f.field_type);
    let kind = if is_leaf_type(doc, &field_type) {
        FieldKind::Scalar
    } else {
        FieldKind::Relation(to_camel_case(&field_type))
    };
    let prefix = "field_".to_owned();
    Ok(
        ResolverField {
            name: f.name.clone(),
            method_name: concat(&prefix, to_snake_case(&f.name).as_str()),
            kind,
            return_type: NullableType::from_type(&f.field_type),
            ownership: attributes.ownership(),
            arguments,
            description: copy_description(&f.description),
        },
    )
}

/// The first of the first `n` fields whose resolver method cannot be planned.
pub open spec fn fields_failure(fields: Seq<Field>, n: nat) -> Option<CodeGenErrorModel>
    decreases n,
{
    if n == 0 || n > fields.len() {
        None
    } else {
        match fields_failure(fields, (n - 1) as nat) {
            Some(e) => Some(e),
            None => field_failure(fields[n - 1]),
        }
    }
}

proof fn lemma_fields_failure_stays(fields: Seq<Field>, n: nat, m: nat)
    requires
        n <= m <= fields.len(),
        fields_failure(fields, n) is Some,
    ensures
        fields_failure(fields, m) == fields_failure(fields, n),
    decreases m - n,
{
    if m > n {
        lemma_fields_failure_stays(fields, n, (m - 1) as nat);
    }
}

/// What the resolver trait of object type `o` is.
pub open spec fn object_resolver_of(defs: Seq<TypeDefinition>, o: ObjectType, r: ObjectResolver) -> bool {
    &&& r.struct_name@ == o.name@
    &&& r.trait_name@ == o.name@ + "Fields"@
    &&& r.fields@.len() == o.fields@.len()
    &&& forall|i: int| 0 <= i < r.fields@.len() ==> resolver_field_of(defs, o.fields@[i], #[trigger] r.fields@[i])
    &&& r.description == o.description
}

/// Plans the resolver trait of an object type: one method per field, in
/// field order.
pub fn gen_obj_type(doc: &Document, o: &ObjectType) -> (r: Result<ObjectResolver, CodeGenError>)
    ensures
        match r {
            Ok(res) => fields_failure(o.fields@, o.fields@.len()) is None && object_resolver_of(doc.definitions@, *o, res),
            Err(e) => fields_failure(o.fields@, o.fields@.len()) == Some(codegen_error_model(e)),
        },
{
    let mut fields: Vec<ResolverField> = Vec::new();
    let mut i: usize = 0;
    while i < o.fields.len()
        invariant
            i <= o.fields@.len(),
            fields@.len() == i,
            fields_failure(o.fields@, i as nat) is None,
            forall|k: int| 0 <= k < i ==> resolver_field_of(doc.definitions@, o.fields@[k], #[trigger] fields@[k]),
        decreases o.fields@.len() - i,
    {
        match gen_field(doc, &o.fields[i]) {
            Ok(f) => {
                fields.push(f);
            },
            Err(e) => {
                proof {
                    lemma_fields_failure_stays(o.fields@, (i + 1) as nat, o.fields@.len());
                }
                return Err(e);
            },
        }
        i = i + 1;
    }
    Ok(
        ObjectResolver {
            struct_name: o.name.clone(),
            trait_name: concat(&o.name, "Fields"),
            fields,
            description: copy_description(&o.description),
        },
    )
}

/// One variant of a generated enum.
#[derive(Debug)]
pub struct EnumValuePlan {
    /// The value's name in the schema.
    pub graphql_name: String,
    /// The value's name in camel case.
    pub variant: String,
}

/// A generated enum.
#[derive(Debug)]
pub struct EnumPlan {
    /// The type's name in camel case.
    pub name: String,
    pub values: Vec<EnumValuePlan>,
}

/// A generated custom scalar, a wrapper around a string.
#[derive(Debug)]
pub struct ScalarPlan {
    pub name: String,
    pub description: Option<String>,
}

/// The root type of a schema: its query and mutation types.
#[derive(Debug)]
pub struct RootPlan {
    pub query: String,
    pub mutation: Option<String>,
}

/// The resolver code planned for a schema document.
#[derive(Debug)]
pub struct JuniperCode {
    pub schema: Option<RootPlan>,
    pub enums: Vec<EnumPlan>,
    pub scalars: Vec<ScalarPlan>,
    pub objects: Vec<ObjectResolver>,
}

/// Why definition `d` cannot be planned, if it cannot.
pub open spec fn def_failure(d: TypeDefinition) -> Option<CodeGenErrorModel> {
    match d {
        TypeDefinition::Object(o) => fields_failure(o.fields@, o.fields@.len()),
        TypeDefinition::Interface(i) => Some(CodeGenErrorModel::UnsupportedDefinition { name: i.name@ }),
        TypeDefinition::Union(u) => Some(CodeGenErrorModel::UnsupportedDefinition { name: u.name@ }),
        _ => None,
    }
}

/// The first failure among the first `n` definitions.
pub open spec fn defs_failure(defs: Seq<TypeDefinition>, n: nat) -> Option<CodeGenErrorModel>
    decreases n,
{
    if n == 0 || n > defs.len() {
        None
    } else {
        match defs_failure(defs, (n - 1) as nat) {
            Some(e) => Some(e),
            None => def_failure(defs[n - 1]),
        }
    }
}

/// Why a document cannot be planned, if it cannot: the first definition that
/// fails, else a schema definition without a query type.
pub open spec fn document_failure(doc: Document) -> Option<CodeGenErrorModel> {
    match defs_failure(doc.definitions@, doc.definitions@.len()) {
        Some(e) => Some(e),
        None => match doc.schema {
            Some(sd) => if sd.query is None {
                Some(CodeGenErrorModel::MissingQuery)
            } else {
                None
            },
            None => None,
        },
    }
}

/// The object types among the first `n` definitions.
pub open spec fn object_defs(defs: Seq<TypeDefinition>, n: nat) -> Seq<ObjectType>
    decreases n,
{
    if n == 0 || n > defs.len() {
        Seq::empty()
    } else {
        match defs[n - 1] {
            TypeDefinition::Object(o) => object_defs(defs, (n - 1) as nat).push(o),
            _ => object_defs(defs, (n - 1) as nat),
        }
    }
}

/// The enum types among the first `n` definitions.
pub open spec fn enum_defs(defs: Seq<TypeDefinition>, n: nat) -> Seq<EnumType>
    decreases n,
{
    if n == 0 || n > defs.len() {
        Seq::empty()
    } else {
        match defs[n - 1] {
            TypeDefinition::Enum(e) => enum_defs(defs, (n - 1) as nat).push(e),
            _ => enum_defs(defs, (n - 1) as nat),
        }
    }
}

/// The scalar types among the first `n` definitions that get a wrapper: all
/// but `Date` and `DateTime`, which map to date types of the host.
pub open spec fn scalar_defs(defs: Seq<TypeDefinition>, n: nat) -> Seq<ScalarType>
    decreases n,
{
    if n == 0 || n > defs.len() {
        Seq::empty()
    } else {
        match defs[n - 1] {
            TypeDefinition::Scalar(s) => if s.name@ == "Date"@ || s.name@ == "DateTime"@ {
                scalar_defs(defs, (n - 1) as nat)
            } else {
                scalar_defs(defs, (n - 1) as nat).push(s)
            },
            _ => scalar_defs(defs, (n - 1) as nat),
        }
    }
}

/// What the generated enum of `e` is.
pub open spec fn enum_plan_of(e: EnumType, p: EnumPlan) -> bool {
    &&& p.name@ == camel_of(e.name@)
    &&& p.values@.len() == e.values@.len()
    &&& forall|i: int|
        0 <= i < p.values@.len() ==> (#[trigger] p.values@[i]).graphql_name@ == e.values@[i]@
            && p.values@[i].variant@ == camel_of(e.values@[i]@)
}

/// What the root plan of a schema definition is.
pub open spec fn root_plan_of(sd: Option<SchemaDefinition>, r: Option<RootPlan>) -> bool {
    match (sd, r) {
        (None, None) => true,
        (Some(sd), Some(rp)) => sd.query matches Some(q) && rp.query@ == q@ && match (sd.mutation, rp.mutation) {
            (None, None) => true,
            (Some(m1), Some(m2)) => m1@ == m2@,
            _ => false,
        },
        _ => false,
    }
}

/// Plans a generated enum.
pub fn gen_enum_type(e: &EnumType) -> (r: EnumPlan)
    ensures
        enum_plan_of(*e, r),
{
    let mut values: Vec<EnumValuePlan> = Vec::new();
    let mut i: usize = 0;
    while i < e.values.len()
        invariant
            i <= e.values@.len(),
            values@.len() == i,
            forall|k: int|
                0 <= k < i ==> (#[trigger] values@[k]).graphql_name@ == e.values@[k]@
                    && values@[k].variant@ == camel_of(e.values@[k]@),
        decreases e.values@.len() - i,
    {
        values.push(gen_enum_value(&e.values[i]));
        i = i + 1;
    }
    EnumPlan { name: to_camel_case(&e.name), values }
}

/// Plans one variant of a generated enum.
pub fn gen_enum_value(v: &String) -> (r: EnumValuePlan)
    ensures
        r.graphql_name@ == v@,
        r.variant@ == camel_of(v@),
{
    EnumValuePlan { graphql_name: v.clone(), variant: to_camel_case(v) }
}

fn copy_name(n: &Option<String>) -> (r: Option<String>)
    ensures
        r == *n,
{
    match n {
        Some(s) => Some(s.clone()),
        None => None,
    }
}

/// Plans the root type of a schema definition.
///
/// Deliberate deviation: a schema definition without a query type is a
/// `MissingQuery` error for the caller to report instead of an abort.
pub fn gen_schema_def(sd: &SchemaDefinition) -> (r: Result<RootPlan, CodeGenError>)
    ensures
        match r {
            Ok(rp) => root_plan_of(Some(*sd), Some(rp)),
            Err(e) => sd.query is None && e is MissingQuery,
        },
{
    match &sd.query {
        Some(q) => Ok(RootPlan { query: q.clone(), mutation: copy_name(&sd.mutation) }),
        None => Err(CodeGenError::MissingQuery),
    }
}

/// Plans the resolver code of a document: a root type for its schema
/// definition, an enum per enum type, a string wrapper per custom scalar but
/// `Date` and `DateTime`, and a resolver trait per object type, each in
/// document order.
pub fn gen_juniper_code(doc: &Document) -> (r: Result<JuniperCode, CodeGenError>)
    ensures
        match r {
            Ok(code) => {
                &&& document_failure(*doc) is None
                &&& root_plan_of(doc.schema, code.schema)
                &&& code.enums@.len() == enum_defs(doc.definitions@, doc.definitions@.len()).len()
                &&& forall|k: int| 0 <= k < code.enums@.len() ==> enum_plan_of(
                    enum_defs(doc.definitions@, doc.definitions@.len())[k],
                    #[trigger] code.enums@[k],
                )
                &&& code.scalars@.len() == scalar_defs(doc.definitions@, doc.definitions@.len()).len()
                &&& forall|k: int| 0 <= k < code.scalars@.len() ==> (#[trigger] code.scalars@[k]).name@
                    == scalar_defs(doc.definitions@, doc.definitions@.len())[k].name@
                    && code.scalars@[k].description == scalar_defs(doc.definitions@, doc.definitions@.len())[k].description
                &&& code.objects@.len() == object_defs(doc.definitions@, doc.definitions@.len()).len()
                &&& forall|k: int| 0 <= k < code.objects@.len() ==> object_resolver_of(
                    doc.definitions@,
                    object_defs(doc.definitions@, doc.definitions@.len())[k],
                    #[trigger] code.objects@[k],
                )
            },
            Err(e) => document_failure(*doc) == Some(codegen_error_model(e)),
        },
{
    let ghost defs = doc.definitions@;
    let mut enums: Vec<EnumPlan> = Vec::new();
    let mut scalars: Vec<ScalarPlan> = Vec::new();
    let mut objects: Vec<ObjectResolver> = Vec::new();
    let mut i: usize = 0;
    while i < doc.definitions.len()
        invariant
            defs == doc.definitions@,
            i <= defs.len(),
            defs_failure(defs, i as nat) is None,
            enums@.len() == enum_defs(defs, i as nat).len(),
            forall|k: int| 0 <= k < enums@.len() ==> enum_plan_of(enum_defs(defs, i as nat)[k], #[trigger] enums@[k]),
            scalars@.len() == scalar_defs(defs, i as nat).len(),
            forall|k: int| 0 <= k < scalars@.len() ==> (#[trigger] scalars@[k]).name@ == scalar_defs(defs, i as nat)[k].name@
                && scalars@[k].description == scalar_defs(defs, i as nat)[k].description,
            objects@.len() == object_defs(defs, i as nat).len(),
            forall|k: int| 0 <= k < objects@.len() ==> object_resolver_of(defs, object_defs(defs, i as nat)[k], #[trigger] objects@[k]),
        decreases defs.len() - i,
    {
        match &doc.definitions[i] {
            TypeDefinition::Object(o) => match gen_obj_type(doc, o) {
                Ok(res) => {
                    objects.push(res);
                },
                Err(e) => {
                    proof {
                        lemma_defs_failure_stays(defs, (i + 1) as nat, defs.len());
                    }
                    return Err(e);
                },
            },
            TypeDefinition::Enum(e) => {
                enums.push(gen_enum_type(e));
            },
            TypeDefinition::Scalar(s) => {
                if !(is_named(&s.name, "Date") || is_named(&s.name, "DateTime")) {
                    scalars.push(ScalarPlan { name: s.name.clone(), description: copy_description(&s.description) });
                }
            },
            TypeDefinition::Interface(it) => {
                proof {
                    lemma_defs_failure_stays(defs, (i + 1) as nat, defs.len());
                }
                return Err(CodeGenError::UnsupportedDefinition { name: it.name.clone() });
            },
            TypeDefinition::Union(u) => {
                proof {
                    lemma_defs_failure_stays(defs, (i + 1) as nat, defs.len());
                }
                return Err(CodeGenError::UnsupportedDefinition { name: u.name.clone() });
            },
        }
        i = i + 1;
    }
    let schema = match &doc.schema {
        Some(sd) => match gen_schema_def(sd) {
            Ok(rp) => Some(rp),
            Err(e) => {
                return Err(e);
            },
        },
        None => None,
    };
    Ok(JuniperCode { schema, enums, scalars, objects })
}

proof fn lemma_defs_failure_stays(defs: Seq<TypeDefinition>, n: nat, m: nat)
    requires
        n <= m <= defs.len(),
        defs_failure(defs, n) is Some,
    ensures
        defs_failure(defs, m) == defs_failure(defs, n),
    decreases m - n,
{
    if m > n {
        lemma_defs_failure_stays(defs, n, (m - 1) as nat);
    }
}

} // verus!
