use juniper_from_schema_code_gen::query_trail::{gen_field_walk_method, gen_argument_look_ahead_methods};
use juniper_from_schema_code_gen::registry::{declared_scalars, ScalarFlags};
use juniper_from_schema_code_gen::{
    ArgsAccessor, ArgumentError, CodeGenPass, DefaultScalarValue, Document, Field, HostType,
    EnumType, HostValue, InputValue, InterfaceType, LookAheadValue, NullableType, ObjectType, ScalarType,
    Type, TypeDefinition, UnionType, WalkKind,
};

fn named(n: &str) -> Type {
    Type::NamedType(n.to_string())
}

fn non_null(t: Type) -> Type {
    Type::NonNullType(Box::new(t))
}

fn field(name: &str, ty: Type) -> Field {
    Field { name: name.to_string(), field_type: ty, arguments: vec![], description: None }
}

fn object(name: &str, fields: Vec<Field>) -> TypeDefinition {
    TypeDefinition::Object(ObjectType {
        name: name.to_string(),
        implements_interfaces: vec![],
        fields,
        description: None,
    })
}

fn union(name: &str, types: &[&str]) -> TypeDefinition {
    TypeDefinition::Union(UnionType {
        name: name.to_string(),
        types: types.iter().map(|t| t.to_string()).collect(),
    })
}

fn document(definitions: Vec<TypeDefinition>) -> Document {
    Document { definitions, schema: None }
}

fn mismatched_union_schema() -> Document {
    document(vec![
        union("Entity", &["User", "Company"]),
        object("User", vec![field("country", non_null(named("Country")))]),
        object("Company", vec![field("country", non_null(named("OtherCountry")))]),
        object("Country", vec![field("id", non_null(named("Int")))]),
        object("OtherCountry", vec![field("id", non_null(named("Int")))]),
    ])
}

fn no_flags() -> ScalarFlags {
    ScalarFlags { url: false, uuid: false, date: false, date_time: false }
}

#[test]
fn test_fails_to_generate_query_trail_for_unions_where_fields_dont_overlap() {
    let doc = mismatched_union_schema();
    let mut out = CodeGenPass::new();
    out.gen_query_trails(&doc);
    assert_eq!(1, out.errors.len());
}

#[test]
fn mismatch_finding_names_union_field_and_types() {
    let doc = mismatched_union_schema();
    let mut out = CodeGenPass::new();
    out.gen_query_trails(&doc);
    let e = &out.errors[0];
    assert_eq!(e.union_name, "Entity");
    assert_eq!(e.field_name, "country");
    assert_eq!(e.type_a, "User");
    assert_eq!(e.type_b, "Company");
    assert_eq!(e.field_type_a, NullableType::NamedType("Country".to_string()));
    assert_eq!(e.field_type_b, NullableType::NamedType("OtherCountry".to_string()));
}

#[test]
fn agreeing_union_members_give_no_finding() {
    let doc = document(vec![
        union("Entity", &["User", "Company"]),
        object("User", vec![field("id", non_null(named("Int"))), field("name", named("String"))]),
        object("Company", vec![field("id", non_null(named("Int")))]),
    ]);
    let mut out = CodeGenPass::new();
    out.gen_query_trails(&doc);
    assert_eq!(0, out.errors.len());
}

#[test]
fn nullability_difference_is_a_mismatch() {
    let doc = document(vec![
        union("Entity", &["User", "Company"]),
        object("User", vec![field("id", non_null(named("Int")))]),
        object("Company", vec![field("id", named("Int"))]),
    ]);
    let mut out = CodeGenPass::new();
    out.gen_query_trails(&doc);
    assert_eq!(1, out.errors.len());
    assert_eq!(out.errors[0].field_name, "id");
}

#[test]
fn every_mismatch_is_reported() {
    let doc = document(vec![
        union("Entity", &["A", "B", "C"]),
        object("A", vec![field("x", named("Int")), field("y", named("Int"))]),
        object("B", vec![field("x", named("String")), field("y", named("String"))]),
        object("C", vec![field("x", named("String"))]),
    ]);
    let mut out = CodeGenPass::new();
    out.gen_query_trails(&doc);
    assert_eq!(2, out.errors.len());
}

#[test]
fn one_navigation_method_per_field() {
    let doc = document(vec![
        object("User", vec![
            field("id", non_null(named("Int"))),
            field("name", named("String")),
            field("friend", named("User")),
        ]),
        union("Entity", &["User", "Company"]),
        object("Company", vec![field("id", non_null(named("Int"))), field("address", named("String"))]),
    ]);
    let mut out = CodeGenPass::new();
    out.gen_query_trails(&doc);
    assert_eq!(out.surfaces.len(), 3);
    assert_eq!(out.surfaces[0].methods.len(), 3);
    // id, name, friend from User; address from Company
    assert_eq!(out.surfaces[1].type_ident, "Entity");
    assert_eq!(out.surfaces[1].methods.len(), 4);
    assert_eq!(out.surfaces[1].downcasts, vec!["User".to_string(), "Company".to_string()]);
    assert_eq!(out.surfaces[2].methods.len(), 2);
}

#[test]
fn walk_methods_use_case_conversions() {
    let doc = document(vec![object("User", vec![
        field("userName", named("String")),
        field("bestFriend", named("User")),
    ])]);
    let mut out = CodeGenPass::new();
    out.gen_query_trails(&doc);
    let s = &out.surfaces[0];
    assert_eq!(s.trait_name, "QueryTrailUserExtensions");
    assert_eq!(s.args_trait_name, "QueryTrailUserArgumentsExtensions");
    assert_eq!(s.methods[0].method_name, "user_name");
    assert_eq!(s.methods[0].selection_name, "userName");
    assert_eq!(s.methods[0].args_method_name, "user_name_args");
    assert!(matches!(s.methods[0].kind, WalkKind::Leaf));
    match &s.methods[1].kind {
        WalkKind::Walk(t) => assert_eq!(t, "User"),
        WalkKind::Leaf => panic!("expected a walk"),
    }
}

#[test]
fn interface_downcasts_to_implementors() {
    let doc = document(vec![
        TypeDefinition::Interface(InterfaceType {
            name: "Node".to_string(),
            fields: vec![field("id", non_null(named("ID")))],
        }),
        TypeDefinition::Object(ObjectType {
            name: "User".to_string(),
            implements_interfaces: vec!["Node".to_string()],
            fields: vec![field("id", non_null(named("ID")))],
            description: None,
        }),
        object("Other", vec![field("id", non_null(named("ID")))]),
    ]);
    let mut out = CodeGenPass::new();
    out.gen_query_trails(&doc);
    assert_eq!(out.surfaces[0].downcasts, vec!["User".to_string()]);
    assert!(out.surfaces[1].downcasts.is_empty());
}

#[test]
fn compiling_twice_gives_the_same_plan() {
    let doc = mismatched_union_schema();
    let mut a = CodeGenPass::new();
    a.gen_query_trails(&doc);
    let mut b = CodeGenPass::new();
    b.gen_query_trails(&doc);
    assert_eq!(format!("{:?}", a.surfaces), format!("{:?}", b.surfaces));
    assert_eq!(format!("{:?}", a.errors), format!("{:?}", b.errors));
}

#[test]
fn field_without_arguments_gets_unit_accessor() {
    let doc = document(vec![object("Query", vec![field("users", named("Int"))])]);
    let m = gen_field_walk_method(&doc, &no_flags(), &"Query".to_string(), &doc_field(&doc));
    assert!(matches!(m.args, ArgsAccessor::Unit));
    assert_eq!(m.args_method_name, "users_args");
}

fn doc_field(doc: &Document) -> Field {
    match &doc.definitions[0] {
        TypeDefinition::Object(o) => Field {
            name: o.fields[0].name.clone(),
            field_type: named("Int"),
            arguments: vec![],
            description: None,
        },
        _ => panic!("expected an object"),
    }
}

fn widgets_field() -> Field {
    Field {
        name: "widgets".to_string(),
        field_type: named("Int"),
        arguments: vec![InputValue {
            name: "limit".to_string(),
            value_type: named("Int"),
            default_value: Some(LookAheadValue::Scalar(DefaultScalarValue::Int(10))),
        }],
        description: None,
    }
}

#[test]
fn argument_default_used_when_not_supplied() {
    let doc = document(vec![object("Query", vec![widgets_field()])]);
    let m = gen_field_walk_method(&doc, &no_flags(), &"Query".to_string(), &widgets_field());
    match &m.args {
        ArgsAccessor::Arguments { type_ident, accessors } => {
            assert_eq!(type_ident, "QueryWidgetsArgs");
            assert_eq!(accessors.len(), 1);
            assert_eq!(accessors[0].method_name, "limit");
            assert_eq!(accessors[0].host_type, Some(HostType::Int));
            assert_eq!(accessors[0].argument_value(&vec![]).unwrap(), HostValue::Int(10));
        }
        ArgsAccessor::Unit => panic!("expected arguments"),
    }
}

#[test]
fn supplied_argument_wins_over_default() {
    let acc = gen_argument_look_ahead_methods(&document(vec![]), &no_flags(), &widgets_field().arguments[0]);
    let supplied = vec![
        ("other".to_string(), LookAheadValue::Scalar(DefaultScalarValue::Int(1))),
        ("limit".to_string(), LookAheadValue::Scalar(DefaultScalarValue::Int(5))),
    ];
    assert_eq!(acc.argument_value(&supplied).unwrap(), HostValue::Int(5));
}

#[test]
fn nullable_argument_without_default_is_optional() {
    let arg = InputValue { name: "after".to_string(), value_type: named("String"), default_value: None };
    let acc = gen_argument_look_ahead_methods(&document(vec![]), &no_flags(), &arg);
    assert_eq!(acc.host_type, Some(HostType::Optional(Box::new(HostType::String))));
    assert!(matches!(acc.argument_value(&vec![]), Err(ArgumentError::Missing)));
    let supplied = vec![("after".to_string(), LookAheadValue::Null)];
    assert_eq!(acc.argument_value(&supplied).unwrap(), HostValue::Optional(None));
}

#[test]
fn argument_of_uncovered_type_has_no_conversion() {
    let arg = InputValue { name: "color".to_string(), value_type: named("Color"), default_value: None };
    let acc = gen_argument_look_ahead_methods(&document(vec![]), &no_flags(), &arg);
    assert_eq!(acc.host_type, None);
    let supplied = vec![("color".to_string(), LookAheadValue::Enum("RED".to_string()))];
    assert!(matches!(acc.argument_value(&supplied), Err(ArgumentError::NoConversion)));
}

#[test]
fn supplied_argument_of_wrong_tag_fails() {
    let acc = gen_argument_look_ahead_methods(&document(vec![]), &no_flags(), &widgets_field().arguments[0]);
    let supplied = vec![("limit".to_string(), LookAheadValue::Scalar(DefaultScalarValue::String("x".to_string())))];
    assert!(matches!(acc.argument_value(&supplied), Err(ArgumentError::Conversion(_))));
}

#[test]
fn custom_scalars_are_registered() {
    let doc = document(vec![
        TypeDefinition::Scalar(ScalarType { name: "Url".to_string(), description: None }),
        TypeDefinition::Scalar(ScalarType { name: "Date".to_string(), description: None }),
    ]);
    let flags = declared_scalars(&doc);
    assert!(flags.url && flags.date && !flags.uuid && !flags.date_time);
    let arg = InputValue { name: "site".to_string(), value_type: non_null(named("Url")), default_value: None };
    assert_eq!(gen_argument_look_ahead_methods(&doc, &flags, &arg).host_type, Some(HostType::Url));
    assert_eq!(gen_argument_look_ahead_methods(&document(vec![]), &no_flags(), &arg).host_type, None);
}

#[test]
fn selection_name_is_mixed_case() {
    let doc = document(vec![object("User", vec![field("first_name", named("String"))])]);
    let mut out = CodeGenPass::new();
    out.gen_query_trails(&doc);
    assert_eq!(out.surfaces[0].methods[0].selection_name, "firstName");
    assert_eq!(out.surfaces[0].methods[0].method_name, "first_name");
}

#[test]
fn union_keeps_last_member_field_of_a_name() {
    let doc = document(vec![
        union("Entity", &["User", "Company"]),
        object("User", vec![field("id", named("Int")), field("country", named("Country"))]),
        object("Company", vec![field("country", named("OtherCountry"))]),
        object("Country", vec![field("id", named("Int"))]),
        object("OtherCountry", vec![field("id", named("Int"))]),
    ]);
    let mut out = CodeGenPass::new();
    out.gen_query_trails(&doc);
    let entity = &out.surfaces[0];
    assert_eq!(entity.methods.len(), 2);
    assert_eq!(entity.methods[0].method_name, "id");
    assert_eq!(entity.methods[1].method_name, "country");
    match &entity.methods[1].kind {
        WalkKind::Walk(t) => assert_eq!(t, "OtherCountry"),
        WalkKind::Leaf => panic!("expected a walk"),
    }
    assert_eq!(out.errors.len(), 1);
}

#[test]
fn enum_and_custom_scalar_arguments_use_their_defaults() {
    let doc = document(vec![
        TypeDefinition::Enum(EnumType { name: "Color".to_string(), values: vec!["RED".to_string()] }),
        TypeDefinition::Scalar(ScalarType { name: "Email".to_string(), description: None }),
    ]);
    let color = InputValue {
        name: "color".to_string(),
        value_type: named("Color"),
        default_value: Some(LookAheadValue::Enum("RED".to_string())),
    };
    let acc = gen_argument_look_ahead_methods(&doc, &no_flags(), &color);
    assert_eq!(acc.host_type, Some(HostType::Enum));
    assert_eq!(acc.argument_value(&vec![]).unwrap(), HostValue::Enum("RED".to_string()));
    let email = InputValue {
        name: "email".to_string(),
        value_type: non_null(named("Email")),
        default_value: Some(LookAheadValue::Scalar(DefaultScalarValue::String("a@b.c".to_string()))),
    };
    let acc = gen_argument_look_ahead_methods(&doc, &no_flags(), &email);
    assert_eq!(acc.host_type, Some(HostType::Custom));
    assert_eq!(acc.argument_value(&vec![]).unwrap(), HostValue::Custom("a@b.c".to_string()));
}
