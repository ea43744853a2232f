use juniper_from_schema_code_gen::{
    gen_juniper_code, parse_attributes, parse_attributes_line, Attribute,
    CodeGenError, DefaultScalarValue, Document, EnumType, Field, FieldKind, InputValue,
    InterfaceType, LookAheadValue, ObjectType, Ownership, ScalarType, SchemaDefinition, Type,
    TypeDefinition,
};

#[test]
fn parse_descriptions_for_attributes() {
    let desc = r#"
        Comment

        #[ownership(borrowed)]
        "#;
    let attributes = parse_attributes(&desc.to_string());
    assert_eq!(attributes.ownership(), Ownership::Borrowed);

    let desc = r#"
        Comment

        #[ownership(owned)]
        "#;
    let attributes = parse_attributes(&desc.to_string());
    assert_eq!(attributes.ownership(), Ownership::Owned);

    let desc = r#"
        Comment
        "#;
    let attributes = parse_attributes(&desc.to_string());
    assert_eq!(attributes.ownership(), Ownership::Borrowed);
}

#[test]
fn unknown_directives_leave_ownership_borrowed() {
    assert_eq!(parse_attributes_line(&"#[color(red)]".to_string()), None);
    assert_eq!(parse_attributes_line(&"  #[ownership(shared)]".to_string()), None);
    assert_eq!(parse_attributes_line(&"plain text".to_string()), None);
    assert_eq!(
        parse_attributes_line(&"  #[ownership(owned)]".to_string()),
        Some(Attribute::Ownership(Ownership::Owned))
    );
    let attributes = parse_attributes(&"#[ownership(shared)]\n#[speed(fast)]".to_string());
    assert!(attributes.list.is_empty());
    assert_eq!(attributes.ownership(), Ownership::Borrowed);
    let list = parse_attributes(&"#[ownership(owned)]\n#[ownership(borrowed)]".to_string()).list;
    assert_eq!(list, vec![Attribute::Ownership(Ownership::Owned), Attribute::Ownership(Ownership::Borrowed)]);
}

fn field(name: &str, ty: &str, description: Option<&str>) -> Field {
    Field {
        name: name.to_string(),
        field_type: Type::NonNullType(Box::new(Type::NamedType(ty.to_string()))),
        arguments: vec![],
        description: description.map(|d| d.to_string()),
    }
}

fn user_object() -> TypeDefinition {
    let mut posts = field("recentPosts", "Post", None);
    posts.arguments.push(InputValue {
        name: "pageSize".to_string(),
        value_type: Type::NamedType("Int".to_string()),
        default_value: None,
    });
    TypeDefinition::Object(ObjectType {
        name: "User".to_string(),
        implements_interfaces: vec![],
        fields: vec![field("name", "String", Some("#[ownership(owned)]")), field("id", "ID", None), posts],
        description: Some("A user".to_string()),
    })
}

#[test]
fn resolver_trait_per_object() {
    let doc = Document {
        definitions: vec![
            user_object(),
            TypeDefinition::Enum(EnumType { name: "color".to_string(), values: vec!["DARK_RED".to_string()] }),
            TypeDefinition::Scalar(ScalarType { name: "Email".to_string(), description: Some("mail".to_string()) }),
            TypeDefinition::Scalar(ScalarType { name: "Date".to_string(), description: None }),
        ],
        schema: Some(SchemaDefinition { query: Some("User".to_string()), mutation: None }),
    };
    let code = gen_juniper_code(&doc).unwrap();
    assert_eq!(code.schema.as_ref().unwrap().query, "User");
    assert!(code.schema.as_ref().unwrap().mutation.is_none());
    assert_eq!(code.objects.len(), 1);
    let user = &code.objects[0];
    assert_eq!(user.trait_name, "UserFields");
    assert_eq!(user.fields.len(), 3);
    assert_eq!(user.fields[0].method_name, "field_name");
    assert_eq!(user.fields[0].ownership, Ownership::Owned);
    assert_eq!(user.fields[1].ownership, Ownership::Borrowed);
    assert!(matches!(user.fields[1].kind, FieldKind::Scalar));
    assert_eq!(user.fields[2].method_name, "field_recent_posts");
    assert!(matches!(&user.fields[2].kind, FieldKind::Relation(t) if t == "Post"));
    assert_eq!(user.fields[2].arguments[0].name, "page_size");
    assert_eq!(code.enums[0].name, "Color");
    assert_eq!(code.enums[0].values[0].graphql_name, "DARK_RED");
    assert_eq!(code.enums[0].values[0].variant, "DarkRed");
    assert_eq!(code.scalars.len(), 1);
    assert_eq!(code.scalars[0].name, "Email");
}

#[test]
fn resolver_planning_errors() {
    let missing_query = Document {
        definitions: vec![],
        schema: Some(SchemaDefinition { query: None, mutation: Some("M".to_string()) }),
    };
    assert!(matches!(gen_juniper_code(&missing_query), Err(CodeGenError::MissingQuery)));

    let with_interface = Document {
        definitions: vec![TypeDefinition::Interface(InterfaceType { name: "Node".to_string(), fields: vec![] })],
        schema: None,
    };
    assert!(matches!(gen_juniper_code(&with_interface), Err(CodeGenError::UnsupportedDefinition { name }) if name == "Node"));

    let mut f = field("widgets", "Int", None);
    f.arguments.push(InputValue {
        name: "limit".to_string(),
        value_type: Type::NamedType("Int".to_string()),
        default_value: Some(LookAheadValue::Scalar(DefaultScalarValue::Int(10))),
    });
    let with_default = Document {
        definitions: vec![TypeDefinition::Object(ObjectType {
            name: "Query".to_string(),
            implements_interfaces: vec![],
            fields: vec![f],
            description: None,
        })],
        schema: None,
    };
    assert!(matches!(
        gen_juniper_code(&with_default),
        Err(CodeGenError::ArgumentDefault { field, argument }) if field == "widgets" && argument == "limit"
    ));

    let bad_directive = Document {
        definitions: vec![TypeDefinition::Object(ObjectType {
            name: "Query".to_string(),
            implements_interfaces: vec![],
            fields: vec![field("a", "Int", Some("#[speed(fast)]"))],
            description: None,
        })],
        schema: None,
    };
    let code = gen_juniper_code(&bad_directive).unwrap();
    assert_eq!(code.objects[0].fields[0].ownership, Ownership::Borrowed);
}
