use juniper_from_schema_code_gen::{
    convert, encode, ConversionError, DefaultScalarValue, Expected, HostType, HostValue,
    LookAheadValue, NullableType, ParsedFormat, Type, ValueTag,
};

fn string(s: &str) -> LookAheadValue {
    LookAheadValue::Scalar(DefaultScalarValue::String(s.to_string()))
}

fn int_value(i: i32) -> LookAheadValue {
    LookAheadValue::Scalar(DefaultScalarValue::Int(i))
}

fn round_trip(h: HostValue, t: HostType) {
    let v = encode(&h, &t);
    assert_eq!(convert(&v, &t).unwrap(), h);
}

#[test]
fn round_trip_of_scalars() {
    round_trip(HostValue::Int(-7), HostType::Int);
    round_trip(HostValue::String("hello".to_string()), HostType::String);
    round_trip(HostValue::Float(2.5f64.to_bits()), HostType::Float);
    round_trip(HostValue::Boolean(true), HostType::Boolean);
}

#[test]
fn round_trip_of_list_and_optional() {
    round_trip(
        HostValue::List(vec![HostValue::Int(1), HostValue::Int(2), HostValue::Int(3)]),
        HostType::List(Box::new(HostType::Int)),
    );
    round_trip(HostValue::List(vec![]), HostType::List(Box::new(HostType::Int)));
    let opt = HostType::Optional(Box::new(HostType::String));
    round_trip(HostValue::Optional(Some(Box::new(HostValue::String("x".to_string())))), HostType::Optional(Box::new(HostType::String)));
    round_trip(HostValue::Optional(None), opt);
}

#[test]
fn int_value_for_string_is_a_mismatch() {
    match convert(&int_value(3), &HostType::String) {
        Err(ConversionError::Mismatch { expected, got }) => {
            assert_eq!(expected, Expected::String);
            assert_eq!(got, ValueTag::Int);
        }
        other => panic!("unexpected {:?}", other),
    }
}

#[test]
fn null_is_absent_optional_and_mismatch_otherwise() {
    assert_eq!(convert(&LookAheadValue::Null, &HostType::Optional(Box::new(HostType::Int))).unwrap(), HostValue::Optional(None));
    assert!(matches!(
        convert(&LookAheadValue::Null, &HostType::Int),
        Err(ConversionError::Mismatch { expected: Expected::Int, got: ValueTag::Null })
    ));
}

#[test]
fn list_converts_item_by_item() {
    let v = LookAheadValue::List(vec![int_value(1), int_value(2)]);
    let t = HostType::List(Box::new(HostType::Int));
    assert_eq!(convert(&v, &t).unwrap(), HostValue::List(vec![HostValue::Int(1), HostValue::Int(2)]));
    let bad = LookAheadValue::List(vec![int_value(1), string("a"), LookAheadValue::Null]);
    assert!(matches!(convert(&bad, &t), Err(ConversionError::Mismatch { expected: Expected::Int, got: ValueTag::String })));
    assert!(matches!(convert(&int_value(1), &t), Err(ConversionError::Mismatch { expected: Expected::List, got: ValueTag::Int })));
}

#[test]
fn identifier_is_read_from_string() {
    assert_eq!(convert(&string("abc"), &HostType::Id).unwrap(), HostValue::Id("abc".to_string()));
    assert!(matches!(convert(&int_value(1), &HostType::Id), Err(ConversionError::Mismatch { expected: Expected::String, got: ValueTag::Int })));
}

#[test]
fn other_tags_are_named_in_mismatch() {
    let obj = LookAheadValue::Object(vec![]);
    assert!(matches!(convert(&obj, &HostType::Boolean), Err(ConversionError::Mismatch { expected: Expected::Boolean, got: ValueTag::Object })));
    let en = LookAheadValue::Enum("RED".to_string());
    assert!(matches!(convert(&en, &HostType::Float), Err(ConversionError::Mismatch { expected: Expected::Float, got: ValueTag::Enum })));
}

#[test]
fn url_is_parsed_and_serialized() {
    assert_eq!(convert(&string("http://example.com"), &HostType::Url).unwrap(), HostValue::Url("http://example.com/".to_string()));
    match convert(&string("not a url"), &HostType::Url) {
        Err(ConversionError::Parse { format, message }) => {
            assert_eq!(format, ParsedFormat::Url);
            assert!(!message.is_empty());
        }
        other => panic!("unexpected {:?}", other),
    }
}

#[test]
fn uuid_is_parsed() {
    assert_eq!(
        convert(&string("67e55044-10b1-426f-9247-bb680e5fe0c8"), &HostType::Uuid).unwrap(),
        HostValue::Uuid(138101147531900207301164854559698313416)
    );
    assert!(matches!(convert(&string("xyz"), &HostType::Uuid), Err(ConversionError::Parse { format: ParsedFormat::Uuid, .. })));
}

#[test]
fn dates_are_parsed() {
    assert_eq!(convert(&string("2020-01-02"), &HostType::Date).unwrap(), HostValue::Date(737426));
    assert!(matches!(convert(&string("02/01/2020"), &HostType::Date), Err(ConversionError::Parse { format: ParsedFormat::Date, .. })));
    assert_eq!(convert(&string("2020-01-02T03:04:05Z"), &HostType::DateTime).unwrap(), HostValue::DateTime(1577934245, 0));
    assert_eq!(convert(&string("2020-01-02T03:04:05+02:00"), &HostType::DateTime).unwrap(), HostValue::DateTime(1577927045, 0));
    assert!(matches!(convert(&string("2020-01-02"), &HostType::DateTime), Err(ConversionError::Parse { format: ParsedFormat::DateTime, .. })));
    assert_eq!(convert(&string("2020-01-02 03:04:05"), &HostType::NaiveDateTime).unwrap(), HostValue::NaiveDateTime(1577934245));
    assert!(matches!(convert(&string("2020-01-02T03:04:05"), &HostType::NaiveDateTime), Err(ConversionError::Parse { format: ParsedFormat::NaiveDateTime, .. })));
}

#[test]
fn normalizer_keeps_wrapper_order() {
    let t = Type::NonNullType(Box::new(Type::ListType(Box::new(Type::NamedType("Int".to_string())))));
    assert_eq!(
        NullableType::from_type(&t),
        NullableType::ListType(Box::new(NullableType::NullableType(Box::new(NullableType::NamedType("Int".to_string())))))
    );
    let u = Type::ListType(Box::new(Type::NonNullType(Box::new(Type::NamedType("Int".to_string())))));
    assert_eq!(
        NullableType::from_type(&u),
        NullableType::NullableType(Box::new(NullableType::ListType(Box::new(NullableType::NamedType("Int".to_string())))))
    );
    assert_eq!(juniper_from_schema_code_gen::named_type_name(&u), "Int");
}
