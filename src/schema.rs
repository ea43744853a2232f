use vstd::prelude::*;

verus! {

/// A declared type as written in the schema: a name, a list of a type, or a
/// non-null wrapper around a type.
#[derive(Debug, PartialEq)]
pub enum Type {
    NamedType(String),
    ListType(Box<Type>),
    NonNullType(Box<Type>),
}

/// An argument of a field (or a field of an input object).
#[derive(Debug)]
pub struct InputValue {
    pub name: String,
    pub value_type: Type,
    pub default_value: Option<crate::convert::LookAheadValue>,
}

/// A field of an object or interface type.
#[derive(Debug)]
pub struct Field {
    pub name: String,
    pub field_type: Type,
    pub arguments: Vec<InputValue>,
    pub description: Option<String>,
}

#[derive(Debug)]
pub struct ObjectType {
    pub name: String,
    /// The names of the interfaces the type implements.
    pub implements_interfaces: Vec<String>,
    pub fields: Vec<Field>,
    pub description: Option<String>,
}

#[derive(Debug)]
pub struct InterfaceType {
    pub name: String,
    pub fields: Vec<Field>,
}

#[derive(Debug)]
pub struct UnionType {
    pub name: String,
    pub types: Vec<String>,
}

#[derive(Debug)]
pub struct EnumType {
    pub name: String,
    pub values: Vec<String>,
}

#[derive(Debug)]
pub struct ScalarType {
    pub name: String,
    pub description: Option<String>,
}

/// One type definition of a schema document.
#[derive(Debug)]
pub enum TypeDefinition {
    Object(ObjectType),
    Interface(InterfaceType),
    Union(UnionType),
    Enum(EnumType),
    Scalar(ScalarType),
}

/// The schema definition: the names of the root operation types.
#[derive(Debug)]
pub struct SchemaDefinition {
    pub query: Option<String>,
    pub mutation: Option<String>,
}

/// A schema document: its type definitions in order, and its schema
/// definition, where it has one.
#[derive(Debug)]
pub struct Document {
    pub definitions: Vec<TypeDefinition>,
    pub schema: Option<SchemaDefinition>,
}

} // verus!
