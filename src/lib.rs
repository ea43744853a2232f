//! Schema analysis and code planning for GraphQL schemas.
//!
//! The library works on a plain model of a schema document. It plans, for
//! every object, interface and union type, the query-trail navigation surface
//! (one method per field, argument accessors, downcasts), checks unions for
//! member fields of one name with different types, plans the resolver traits
//! of object types, and converts the dynamic values of a live query into
//! typed host values.

pub mod schema;
pub mod nullable;
pub mod convert;
pub mod scalars;
pub mod fields_map;
pub mod union_check;
pub mod naming;
pub mod registry;
pub mod query_trail;
pub mod laws;
pub mod attributes;
pub mod resolvers;

pub use schema::{
    Type, Field, InputValue, ObjectType, InterfaceType, UnionType, EnumType, ScalarType,
    TypeDefinition, SchemaDefinition, Document,
};
pub use nullable::{NullableType, named_type_name};
pub use convert::{
    LookAheadValue, DefaultScalarValue, HostType, HostValue, ConversionError, ValueTag, Expected,
    ParsedFormat, convert, encode,
};
pub use query_trail::{CodeGenPass, QueryTrailSurface, WalkMethod, WalkKind, ArgsAccessor, ArgumentAccessor, ArgumentError};
pub use union_check::UnionFieldTypeMismatch;
pub use attributes::{Attributes, Attribute, Ownership, parse_attributes, parse_attributes_line};
pub use resolvers::{gen_juniper_code, JuniperCode, CodeGenError, ObjectResolver, ResolverField, FieldKind};
