use vstd::prelude::*;

use crate::value::{ScalarType, TypeModel};

verus! {

/// The element type of an array type that the server knows by name only.
#[derive(Debug, Clone, PartialEq, Eq)]
pub struct PgArrayOf {
    pub elem_name: String,
}

/// A PostgreSQL type: a built-in type with a fixed identifier, or one that is
/// declared by identifier or by name.
#[derive(Debug, Clone, PartialEq, Eq)]
pub enum PgType {
    Bool,
    Bytea,
    Char,
    Name,
    Int8,
    Int2,
    Int4,
    Text,
    Oid,
    Json,
    Point,
    Float4,
    Float8,
    Money,
    Varchar,
    Date,
    Time,
    Timestamp,
    Timestamptz,
    Interval,
    Numeric,
    Record,
    Void,
    Uuid,
    Jsonb,
    BoolArray,
    ByteaArray,
    CharArray,
    Int2Array,
    Int4Array,
    TextArray,
    Int8Array,
    Float4Array,
    Float8Array,
    UuidArray,
    DeclareWithOid(u32),
    /// A type known by name; its identifier is looked up on the server.
    DeclareWithName(String),
    /// An array of a type known by name; its identifier is looked up on the server.
    DeclareArrayOf(PgArrayOf),
}

/// The mathematical form of a `PgType`.
pub enum PgTypeModel {
    Bool,
    Bytea,
    Char,
    Name,
    Int8,
    Int2,
    Int4,
    Text,
    Oid,
    Json,
    Point,
    Float4,
    Float8,
    Money,
    Varchar,
    Date,
    Time,
    Timestamp,
    Timestamptz,
    Interval,
    Numeric,
    Record,
    Void,
    Uuid,
    Jsonb,
    BoolArray,
    ByteaArray,
    CharArray,
    Int2Array,
    Int4Array,
    TextArray,
    Int8Array,
    Float4Array,
    Float8Array,
    UuidArray,
    DeclareWithOid(u32),
    DeclareWithName(Seq<char>),
    DeclareArrayOf(Seq<char>),
}

impl View for PgType {
    type V = PgTypeModel;

    open spec fn view(&self) -> PgTypeModel {
        match self {
            PgType::Bool => PgTypeModel::Bool,
            PgType::Bytea => PgTypeModel::Bytea,
            PgType::Char => PgTypeModel::Char,
            PgType::Name => PgTypeModel::Name,
            PgType::Int8 => PgTypeModel::Int8,
            PgType::Int2 => PgTypeModel::Int2,
            PgType::Int4 => PgTypeModel::Int4,
            PgType::Text => PgTypeModel::Text,
            PgType::Oid => PgTypeModel::Oid,
            PgType::Json => PgTypeModel::Json,
            PgType::Point => PgTypeModel::Point,
            PgType::Float4 => PgTypeModel::Float4,
            PgType::Float8 => PgTypeModel::Float8,
            PgType::Money => PgTypeModel::Money,
            PgType::Varchar => PgTypeModel::Varchar,
            PgType::Date => PgTypeModel::Date,
            PgType::Time => PgTypeModel::Time,
            PgType::Timestamp => PgTypeModel::Timestamp,
            PgType::Timestamptz => PgTypeModel::Timestamptz,
            PgType::Interval => PgTypeModel::Interval,
            PgType::Numeric => PgTypeModel::Numeric,
            PgType::Record => PgTypeModel::Record,
            PgType::Void => PgTypeModel::Void,
            PgType::Uuid => PgTypeModel::Uuid,
            PgType::Jsonb => PgTypeModel::Jsonb,
            PgType::BoolArray => PgTypeModel::BoolArray,
            PgType::ByteaArray => PgTypeModel::ByteaArray,
            PgType::CharArray => PgTypeModel::CharArray,
            PgType::Int2Array => PgTypeModel::Int2Array,
            PgType::Int4Array => PgTypeModel::Int4Array,
            PgType::TextArray => PgTypeModel::TextArray,
            PgType::Int8Array => PgTypeModel::Int8Array,
            PgType::Float4Array => PgTypeModel::Float4Array,
            PgType::Float8Array => PgTypeModel::Float8Array,
            PgType::UuidArray => PgTypeModel::UuidArray,
            PgType::DeclareWithOid(o) => PgTypeModel::DeclareWithOid(*o),
            PgType::DeclareWithName(n) => PgTypeModel::DeclareWithName(n@),
            PgType::DeclareArrayOf(a) => PgTypeModel::DeclareArrayOf(a.elem_name@),
        }
    }
}

/// Type information of a PostgreSQL value.
#[derive(Debug, Clone, PartialEq, Eq)]
pub struct PgTypeInfo(pub PgType);

impl View for PgTypeInfo {
    type V = PgTypeModel;

    open spec fn view(&self) -> PgTypeModel {
        self.0@
    }
}

/// The name of a type, for messages: the upper-case built-in name, or the
/// declared name (with `[]` for an array of it).
pub open spec fn pg_type_name(t: PgTypeModel) -> Seq<char> {
    match t {
        PgTypeModel::DeclareWithOid(_) => "DECLARED BY OID"@,
        PgTypeModel::DeclareWithName(n) => n,
        PgTypeModel::DeclareArrayOf(n) => n + "[]"@,
        PgTypeModel::Bool => "BOOL"@,
        PgTypeModel::Bytea => "BYTEA"@,
        PgTypeModel::Char => "CHAR"@,
        PgTypeModel::Name => "NAME"@,
        PgTypeModel::Int8 => "INT8"@,
        PgTypeModel::Int2 => "INT2"@,
        PgTypeModel::Int4 => "INT4"@,
        PgTypeModel::Text => "TEXT"@,
        PgTypeModel::Oid => "OID"@,
        PgTypeModel::Json => "JSON"@,
        PgTypeModel::Point => "POINT"@,
        PgTypeModel::Float4 => "FLOAT4"@,
        PgTypeModel::Float8 => "FLOAT8"@,
        PgTypeModel::Money => "MONEY"@,
        PgTypeModel::Varchar => "VARCHAR"@,
        PgTypeModel::Date => "DATE"@,
        PgTypeModel::Time => "TIME"@,
        PgTypeModel::Timestamp => "TIMESTAMP"@,
        PgTypeModel::Timestamptz => "TIMESTAMPTZ"@,
        PgTypeModel::Interval => "INTERVAL"@,
        PgTypeModel::Numeric => "NUMERIC"@,
        PgTypeModel::Record => "RECORD"@,
        PgTypeModel::Void => "VOID"@,
        PgTypeModel::Uuid => "UUID"@,
        PgTypeModel::Jsonb => "JSONB"@,
        PgTypeModel::BoolArray => "BOOL[]"@,
        PgTypeModel::ByteaArray => "BYTEA[]"@,
        PgTypeModel::CharArray => "CHAR[]"@,
        PgTypeModel::Int2Array => "INT2[]"@,
        PgTypeModel::Int4Array => "INT4[]"@,
        PgTypeModel::TextArray => "TEXT[]"@,
        PgTypeModel::Int8Array => "INT8[]"@,
        PgTypeModel::Float4Array => "FLOAT4[]"@,
        PgTypeModel::Float8Array => "FLOAT8[]"@,
        PgTypeModel::UuidArray => "UUID[]"@,
    }
}

/// The server's identifier of a type, where it is fixed without a lookup.
pub open spec fn spec_oid(t: PgTypeModel) -> Option<u32> {
    match t {
        PgTypeModel::Bool => Some(16u32),
        PgTypeModel::Bytea => Some(17u32),
        PgTypeModel::Char => Some(18u32),
        PgTypeModel::Name => Some(19u32),
        PgTypeModel::Int8 => Some(20u32),
        PgTypeModel::Int2 => Some(21u32),
        PgTypeModel::Int4 => Some(23u32),
        PgTypeModel::Text => Some(25u32),
        PgTypeModel::Oid => Some(26u32),
        PgTypeModel::Json => Some(114u32),
        PgTypeModel::Point => Some(600u32),
        PgTypeModel::Float4 => Some(700u32),
        PgTypeModel::Float8 => Some(701u32),
        PgTypeModel::Money => Some(790u32),
        PgTypeModel::Varchar => Some(1043u32),
        PgTypeModel::Date => Some(1082u32),
        PgTypeModel::Time => Some(1083u32),
        PgTypeModel::Timestamp => Some(1114u32),
        PgTypeModel::Timestamptz => Some(1184u32),
        PgTypeModel::Interval => Some(1186u32),
        PgTypeModel::Numeric => Some(1700u32),
        PgTypeModel::Record => Some(2249u32),
        PgTypeModel::Void => Some(2278u32),
        PgTypeModel::Uuid => Some(2950u32),
        PgTypeModel::Jsonb => Some(3802u32),
        PgTypeModel::BoolArray => Some(1000u32),
        PgTypeModel::ByteaArray => Some(1001u32),
        PgTypeModel::CharArray => Some(1002u32),
        PgTypeModel::Int2Array => Some(1005u32),
        PgTypeModel::Int4Array => Some(1007u32),
        PgTypeModel::TextArray => Some(1009u32),
        PgTypeModel::Int8Array => Some(1016u32),
        PgTypeModel::Float4Array => Some(1021u32),
        PgTypeModel::Float8Array => Some(1022u32),
        PgTypeModel::UuidArray => Some(2951u32),
        PgTypeModel::DeclareWithOid(o) => Some(o),
        PgTypeModel::DeclareWithName(_) => None,
        PgTypeModel::DeclareArrayOf(_) => None,
    }
}

/// The PostgreSQL type that a value of scalar type `t` is sent as.
///
/// PostgreSQL has no unsigned integer types: values of those fail to encode,
/// and their type is never recorded, so `VOID` stands in.
pub open spec fn pg_type_model(t: TypeModel) -> PgTypeModel {
    match t {
        TypeModel::Bool => PgTypeModel::Bool,
        TypeModel::I8 => PgTypeModel::Char,
        TypeModel::I16 => PgTypeModel::Int2,
        TypeModel::I32 => PgTypeModel::Int4,
        TypeModel::I64 => PgTypeModel::Int8,
        TypeModel::Real => PgTypeModel::Float4,
        TypeModel::Double => PgTypeModel::Float8,
        TypeModel::Text => PgTypeModel::Text,
        TypeModel::Blob => PgTypeModel::Bytea,
        TypeModel::Uuid => PgTypeModel::Uuid,
        TypeModel::Custom(n) => PgTypeModel::DeclareWithName(n),
        _ => PgTypeModel::Void,
    }
}

/// The PostgreSQL array type whose elements have scalar type `t`.
pub open spec fn pg_array_type_model(t: TypeModel) -> PgTypeModel {
    match t {
        TypeModel::Bool => PgTypeModel::BoolArray,
        TypeModel::I8 => PgTypeModel::CharArray,
        TypeModel::I16 => PgTypeModel::Int2Array,
        TypeModel::I32 => PgTypeModel::Int4Array,
        TypeModel::I64 => PgTypeModel::Int8Array,
        TypeModel::Real => PgTypeModel::Float4Array,
        TypeModel::Double => PgTypeModel::Float8Array,
        TypeModel::Text => PgTypeModel::TextArray,
        TypeModel::Blob => PgTypeModel::ByteaArray,
        TypeModel::Uuid => PgTypeModel::UuidArray,
        TypeModel::Custom(n) => PgTypeModel::DeclareArrayOf(n),
        _ => PgTypeModel::Void,
    }
}

/// Whether PostgreSQL can carry values of scalar type `t`.
pub open spec fn pg_supports(t: TypeModel) -> bool {
    !(t is U8 || t is U16 || t is U32 || t is U64)
}

impl PgTypeInfo {
    /// The server's identifier of this type, where it is fixed without a lookup.
    pub fn oid(&self) -> (r: Option<u32>)
        ensures
            r == spec_oid(self@),
    {
        match &self.0 {
            PgType::Bool => Some(16u32),
            PgType::Bytea => Some(17u32),
            PgType::Char => Some(18u32),
            PgType::Name => Some(19u32),
            PgType::Int8 => Some(20u32),
            PgType::Int2 => Some(21u32),
            PgType::Int4 => Some(23u32),
            PgType::Text => Some(25u32),
            PgType::Oid => Some(26u32),
            PgType::Json => Some(114u32),
            PgType::Point => Some(600u32),
            PgType::Float4 => Some(700u32),
            PgType::Float8 => Some(701u32),
            PgType::Money => Some(790u32),
            PgType::Varchar => Some(1043u32),
            PgType::Date => Some(1082u32),
            PgType::Time => Some(1083u32),
            PgType::Timestamp => Some(1114u32),
            PgType::Timestamptz => Some(1184u32),
            PgType::Interval => Some(1186u32),
            PgType::Numeric => Some(1700u32),
            PgType::Record => Some(2249u32),
            PgType::Void => Some(2278u32),
            PgType::Uuid => Some(2950u32),
            PgType::Jsonb => Some(3802u32),
            PgType::BoolArray => Some(1000u32),
            PgType::ByteaArray => Some(1001u32),
            PgType::CharArray => Some(1002u32),
            PgType::Int2Array => Some(1005u32),
            PgType::Int4Array => Some(1007u32),
            PgType::TextArray => Some(1009u32),
            PgType::Int8Array => Some(1016u32),
            PgType::Float4Array => Some(1021u32),
            PgType::Float8Array => Some(1022u32),
            PgType::UuidArray => Some(2951u32),
            PgType::DeclareWithOid(o) => Some(*o),
            PgType::DeclareWithName(_) => None,
            PgType::DeclareArrayOf(_) => None,
        }
    }

    /// The name of this type, for messages.
    pub fn display_name(&self) -> (r: String)
        ensures
            r@ == pg_type_name(self@),
    {
        match &self.0 {
            PgType::DeclareWithOid(_) => "DECLARED BY OID".to_owned(),
            PgType::DeclareWithName(n) => n.clone(),
            PgType::DeclareArrayOf(a) => a.elem_name.clone().concat("[]"),
            PgType::Bool => "BOOL".to_owned(),
            PgType::Bytea => "BYTEA".to_owned(),
            PgType::Char => "CHAR".to_owned(),
            PgType::Name => "NAME".to_owned(),
            PgType::Int8 => "INT8".to_owned(),
            PgType::Int2 => "INT2".to_owned(),
            PgType::Int4 => "INT4".to_owned(),
            PgType::Text => "TEXT".to_owned(),
            PgType::Oid => "OID".to_owned(),
            PgType::Json => "JSON".to_owned(),
            PgType::Point => "POINT".to_owned(),
            PgType::Float4 => "FLOAT4".to_owned(),
            PgType::Float8 => "FLOAT8".to_owned(),
            PgType::Money => "MONEY".to_owned(),
            PgType::Varchar => "VARCHAR".to_owned(),
            PgType::Date => "DATE".to_owned(),
            PgType::Time => "TIME".to_owned(),
            PgType::Timestamp => "TIMESTAMP".to_owned(),
            PgType::Timestamptz => "TIMESTAMPTZ".to_owned(),
            PgType::Interval => "INTERVAL".to_owned(),
            PgType::Numeric => "NUMERIC".to_owned(),
            PgType::Record => "RECORD".to_owned(),
            PgType::Void => "VOID".to_owned(),
            PgType::Uuid => "UUID".to_owned(),
            PgType::Jsonb => "JSONB".to_owned(),
            PgType::BoolArray => "BOOL[]".to_owned(),
            PgType::ByteaArray => "BYTEA[]".to_owned(),
            PgType::CharArray => "CHAR[]".to_owned(),
            PgType::Int2Array => "INT2[]".to_owned(),
            PgType::Int4Array => "INT4[]".to_owned(),
            PgType::TextArray => "TEXT[]".to_owned(),
            PgType::Int8Array => "INT8[]".to_owned(),
            PgType::Float4Array => "FLOAT4[]".to_owned(),
            PgType::Float8Array => "FLOAT8[]".to_owned(),
            PgType::UuidArray => "UUID[]".to_owned(),
        }
    }

    /// The type that a value of scalar type `t` is sent as.
    pub fn of_scalar(t: &ScalarType) -> (r: PgTypeInfo)
        ensures
            r@ == pg_type_model(t@),
    {
        let ty = match t {
            ScalarType::Bool => PgType::Bool,
            ScalarType::I8 => PgType::Char,
            ScalarType::I16 => PgType::Int2,
            ScalarType::I32 => PgType::Int4,
            ScalarType::I64 => PgType::Int8,
            ScalarType::Real => PgType::Float4,
            ScalarType::Double => PgType::Float8,
            ScalarType::Text => PgType::Text,
            ScalarType::Blob => PgType::Bytea,
            ScalarType::Uuid => PgType::Uuid,
            ScalarType::Custom(n) => PgType::DeclareWithName(n.clone()),
            _ => PgType::Void,
        };
        PgTypeInfo(ty)
    }

    /// The array type whose elements have scalar type `t`.
    pub fn array_of_scalar(t: &ScalarType) -> (r: PgTypeInfo)
        ensures
            r@ == pg_array_type_model(t@),
    {
        let ty = match t {
            ScalarType::Bool => PgType::BoolArray,
            ScalarType::I8 => PgType::CharArray,
            ScalarType::I16 => PgType::Int2Array,
            ScalarType::I32 => PgType::Int4Array,
            ScalarType::I64 => PgType::Int8Array,
            ScalarType::Real => PgType::Float4Array,
            ScalarType::Double => PgType::Float8Array,
            ScalarType::Text => PgType::TextArray,
            ScalarType::Blob => PgType::ByteaArray,
            ScalarType::Uuid => PgType::UuidArray,
            ScalarType::Custom(n) => PgType::DeclareArrayOf(PgArrayOf { elem_name: n.clone() }),
            _ => PgType::Void,
        };
        PgTypeInfo(ty)
    }
}

/// Decides `pg_supports`.
pub fn pg_supports_type(t: &ScalarType) -> (r: bool)
    ensures
        r == pg_supports(t@),
{
    match t {
        ScalarType::U8 | ScalarType::U16 | ScalarType::U32 | ScalarType::U64 => false,
        _ => true,
    }
}

} // verus!
