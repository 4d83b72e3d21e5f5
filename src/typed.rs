//! Primitive native types and the `type`, `format` and bounds each maps to.

use vstd::prelude::*;
use crate::model::{DataType, DataTypeFormat};

verus! {

/// A native type with a fixed schema: a scalar, a text-like type, or a
/// well-known library type that is written as a scalar.
#[derive(Clone, Copy, Debug, PartialEq, Eq, Structural)]
pub enum TypedData {
    Str,
    Char,
    String,
    PathBuf,
    Utf8PathBuf,
    Bool,
    F32,
    F64,
    I8,
    I16,
    I32,
    I64,
    I128,
    Isize,
    U8,
    U16,
    U32,
    U64,
    U128,
    Usize,
    Multipart,
    Session,
    Identity,
    NamedFile,
    JiffTimestamp,
    JiffZoned,
    JiffDateTime,
    JiffDate,
    JiffTime,
    JiffSpan,
    ChronoNaiveDateTime,
    ChronoNaiveDate,
    ChronoNaiveTime,
    ChronoDateTime,
    ChronoDate,
    Decimal,
    Url,
    Uuid,
    IpAddr,
    Ipv4Addr,
    Ipv6Addr,
}

/// The `(type, format)` pair of each primitive type.
pub open spec fn type_table(t: TypedData) -> (DataType, Option<DataTypeFormat>) {
    match t {
        TypedData::Str | TypedData::Char | TypedData::String | TypedData::PathBuf => (DataType::String, None),
        TypedData::Utf8PathBuf => (DataType::String, Some(DataTypeFormat::Binary)),
        TypedData::Bool => (DataType::Boolean, None),
        TypedData::F32 => (DataType::Number, Some(DataTypeFormat::Float)),
        TypedData::F64 => (DataType::Number, Some(DataTypeFormat::Double)),
        TypedData::I8 | TypedData::I16 | TypedData::I32 | TypedData::U8 | TypedData::U16
        | TypedData::U32 => (DataType::Integer, Some(DataTypeFormat::Int32)),
        TypedData::I64 | TypedData::I128 | TypedData::Isize | TypedData::U64 | TypedData::U128
        | TypedData::Usize => (DataType::Integer, Some(DataTypeFormat::Int64)),
        TypedData::Multipart | TypedData::NamedFile => (DataType::File, Some(DataTypeFormat::Binary)),
        TypedData::Session | TypedData::Identity => (DataType::Object, None),
        TypedData::JiffTimestamp | TypedData::ChronoNaiveDateTime | TypedData::ChronoDateTime => (
            DataType::String,
            Some(DataTypeFormat::DateTime),
        ),
        TypedData::JiffZoned | TypedData::JiffDateTime | TypedData::JiffTime | TypedData::JiffSpan => (
            DataType::String,
            Some(DataTypeFormat::Other),
        ),
        TypedData::JiffDate | TypedData::ChronoNaiveDate | TypedData::ChronoDate => (
            DataType::String,
            Some(DataTypeFormat::Date),
        ),
        TypedData::ChronoNaiveTime => (DataType::String, None),
        TypedData::Decimal => (DataType::Number, Some(DataTypeFormat::Float)),
        TypedData::Url => (DataType::String, Some(DataTypeFormat::Url)),
        TypedData::Uuid => (DataType::String, Some(DataTypeFormat::Uuid)),
        TypedData::IpAddr => (DataType::String, Some(DataTypeFormat::Ip)),
        TypedData::Ipv4Addr => (DataType::String, Some(DataTypeFormat::IpV4)),
        TypedData::Ipv6Addr => (DataType::String, Some(DataTypeFormat::IpV6)),
    }
}

/// The lower bound of the types that carry bounds: the type's least value.
pub open spec fn min_table(t: TypedData) -> Option<i128> {
    match t {
        TypedData::I8 => Some(i8::MIN as i128),
        TypedData::I16 => Some(i16::MIN as i128),
        TypedData::I128 => Some(i128::MIN),
        TypedData::U8 | TypedData::U16 | TypedData::U128 => Some(0),
        _ => None,
    }
}

/// The upper bound of the types that carry bounds: the type's greatest value.
pub open spec fn max_table(t: TypedData) -> Option<u128> {
    match t {
        TypedData::I8 => Some(i8::MAX as u128),
        TypedData::I16 => Some(i16::MAX as u128),
        TypedData::I128 => Some(i128::MAX as u128),
        TypedData::U8 => Some(u8::MAX as u128),
        TypedData::U16 => Some(u16::MAX as u128),
        TypedData::U128 => Some(u128::MAX),
        _ => None,
    }
}

impl TypedData {
    /// The schema `type` of this primitive.
    pub fn data_type(&self) -> (r: DataType)
        ensures
            r == type_table(*self).0,
    {
        match self {
            TypedData::Str | TypedData::Char | TypedData::String | TypedData::PathBuf
            | TypedData::Utf8PathBuf => DataType::String,
            TypedData::Bool => DataType::Boolean,
            TypedData::F32 | TypedData::F64 | TypedData::Decimal => DataType::Number,
            TypedData::I8 | TypedData::I16 | TypedData::I32 | TypedData::I64 | TypedData::I128
            | TypedData::Isize | TypedData::U8 | TypedData::U16 | TypedData::U32 | TypedData::U64
            | TypedData::U128 | TypedData::Usize => DataType::Integer,
            TypedData::Multipart | TypedData::NamedFile => DataType::File,
            TypedData::Session | TypedData::Identity => DataType::Object,
            _ => DataType::String,
        }
    }

    /// The schema `format` of this primitive, if it has one.
    pub fn format(&self) -> (r: Option<DataTypeFormat>)
        ensures
            r == type_table(*self).1,
    {
        match self {
            TypedData::Utf8PathBuf | TypedData::Multipart | TypedData::NamedFile => Some(
                DataTypeFormat::Binary,
            ),
            TypedData::F32 | TypedData::Decimal => Some(DataTypeFormat::Float),
            TypedData::F64 => Some(DataTypeFormat::Double),
            TypedData::I8 | TypedData::I16 | TypedData::I32 | TypedData::U8 | TypedData::U16
            | TypedData::U32 => Some(DataTypeFormat::Int32),
            TypedData::I64 | TypedData::I128 | TypedData::Isize | TypedData::U64 | TypedData::U128
            | TypedData::Usize => Some(DataTypeFormat::Int64),
            TypedData::JiffTimestamp | TypedData::ChronoNaiveDateTime | TypedData::ChronoDateTime => Some(
                DataTypeFormat::DateTime,
            ),
            TypedData::JiffZoned | TypedData::JiffDateTime | TypedData::JiffTime
            | TypedData::JiffSpan => Some(DataTypeFormat::Other),
            TypedData::JiffDate | TypedData::ChronoNaiveDate | TypedData::ChronoDate => Some(
                DataTypeFormat::Date,
            ),
            TypedData::Url => Some(DataTypeFormat::Url),
            TypedData::Uuid => Some(DataTypeFormat::Uuid),
            TypedData::IpAddr => Some(DataTypeFormat::Ip),
            TypedData::Ipv4Addr => Some(DataTypeFormat::IpV4),
            TypedData::Ipv6Addr => Some(DataTypeFormat::IpV6),
            _ => None,
        }
    }

    /// The greatest value of the type, for the types whose schema carries bounds.
    pub fn max(&self) -> (r: Option<u128>)
        ensures
            r == max_table(*self),
    {
        match self {
            TypedData::I8 => Some(127),
            TypedData::I16 => Some(32767),
            TypedData::I128 => Some(i128::MAX as u128),
            TypedData::U8 => Some(255),
            TypedData::U16 => Some(65535),
            TypedData::U128 => Some(u128::MAX),
            _ => None,
        }
    }

    /// The least value of the type, for the types whose schema carries bounds.
    pub fn min(&self) -> (r: Option<i128>)
        ensures
            r == min_table(*self),
    {
        match self {
            TypedData::I8 => Some(-128),
            TypedData::I16 => Some(-32768),
            TypedData::I128 => Some(i128::MIN),
            TypedData::U8 | TypedData::U16 | TypedData::U128 => Some(0),
            _ => None,
        }
    }
}

} // verus!
