//! Typed metadata values of GGUF files.
//!
//! Floating-point values are held as their IEEE-754 bit patterns.

use vstd::prelude::*;
use crate::gguf::error::{Error, ErrorView};

verus! {

/// Metadata value types in GGUF
#[derive(Debug, Clone, Copy, PartialEq, Eq, Structural)]
pub enum MetadataValueType {
    UInt8,
    Int8,
    UInt16,
    Int16,
    UInt32,
    Int32,
    Float32,
    Bool,
    String,
    Array,
    UInt64,
    Int64,
    Float64,
}

impl MetadataValueType {
    pub open spec fn spec_as_u32(self) -> u32 {
        match self {
            MetadataValueType::UInt8 => 0,
            MetadataValueType::Int8 => 1,
            MetadataValueType::UInt16 => 2,
            MetadataValueType::Int16 => 3,
            MetadataValueType::UInt32 => 4,
            MetadataValueType::Int32 => 5,
            MetadataValueType::Float32 => 6,
            MetadataValueType::Bool => 7,
            MetadataValueType::String => 8,
            MetadataValueType::Array => 9,
            MetadataValueType::UInt64 => 10,
            MetadataValueType::Int64 => 11,
            MetadataValueType::Float64 => 12,
        }
    }

    pub open spec fn spec_from_u32(v: u32) -> Option<MetadataValueType> {
        if v == 0 {
            Some(MetadataValueType::UInt8)
        } else if v == 1 {
            Some(MetadataValueType::Int8)
        } else if v == 2 {
            Some(MetadataValueType::UInt16)
        } else if v == 3 {
            Some(MetadataValueType::Int16)
        } else if v == 4 {
            Some(MetadataValueType::UInt32)
        } else if v == 5 {
            Some(MetadataValueType::Int32)
        } else if v == 6 {
            Some(MetadataValueType::Float32)
        } else if v == 7 {
            Some(MetadataValueType::Bool)
        } else if v == 8 {
            Some(MetadataValueType::String)
        } else if v == 9 {
            Some(MetadataValueType::Array)
        } else if v == 10 {
            Some(MetadataValueType::UInt64)
        } else if v == 11 {
            Some(MetadataValueType::Int64)
        } else if v == 12 {
            Some(MetadataValueType::Float64)
        } else {
            None
        }
    }

    /// The name of the type, as `{:?}` prints it.
    pub open spec fn spec_name(self) -> Seq<char> {
        match self {
            MetadataValueType::UInt8 => "UInt8"@,
            MetadataValueType::Int8 => "Int8"@,
            MetadataValueType::UInt16 => "UInt16"@,
            MetadataValueType::Int16 => "Int16"@,
            MetadataValueType::UInt32 => "UInt32"@,
            MetadataValueType::Int32 => "Int32"@,
            MetadataValueType::Float32 => "Float32"@,
            MetadataValueType::Bool => "Bool"@,
            MetadataValueType::String => "String"@,
            MetadataValueType::Array => "Array"@,
            MetadataValueType::UInt64 => "UInt64"@,
            MetadataValueType::Int64 => "Int64"@,
            MetadataValueType::Float64 => "Float64"@,
        }
    }

    pub fn from_u32(v: u32) -> (r: Result<Self, Error>)
        ensures
            match Self::spec_from_u32(v) {
                Some(t) => r == Ok::<Self, Error>(t),
                None => r matches Err(e) && e@ == ErrorView::InvalidMetadataType(v),
            },
    {
        match v {
            0 => Ok(Self::UInt8),
            1 => Ok(Self::Int8),
            2 => Ok(Self::UInt16),
            3 => Ok(Self::Int16),
            4 => Ok(Self::UInt32),
            5 => Ok(Self::Int32),
            6 => Ok(Self::Float32),
            7 => Ok(Self::Bool),
            8 => Ok(Self::String),
            9 => Ok(Self::Array),
            10 => Ok(Self::UInt64),
            11 => Ok(Self::Int64),
            12 => Ok(Self::Float64),
            _ => Err(Error::InvalidMetadataType(v)),
        }
    }

    pub fn as_u32(self) -> (r: u32)
        ensures
            r == self.spec_as_u32(),
            Self::spec_from_u32(r) == Some(self),
    {
        match self {
            Self::UInt8 => 0,
            Self::Int8 => 1,
            Self::UInt16 => 2,
            Self::Int16 => 3,
            Self::UInt32 => 4,
            Self::Int32 => 5,
            Self::Float32 => 6,
            Self::Bool => 7,
            Self::String => 8,
            Self::Array => 9,
            Self::UInt64 => 10,
            Self::Int64 => 11,
            Self::Float64 => 12,
        }
    }

    /// The name of the type, as `{:?}` prints it
    pub fn name(self) -> (r: &'static str)
        ensures
            r@ == self.spec_name(),
    {
        match self {
            Self::UInt8 => "UInt8",
            Self::Int8 => "Int8",
            Self::UInt16 => "UInt16",
            Self::Int16 => "Int16",
            Self::UInt32 => "UInt32",
            Self::Int32 => "Int32",
            Self::Float32 => "Float32",
            Self::Bool => "Bool",
            Self::String => "String",
            Self::Array => "Array",
            Self::UInt64 => "UInt64",
            Self::Int64 => "Int64",
            Self::Float64 => "Float64",
        }
    }
}

/// Metadata value in GGUF
#[derive(Debug)]
pub enum MetadataValue {
    UInt8(u8),
    Int8(i8),
    UInt16(u16),
    Int16(i16),
    UInt32(u32),
    Int32(i32),
    Float32(u32),
    Bool(bool),
    String(String),
    Array(MetadataArray),
    UInt64(u64),
    Int64(i64),
    Float64(u64),
}

#[derive(Debug)]
pub struct MetadataArray {
    pub value_type: MetadataValueType,
    pub values: Vec<MetadataValue>,
}

/// A metadata value with its strings as character sequences. The elements
/// of an array are seen one level deep: an array inside an array shows
/// its element type only.
pub enum MetaView {
    UInt8(u8),
    Int8(i8),
    UInt16(u16),
    Int16(i16),
    UInt32(u32),
    Int32(i32),
    Float32(u32),
    Bool(bool),
    String(Seq<char>),
    Array(MetadataValueType, Seq<MetaView>),
    UInt64(u64),
    Int64(i64),
    Float64(u64),
}

impl MetaView {
    pub open spec fn value_type(self) -> MetadataValueType {
        match self {
            MetaView::UInt8(..) => MetadataValueType::UInt8,
            MetaView::Int8(..) => MetadataValueType::Int8,
            MetaView::UInt16(..) => MetadataValueType::UInt16,
            MetaView::Int16(..) => MetadataValueType::Int16,
            MetaView::UInt32(..) => MetadataValueType::UInt32,
            MetaView::Int32(..) => MetadataValueType::Int32,
            MetaView::Float32(..) => MetadataValueType::Float32,
            MetaView::Bool(..) => MetadataValueType::Bool,
            MetaView::String(..) => MetadataValueType::String,
            MetaView::Array(..) => MetadataValueType::Array,
            MetaView::UInt64(..) => MetadataValueType::UInt64,
            MetaView::Int64(..) => MetadataValueType::Int64,
            MetaView::Float64(..) => MetadataValueType::Float64,
        }
    }
}

/// The view of a value, arrays shown without their elements.
pub open spec fn shallow_view(v: MetadataValue) -> MetaView {
    match v {
        MetadataValue::UInt8(x) => MetaView::UInt8(x),
        MetadataValue::Int8(x) => MetaView::Int8(x),
        MetadataValue::UInt16(x) => MetaView::UInt16(x),
        MetadataValue::Int16(x) => MetaView::Int16(x),
        MetadataValue::UInt32(x) => MetaView::UInt32(x),
        MetadataValue::Int32(x) => MetaView::Int32(x),
        MetadataValue::Float32(x) => MetaView::Float32(x),
        MetadataValue::Bool(x) => MetaView::Bool(x),
        MetadataValue::String(s) => MetaView::String(s@),
        MetadataValue::Array(a) => MetaView::Array(a.value_type, Seq::empty()),
        MetadataValue::UInt64(x) => MetaView::UInt64(x),
        MetadataValue::Int64(x) => MetaView::Int64(x),
        MetadataValue::Float64(x) => MetaView::Float64(x),
    }
}

impl View for MetadataValue {
    type V = MetaView;

    open spec fn view(&self) -> MetaView {
        match self {
            MetadataValue::Array(a) => MetaView::Array(
                a.value_type,
                a.values@.map_values(|e: MetadataValue| shallow_view(e)),
            ),
            _ => shallow_view(*self),
        }
    }
}

pub open spec fn mismatch(expected: Seq<char>, v: MetadataValue) -> ErrorView {
    ErrorView::MetadataTypeMismatch { expected, got: v@.value_type().spec_name() }
}

fn mismatch_error(expected: &str, v: &MetadataValue) -> (e: Error)
    ensures
        e@ == mismatch(expected@, *v),
{
    Error::MetadataTypeMismatch {
        expected: String::from_str(expected),
        got: String::from_str(v.value_type().name()),
    }
}

impl MetadataValue {
    pub fn value_type(&self) -> (r: MetadataValueType)
        ensures
            r == self@.value_type(),
    {
        match self {
            Self::UInt8(_) => MetadataValueType::UInt8,
            Self::Int8(_) => MetadataValueType::Int8,
            Self::UInt16(_) => MetadataValueType::UInt16,
            Self::Int16(_) => MetadataValueType::Int16,
            Self::UInt32(_) => MetadataValueType::UInt32,
            Self::Int32(_) => MetadataValueType::Int32,
            Self::Float32(_) => MetadataValueType::Float32,
            Self::Bool(_) => MetadataValueType::Bool,
            Self::String(_) => MetadataValueType::String,
            Self::Array(_) => MetadataValueType::Array,
            Self::UInt64(_) => MetadataValueType::UInt64,
            Self::Int64(_) => MetadataValueType::Int64,
            Self::Float64(_) => MetadataValueType::Float64,
        }
    }

    pub fn as_u8(&self) -> (r: Result<u8, Error>)
        ensures
            match self@ {
                MetaView::UInt8(x) => r == Ok::<u8, Error>(x),
                _ => r matches Err(e) && e@ == mismatch("UInt8"@, *self),
            },
    {
        match self {
            Self::UInt8(v) => Ok(*v),
            _ => Err(mismatch_error("UInt8", self)),
        }
    }

    pub fn as_i8(&self) -> (r: Result<i8, Error>)
        ensures
            match self@ {
                MetaView::Int8(x) => r == Ok::<i8, Error>(x),
                _ => r matches Err(e) && e@ == mismatch("Int8"@, *self),
            },
    {
        match self {
            Self::Int8(v) => Ok(*v),
            _ => Err(mismatch_error("Int8", self)),
        }
    }

    pub fn as_u16(&self) -> (r: Result<u16, Error>)
        ensures
            match self@ {
                MetaView::UInt16(x) => r == Ok::<u16, Error>(x),
                _ => r matches Err(e) && e@ == mismatch("UInt16"@, *self),
            },
    {
        match self {
            Self::UInt16(v) => Ok(*v),
            _ => Err(mismatch_error("UInt16", self)),
        }
    }

    pub fn as_i16(&self) -> (r: Result<i16, Error>)
        ensures
            match self@ {
                MetaView::Int16(x) => r == Ok::<i16, Error>(x),
                _ => r matches Err(e) && e@ == mismatch("Int16"@, *self),
            },
    {
        match self {
            Self::Int16(v) => Ok(*v),
            _ => Err(mismatch_error("Int16", self)),
        }
    }

    pub fn as_u32(&self) -> (r: Result<u32, Error>)
        ensures
            match self@ {
                MetaView::UInt32(x) => r == Ok::<u32, Error>(x),
                _ => r matches Err(e) && e@ == mismatch("UInt32"@, *self),
            },
    {
        match self {
            Self::UInt32(v) => Ok(*v),
            _ => Err(mismatch_error("UInt32", self)),
        }
    }

    pub fn as_i32(&self) -> (r: Result<i32, Error>)
        ensures
            match self@ {
                MetaView::Int32(x) => r == Ok::<i32, Error>(x),
                _ => r matches Err(e) && e@ == mismatch("Int32"@, *self),
            },
    {
        match self {
            Self::Int32(v) => Ok(*v),
            _ => Err(mismatch_error("Int32", self)),
        }
    }

    pub fn as_u64(&self) -> (r: Result<u64, Error>)
        ensures
            match self@ {
                MetaView::UInt64(x) => r == Ok::<u64, Error>(x),
                _ => r matches Err(e) && e@ == mismatch("UInt64"@, *self),
            },
    {
        match self {
            Self::UInt64(v) => Ok(*v),
            _ => Err(mismatch_error("UInt64", self)),
        }
    }

    pub fn as_i64(&self) -> (r: Result<i64, Error>)
        ensures
            match self@ {
                MetaView::Int64(x) => r == Ok::<i64, Error>(x),
                _ => r matches Err(e) && e@ == mismatch("Int64"@, *self),
            },
    {
        match self {
            Self::Int64(v) => Ok(*v),
            _ => Err(mismatch_error("Int64", self)),
        }
    }

    /// The bit pattern of a single-precision value
    pub fn as_f32_bits(&self) -> (r: Result<u32, Error>)
        ensures
            match self@ {
                MetaView::Float32(x) => r == Ok::<u32, Error>(x),
                _ => r matches Err(e) && e@ == mismatch("Float32"@, *self),
            },
    {
        match self {
            Self::Float32(v) => Ok(*v),
            _ => Err(mismatch_error("Float32", self)),
        }
    }

    /// The bit pattern of a double-precision value
    pub fn as_f64_bits(&self) -> (r: Result<u64, Error>)
        ensures
            match self@ {
                MetaView::Float64(x) => r == Ok::<u64, Error>(x),
                _ => r matches Err(e) && e@ == mismatch("Float64"@, *self),
            },
    {
        match self {
            Self::Float64(v) => Ok(*v),
            _ => Err(mismatch_error("Float64", self)),
        }
    }

    pub fn as_bool(&self) -> (r: Result<bool, Error>)
        ensures
            match self@ {
                MetaView::Bool(x) => r == Ok::<bool, Error>(x),
                _ => r matches Err(e) && e@ == mismatch("Bool"@, *self),
            },
    {
        match self {
            Self::Bool(v) => Ok(*v),
            _ => Err(mismatch_error("Bool", self)),
        }
    }

    pub fn as_string(&self) -> (r: Result<&str, Error>)
        ensures
            match self@ {
                MetaView::String(s) => r matches Ok(x) && x@ == s,
                _ => r matches Err(e) && e@ == mismatch("String"@, *self),
            },
    {
        match self {
            Self::String(v) => Ok(v.as_str()),
            _ => Err(mismatch_error("String", self)),
        }
    }

    pub fn as_array(&self) -> (r: Result<&MetadataArray, Error>)
        ensures
            match *self {
                MetadataValue::Array(a) => r matches Ok(x) && *x == a,
                _ => r matches Err(e) && e@ == mismatch("Array"@, *self),
            },
    {
        match self {
            Self::Array(v) => Ok(v),
            _ => Err(mismatch_error("Array", self)),
        }
    }
}

} // verus!
