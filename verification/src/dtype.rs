//! The element types that the reader hands out.

use vstd::prelude::*;
use crate::error::{Fault, ParseError};
use crate::parse::header::{DataType, DataTypeView, DatatypeClass};

verus! {

/// The type of the elements of a dataset or of an attribute.
#[derive(Clone, Copy, Debug, PartialEq, Eq, Structural)]
pub enum Hdf5Dtype {
    F64,
    F32,
    I64,
    I32,
    String,
    VlenString,
    Bool,
}

/// The number by which a file names the class.
pub open spec fn class_number(class: DatatypeClass) -> u8 {
    match class {
        DatatypeClass::FixedPoint => 0,
        DatatypeClass::FloatingPoint => 1,
        DatatypeClass::Time => 2,
        DatatypeClass::String => 3,
        DatatypeClass::Bitfield => 4,
        DatatypeClass::Opaque => 5,
        DatatypeClass::Compound => 6,
        DatatypeClass::Reference => 7,
        DatatypeClass::Enumerated => 8,
        DatatypeClass::VariableLength { .. } => 9,
        DatatypeClass::Array => 10,
    }
}

/// The element type that a datatype of the class `class` with elements of
/// `size` bytes stands for, if it is one that is read: integers of four and
/// of eight bytes, floating-point numbers of four and of eight bytes,
/// strings of a fixed length, enumerations of one byte as truth values, and
/// variable-length types of the type 1 without padding as strings.
pub open spec fn element_type(class: DatatypeClass, size: u32) -> Option<Hdf5Dtype> {
    match class {
        DatatypeClass::FixedPoint => if size == 4 {
            Some(Hdf5Dtype::I32)
        } else if size == 8 {
            Some(Hdf5Dtype::I64)
        } else {
            None
        },
        DatatypeClass::FloatingPoint => if size == 8 {
            Some(Hdf5Dtype::F64)
        } else if size == 4 {
            Some(Hdf5Dtype::F32)
        } else {
            None
        },
        DatatypeClass::String => Some(Hdf5Dtype::String),
        DatatypeClass::Enumerated => if size == 1 {
            Some(Hdf5Dtype::Bool)
        } else {
            None
        },
        DatatypeClass::VariableLength { ty, padding, character_set } => if ty == 1 && padding
            == 0 {
            Some(Hdf5Dtype::VlenString)
        } else {
            None
        },
        _ => None,
    }
}

/// What [`Hdf5Dtype::from`] makes of a datatype.
pub open spec fn spec_dtype(raw: DataTypeView) -> Result<Hdf5Dtype, Fault> {
    match element_type(raw.class, raw.size) {
        Some(dtype) => Ok(dtype),
        None => Err(
            Fault::UnsupportedDatatype {
                class: class_number(raw.class),
                size: raw.size,
                bitfields: raw.class_bitfields,
            },
        ),
    }
}

impl Hdf5Dtype {
    /// The name of the element type.
    pub open spec fn spec_name(self) -> Seq<char> {
        match self {
            Hdf5Dtype::F64 => "F64"@,
            Hdf5Dtype::F32 => "F32"@,
            Hdf5Dtype::I64 => "I64"@,
            Hdf5Dtype::I32 => "I32"@,
            Hdf5Dtype::String => "String"@,
            Hdf5Dtype::VlenString => "VlenString"@,
            Hdf5Dtype::Bool => "Bool"@,
        }
    }

    /// The name of the element type.
    pub fn name(self) -> (r: &'static str)
        ensures
            r@ == self.spec_name(),
    {
        match self {
            Hdf5Dtype::F64 => "F64",
            Hdf5Dtype::F32 => "F32",
            Hdf5Dtype::I64 => "I64",
            Hdf5Dtype::I32 => "I32",
            Hdf5Dtype::String => "String",
            Hdf5Dtype::VlenString => "VlenString",
            Hdf5Dtype::Bool => "Bool",
        }
    }

    /// The element type that the datatype `raw` stands for; a datatype that
    /// is not read is a fault that names its class, its size and its class
    /// bits.
    pub fn from(raw: DataType) -> (r: Result<Hdf5Dtype, ParseError>)
        ensures
            match r {
                Ok(dtype) => spec_dtype(raw@) == Ok::<Hdf5Dtype, Fault>(dtype),
                Err(e) => spec_dtype(raw@) == Err::<Hdf5Dtype, Fault>(e@),
            },
    {
        let found = match raw.class {
            DatatypeClass::FixedPoint => if raw.size == 4 {
                Some(Hdf5Dtype::I32)
            } else if raw.size == 8 {
                Some(Hdf5Dtype::I64)
            } else {
                None
            },
            DatatypeClass::FloatingPoint => if raw.size == 8 {
                Some(Hdf5Dtype::F64)
            } else if raw.size == 4 {
                Some(Hdf5Dtype::F32)
            } else {
                None
            },
            DatatypeClass::String => Some(Hdf5Dtype::String),
            DatatypeClass::Enumerated => if raw.size == 1 {
                Some(Hdf5Dtype::Bool)
            } else {
                None
            },
            DatatypeClass::VariableLength { ty, padding, character_set } => if ty == 1 && padding
                == 0 {
                Some(Hdf5Dtype::VlenString)
            } else {
                None
            },
            _ => None,
        };
        match found {
            Some(dtype) => Ok(dtype),
            None => Err(
                ParseError::UnsupportedDatatype {
                    class: Hdf5Dtype::class_number(raw.class),
                    size: raw.size,
                    bitfields: raw.class_bitfields,
                },
            ),
        }
    }

    /// The number by which a file names the class.
    pub fn class_number(class: DatatypeClass) -> (n: u8)
        ensures
            n == class_number(class),
    {
        match class {
            DatatypeClass::FixedPoint => 0,
            DatatypeClass::FloatingPoint => 1,
            DatatypeClass::Time => 2,
            DatatypeClass::String => 3,
            DatatypeClass::Bitfield => 4,
            DatatypeClass::Opaque => 5,
            DatatypeClass::Compound => 6,
            DatatypeClass::Reference => 7,
            DatatypeClass::Enumerated => 8,
            DatatypeClass::VariableLength { .. } => 9,
            DatatypeClass::Array => 10,
        }
    }
}

} // verus!
