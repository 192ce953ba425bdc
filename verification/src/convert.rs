//! The values that the bytes of an element stand for.

use vstd::prelude::*;
use crate::dtype::Hdf5Dtype;
use crate::error::{Context, Fault, ParseError};
use crate::file::Hdf5File;
use crate::index::{from_address, spec_from};
use crate::parse::{global_heap_nth_item, spec_global_heap_nth_item};
use crate::private::Sealed;
use crate::text::{decode_lossy, name, spec_name, utf8_lossy};
use crate::wire::{u32_at, u64_at, u16_at, Reader, Scan};

verus! {

/// A floating-point number of four bytes, by its bits.
#[derive(Clone, Copy, Debug, PartialEq, Eq, Structural)]
pub struct Binary32 {
    pub bits: u32,
}

/// A floating-point number of eight bytes, by its bits.
#[derive(Clone, Copy, Debug, PartialEq, Eq, Structural)]
pub struct Binary64 {
    pub bits: u64,
}

impl View for Binary32 {
    type V = Binary32;

    open spec fn view(&self) -> Binary32 {
        *self
    }
}

impl View for Binary64 {
    type V = Binary64;

    open spec fn view(&self) -> Binary64 {
        *self
    }
}

/// Identifies the types that this library can produce from the elements of
/// a file.
pub trait FromHdf5: Sealed + View + Sized {
    /// Whether elements of the type `dtype` can be read as this type.
    spec fn accepts(dtype: Hdf5Dtype) -> bool;

    /// The element type that is named where another was found.
    spec fn wanted() -> Hdf5Dtype;

    /// The value that the bytes `data` of an element of the type `dtype`
    /// stand for, for a type that is accepted. `contents` is the file, in
    /// which a string of variable length lies.
    spec fn decoded(contents: Seq<u8>, dtype: Hdf5Dtype, data: Seq<u8>) -> Result<Self::V, Fault>;

    /// The element types that can be read as this type; the first is the
    /// one that is named where another was found.
    fn from_types() -> (r: Vec<Hdf5Dtype>)
        ensures
            r@.len() > 0,
            r@[0] == Self::wanted(),
            forall|dtype: Hdf5Dtype| r@.contains(dtype) <==> Self::accepts(dtype),
    ;

    /// Reads the bytes `data` of one element of the type `dtype`.
    fn convert(file: &Hdf5File, dtype: Hdf5Dtype, data: &[u8]) -> (r: Result<Self, ParseError>)
        ensures
            match r {
                Ok(value) => Self::accepts(dtype) && Self::decoded(file.contents(), dtype, data@)
                    == Ok::<Self::V, Fault>(value@),
                Err(e) => if Self::accepts(dtype) {
                    Self::decoded(file.contents(), dtype, data@) == Err::<Self::V, Fault>(e@)
                } else {
                    e@ == (Fault::TypeMismatch { want: Self::wanted(), got: dtype })
                },
            },
    ;
}

/// What [`FromHdf5::convert`] makes of the bytes of an element: its value
/// where the type is accepted, else the mismatch of the two types.
pub open spec fn spec_convert<T: FromHdf5>(contents: Seq<u8>, dtype: Hdf5Dtype, data: Seq<u8>) -> Result<
    T::V,
    Fault,
> {
    if T::accepts(dtype) {
        T::decoded(contents, dtype, data)
    } else {
        Err(Fault::TypeMismatch { want: T::wanted(), got: dtype })
    }
}

/// The four bytes at the start of an element, read lowest byte first.
pub open spec fn decoded_bits32(data: Seq<u8>) -> Result<u32, Fault> {
    match Scan::start(data, Context::Element).bytes(4).fault {
        Some(fault) => Err(fault),
        None => Ok(u32_at(data, 0) as u32),
    }
}

/// The eight bytes at the start of an element, read lowest byte first.
pub open spec fn decoded_bits64(data: Seq<u8>) -> Result<u64, Fault> {
    match Scan::start(data, Context::Element).bytes(8).fault {
        Some(fault) => Err(fault),
        None => Ok(u64_at(data, 0) as u64),
    }
}

/// Reads the four bytes at the start of an element.
pub fn bits32(data: &[u8]) -> (r: Result<u32, ParseError>)
    ensures
        match r {
            Ok(bits) => decoded_bits32(data@) == Ok::<u32, Fault>(bits),
            Err(e) => decoded_bits32(data@) == Err::<u32, Fault>(e@),
        },
{
    let mut rd = Reader::new(data, Context::Element);
    rd.le_u32()
}

/// Reads the eight bytes at the start of an element.
pub fn bits64(data: &[u8]) -> (r: Result<u64, ParseError>)
    ensures
        match r {
            Ok(bits) => decoded_bits64(data@) == Ok::<u64, Fault>(bits),
            Err(e) => decoded_bits64(data@) == Err::<u64, Fault>(e@),
        },
{
    let mut rd = Reader::new(data, Context::Element);
    rd.le_u64()
}

impl FromHdf5 for i32 {
    open spec fn accepts(dtype: Hdf5Dtype) -> bool {
        dtype == Hdf5Dtype::I32
    }

    open spec fn wanted() -> Hdf5Dtype {
        Hdf5Dtype::I32
    }

    /// The four bytes as a number in two's complement.
    open spec fn decoded(contents: Seq<u8>, dtype: Hdf5Dtype, data: Seq<u8>) -> Result<i32, Fault> {
        match decoded_bits32(data) {
            Ok(bits) => Ok(bits as i32),
            Err(fault) => Err(fault),
        }
    }

    fn from_types() -> (r: Vec<Hdf5Dtype>) {
        let r = vec![Hdf5Dtype::I32];
        assert(r@[0] == Hdf5Dtype::I32);
        r
    }

    fn convert(file: &Hdf5File, dtype: Hdf5Dtype, data: &[u8]) -> (r: Result<i32, ParseError>) {
        if dtype != Hdf5Dtype::I32 {
            return Err(ParseError::TypeMismatch { want: Hdf5Dtype::I32, got: dtype });
        }
        let bits = bits32(data)?;
        Ok(bits as i32)
    }
}

impl FromHdf5 for i64 {
    open spec fn accepts(dtype: Hdf5Dtype) -> bool {
        dtype == Hdf5Dtype::I64
    }

    open spec fn wanted() -> Hdf5Dtype {
        Hdf5Dtype::I64
    }

    /// The eight bytes as a number in two's complement.
    open spec fn decoded(contents: Seq<u8>, dtype: Hdf5Dtype, data: Seq<u8>) -> Result<i64, Fault> {
        match decoded_bits64(data) {
            Ok(bits) => Ok(bits as i64),
            Err(fault) => Err(fault),
        }
    }

    fn from_types() -> (r: Vec<Hdf5Dtype>) {
        let r = vec![Hdf5Dtype::I64];
        assert(r@[0] == Hdf5Dtype::I64);
        r
    }

    fn convert(file: &Hdf5File, dtype: Hdf5Dtype, data: &[u8]) -> (r: Result<i64, ParseError>) {
        if dtype != Hdf5Dtype::I64 {
            return Err(ParseError::TypeMismatch { want: Hdf5Dtype::I64, got: dtype });
        }
        let bits = bits64(data)?;
        Ok(bits as i64)
    }
}

impl FromHdf5 for Binary32 {
    open spec fn accepts(dtype: Hdf5Dtype) -> bool {
        dtype == Hdf5Dtype::F32
    }

    open spec fn wanted() -> Hdf5Dtype {
        Hdf5Dtype::F32
    }

    open spec fn decoded(contents: Seq<u8>, dtype: Hdf5Dtype, data: Seq<u8>) -> Result<
        Binary32,
        Fault,
    > {
        match decoded_bits32(data) {
            Ok(bits) => Ok(Binary32 { bits }),
            Err(fault) => Err(fault),
        }
    }

    fn from_types() -> (r: Vec<Hdf5Dtype>) {
        let r = vec![Hdf5Dtype::F32];
        assert(r@[0] == Hdf5Dtype::F32);
        r
    }

    fn convert(file: &Hdf5File, dtype: Hdf5Dtype, data: &[u8]) -> (r: Result<Binary32, ParseError>) {
        if dtype != Hdf5Dtype::F32 {
            return Err(ParseError::TypeMismatch { want: Hdf5Dtype::F32, got: dtype });
        }
        let bits = bits32(data)?;
        Ok(Binary32 { bits })
    }
}

impl FromHdf5 for Binary64 {
    open spec fn accepts(dtype: Hdf5Dtype) -> bool {
        dtype == Hdf5Dtype::F64
    }

    open spec fn wanted() -> Hdf5Dtype {
        Hdf5Dtype::F64
    }

    open spec fn decoded(contents: Seq<u8>, dtype: Hdf5Dtype, data: Seq<u8>) -> Result<
        Binary64,
        Fault,
    > {
        match decoded_bits64(data) {
            Ok(bits) => Ok(Binary64 { bits }),
            Err(fault) => Err(fault),
        }
    }

    fn from_types() -> (r: Vec<Hdf5Dtype>) {
        let r = vec![Hdf5Dtype::F64];
        assert(r@[0] == Hdf5Dtype::F64);
        r
    }

    fn convert(file: &Hdf5File, dtype: Hdf5Dtype, data: &[u8]) -> (r: Result<Binary64, ParseError>) {
        if dtype != Hdf5Dtype::F64 {
            return Err(ParseError::TypeMismatch { want: Hdf5Dtype::F64, got: dtype });
        }
        let bits = bits64(data)?;
        Ok(Binary64 { bits })
    }
}

impl FromHdf5 for bool {
    open spec fn accepts(dtype: Hdf5Dtype) -> bool {
        dtype == Hdf5Dtype::Bool
    }

    open spec fn wanted() -> Hdf5Dtype {
        Hdf5Dtype::Bool
    }

    /// Whether the first byte is not zero.
    open spec fn decoded(contents: Seq<u8>, dtype: Hdf5Dtype, data: Seq<u8>) -> Result<bool, Fault> {
        match Scan::start(data, Context::Element).bytes(1).fault {
            Some(fault) => Err(fault),
            None => Ok(data[0] != 0),
        }
    }

    fn from_types() -> (r: Vec<Hdf5Dtype>) {
        let r = vec![Hdf5Dtype::Bool];
        assert(r@[0] == Hdf5Dtype::Bool);
        r
    }

    fn convert(file: &Hdf5File, dtype: Hdf5Dtype, data: &[u8]) -> (r: Result<bool, ParseError>) {
        if dtype != Hdf5Dtype::Bool {
            return Err(ParseError::TypeMismatch { want: Hdf5Dtype::Bool, got: dtype });
        }
        let mut rd = Reader::new(data, Context::Element);
        let byte = rd.le_u8()?;
        Ok(byte != 0)
    }
}

/// How a string of variable length is named in an element: four bytes, the
/// address of a global heap collection and the index of an object in it.
pub open spec fn vlen_layout(data: Seq<u8>) -> Scan {
    Scan::start(data, Context::Element).bytes(4).bytes(8).bytes(2)
}

/// The text of a string of variable length: the bytes of the object that
/// the element names, read as text.
pub open spec fn decoded_vlen(contents: Seq<u8>, data: Seq<u8>) -> Result<Seq<char>, Fault> {
    match vlen_layout(data).fault {
        Some(fault) => Err(fault),
        None => match spec_global_heap_nth_item(
            spec_from(contents, u64_at(data, 4) as u64),
            u16_at(data, 12) as u16,
        ) {
            Err(fault) => Err(fault),
            Ok((_, bytes)) => Ok(utf8_lossy(bytes)),
        },
    }
}

impl FromHdf5 for String {
    open spec fn accepts(dtype: Hdf5Dtype) -> bool {
        dtype == Hdf5Dtype::String || dtype == Hdf5Dtype::VlenString
    }

    open spec fn wanted() -> Hdf5Dtype {
        Hdf5Dtype::String
    }

    /// A string of a fixed length is the bytes before the first zero byte,
    /// read as text; one of variable length lies in a global heap.
    open spec fn decoded(contents: Seq<u8>, dtype: Hdf5Dtype, data: Seq<u8>) -> Result<
        Seq<char>,
        Fault,
    > {
        if dtype == Hdf5Dtype::String {
            Ok(spec_name(data))
        } else {
            decoded_vlen(contents, data)
        }
    }

    fn from_types() -> (r: Vec<Hdf5Dtype>) {
        let r = vec![Hdf5Dtype::String, Hdf5Dtype::VlenString];
        assert(r@[0] == Hdf5Dtype::String);
        assert(r@[1] == Hdf5Dtype::VlenString);
        r
    }

    fn convert(file: &Hdf5File, dtype: Hdf5Dtype, data: &[u8]) -> (r: Result<String, ParseError>) {
        if dtype == Hdf5Dtype::String {
            Ok(name(data))
        } else if dtype == Hdf5Dtype::VlenString {
            let mut rd = Reader::new(data, Context::Element);
            let _ = rd.take(4)?;
            let heap_address = rd.le_u64()?;
            let heap_index = rd.le_u16()?;
            let heap = from_address(file.bytes(), heap_address);
            let (_, object) = global_heap_nth_item(heap, heap_index)?;
            Ok(decode_lossy(object))
        } else {
            Err(ParseError::TypeMismatch { want: Hdf5Dtype::String, got: dtype })
        }
    }
}

} // verus!
