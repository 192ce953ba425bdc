//! The parsers of the messages of an object header.

use vstd::prelude::*;
use vstd::slice::{slice_subrange, slice_to_vec};
use crate::error::{Context, Fault, ParseError};
use crate::parse::header::{
    Attribute, AttributeView, DataLayout, DataStorageFillValue, DataStorageFillValueView, DataType,
    DataTypeView, Dataspace, DataspaceView, DatatypeClass, Message, MessageView,
    ObjectHeaderContinuation, ObjectModificationTime, SymbolTable,
};
use crate::parse::{ZERO1, ZERO3};
use crate::text::{name, spec_name};
use crate::wire::{
    agrees, agrees_view, outcome, pad8, spec_pad8, u16_at, u24_at, u32_at, u64_at, u64s_at, Parsed,
    Reader, Scan,
};

verus! {

/// How a dataspace message is laid out: the version, which must be 1, the
/// number of dimensions, the flags, five unused bytes, the dimensions and,
/// where the flags are 1, as many maximum dimensions.
pub open spec fn dataspace_layout(input: Seq<u8>) -> Scan {
    let dimensions = Scan::start(input, Context::Dataspace).bytes(1).require(
        input[0] == 1,
        Fault::UnsupportedVersion { context: Context::Dataspace, version: input[0] },
    ).bytes(1).bytes(1).bytes(5).fields(input[1] as int, 8);
    if input[2] == 1 {
        dimensions.fields(input[1] as int, 8)
    } else {
        dimensions
    }
}

/// What [`dataspace`] makes of `input`.
pub open spec fn spec_dataspace(input: Seq<u8>) -> Parsed<DataspaceView> {
    outcome(
        dataspace_layout(input),
        DataspaceView {
            dimensionality: input[1],
            flags: input[2],
            dimensions: u64s_at(input, 8, input[1] as nat),
            max_dimensions: if input[2] == 1 {
                Some(u64s_at(input, 8 + 8 * input[1], input[1] as nat))
            } else {
                None
            },
        },
    )
}

/// Parses a dataspace message of version 1.
pub fn dataspace(input: &[u8]) -> (r: Result<(&[u8], Dataspace), ParseError>)
    ensures
        agrees_view(r, input@, spec_dataspace(input@)),
{
    let mut rd = Reader::new(input, Context::Dataspace);
    let version = rd.le_u8()?;
    if version != 1 {
        return Err(ParseError::UnsupportedVersion { context: Context::Dataspace, version });
    }
    let dimensionality = rd.le_u8()?;
    let flags = rd.le_u8()?;
    let _ = rd.take(5)?;
    let dimensions = rd.le_u64s(dimensionality as usize)?;
    let max_dimensions = if flags == 1 {
        Some(rd.le_u64s(dimensionality as usize)?)
    } else {
        None
    };
    Ok((rd.rest(), Dataspace { dimensionality, flags, dimensions, max_dimensions }))
}

/// The class that the number `raw` stands for, for a number up to 10. For a
/// variable-length type the three lowest bits of `bitfields` are its type,
/// the three after them its padding, and the bits 8 to 10 its character
/// set.
pub open spec fn class_of(raw: u8, bitfields: u32) -> DatatypeClass {
    if raw == 0 {
        DatatypeClass::FixedPoint
    } else if raw == 1 {
        DatatypeClass::FloatingPoint
    } else if raw == 2 {
        DatatypeClass::Time
    } else if raw == 3 {
        DatatypeClass::String
    } else if raw == 4 {
        DatatypeClass::Bitfield
    } else if raw == 5 {
        DatatypeClass::Opaque
    } else if raw == 6 {
        DatatypeClass::Compound
    } else if raw == 7 {
        DatatypeClass::Reference
    } else if raw == 8 {
        DatatypeClass::Enumerated
    } else if raw == 9 {
        DatatypeClass::VariableLength {
            ty: (bitfields & 7) as u8,
            padding: ((bitfields >> 3) & 7) as u8,
            character_set: ((bitfields >> 8) & 7) as u8,
        }
    } else {
        DatatypeClass::Array
    }
}

/// The number of a class, which is the low half of the first byte.
pub open spec fn raw_class(first: u8) -> u8 {
    first & 0x0f
}

/// How a datatype message of `message_size` bytes is laid out: the version
/// and the class in one byte, three bytes of class bits, the size of an
/// element, and the properties, which fill the message. The message has
/// eight bytes at least, and the class is one of the eleven known.
pub open spec fn datatype_layout(input: Seq<u8>, message_size: u16) -> Scan {
    Scan::start(input, Context::Datatype).require(
        message_size >= 8,
        Fault::Truncated { context: Context::Datatype, need: 8 },
    ).bytes(1).require(
        raw_class(input[0]) <= 10,
        Fault::UnsupportedVariant {
            context: Context::Datatype,
            value: raw_class(input[0]) as u64,
        },
    ).bytes(3).bytes(4).bytes(message_size - 8)
}

/// What [`datatype`] makes of `input`.
pub open spec fn spec_datatype(input: Seq<u8>, message_size: u16) -> Parsed<DataTypeView> {
    outcome(
        datatype_layout(input, message_size),
        DataTypeView {
            version: input[0] >> 4,
            class: class_of(raw_class(input[0]), u24_at(input, 1) as u32),
            class_bitfields: u24_at(input, 1) as u32,
            size: u32_at(input, 4) as u32,
            properties: input.subrange(8, message_size as int),
        },
    )
}

/// Parses a datatype message of `message_size` bytes.
pub fn datatype(input: &[u8], message_size: u16) -> (r: Result<(&[u8], DataType), ParseError>)
    ensures
        agrees_view(r, input@, spec_datatype(input@, message_size)),
{
    let mut rd = Reader::new(input, Context::Datatype);
    if message_size < 8 {
        return Err(ParseError::Truncated { context: Context::Datatype, need: 8 });
    }
    let class_and_version = rd.le_u8()?;
    let version = class_and_version >> 4;
    let raw = class_and_version & 0x0f;
    if raw > 10 {
        return Err(ParseError::UnsupportedVariant { context: Context::Datatype, value: raw as u64 });
    }
    let class_bitfields = rd.le_u24()?;
    let size = rd.le_u32()?;
    let properties = rd.take((message_size - 8) as usize)?;
    let class = if raw == 0 {
        DatatypeClass::FixedPoint
    } else if raw == 1 {
        DatatypeClass::FloatingPoint
    } else if raw == 2 {
        DatatypeClass::Time
    } else if raw == 3 {
        DatatypeClass::String
    } else if raw == 4 {
        DatatypeClass::Bitfield
    } else if raw == 5 {
        DatatypeClass::Opaque
    } else if raw == 6 {
        DatatypeClass::Compound
    } else if raw == 7 {
        DatatypeClass::Reference
    } else if raw == 8 {
        DatatypeClass::Enumerated
    } else if raw == 9 {
        let b = class_bitfields;
        assert(b & 7 <= 7 && (b >> 3) & 7 <= 7 && (b >> 8) & 7 <= 7) by (bit_vector);
        DatatypeClass::VariableLength {
            ty: (class_bitfields & 7) as u8,
            padding: ((class_bitfields >> 3) & 7) as u8,
            character_set: ((class_bitfields >> 8) & 7) as u8,
        }
    } else {
        DatatypeClass::Array
    };
    Ok(
        (
            rd.rest(),
            DataType { version, class, class_bitfields, size, properties: slice_to_vec(properties) },
        ),
    )
}

/// How a fill value message is laid out: the version, which must be 2, the
/// space allocation time, the write time, whether a value is defined, and
/// where one is, its size and its bytes.
pub open spec fn fill_value_layout(input: Seq<u8>) -> Scan {
    let head = Scan::start(input, Context::FillValue).bytes(1).require(
        input[0] == 2,
        Fault::UnsupportedVersion { context: Context::FillValue, version: input[0] },
    ).bytes(1).bytes(1).bytes(1);
    if input[3] > 0 {
        head.bytes(4).bytes(u32_at(input, 4))
    } else {
        head
    }
}

/// What [`fill_value`] makes of `input`.
pub open spec fn spec_fill_value(input: Seq<u8>) -> Parsed<DataStorageFillValueView> {
    outcome(
        fill_value_layout(input),
        DataStorageFillValueView {
            space_allocation_time: input[1],
            fill_value_write_time: input[2],
            fill_value_defined: input[3],
            size: if input[3] > 0 {
                u32_at(input, 4) as u32
            } else {
                0
            },
            fill_value: if input[3] > 0 {
                input.subrange(8, 8 + u32_at(input, 4))
            } else {
                Seq::empty()
            },
        },
    )
}

/// Parses a fill value message of version 2.
pub fn fill_value(input: &[u8]) -> (r: Result<(&[u8], DataStorageFillValue), ParseError>)
    ensures
        agrees_view(r, input@, spec_fill_value(input@)),
{
    let mut rd = Reader::new(input, Context::FillValue);
    let version = rd.le_u8()?;
    if version != 2 {
        return Err(ParseError::UnsupportedVersion { context: Context::FillValue, version });
    }
    let space_allocation_time = rd.le_u8()?;
    let fill_value_write_time = rd.le_u8()?;
    let fill_value_defined = rd.le_u8()?;
    let mut size: u32 = 0;
    let mut fill_value: Vec<u8> = Vec::new();
    if fill_value_defined > 0 {
        size = rd.le_u32()?;
        let bytes = rd.take(size as usize)?;
        fill_value = slice_to_vec(bytes);
    }
    Ok(
        (
            rd.rest(),
            DataStorageFillValue {
                space_allocation_time,
                fill_value_write_time,
                fill_value_defined,
                size,
                fill_value,
            },
        ),
    )
}

/// How a data layout message is laid out: the version, which must be 3, the
/// layout class, which must be 1 for contiguous storage, the address of
/// the data, its size and six more bytes.
pub open spec fn data_layout_layout(input: Seq<u8>) -> Scan {
    Scan::start(input, Context::DataLayout).bytes(1).require(
        input[0] == 3,
        Fault::UnsupportedVersion { context: Context::DataLayout, version: input[0] },
    ).bytes(1).require(
        input[1] == 1,
        Fault::UnsupportedVariant { context: Context::DataLayout, value: input[1] as u64 },
    ).bytes(8).bytes(8).bytes(6)
}

/// What [`data_layout`] makes of `input`.
pub open spec fn spec_data_layout(input: Seq<u8>) -> Parsed<DataLayout> {
    outcome(
        data_layout_layout(input),
        DataLayout { address: u64_at(input, 2) as u64, size: u64_at(input, 10) as u64 },
    )
}

/// Parses a data layout message of version 3 for contiguous storage.
pub fn data_layout(input: &[u8]) -> (r: Result<(&[u8], DataLayout), ParseError>)
    ensures
        agrees(r, input@, spec_data_layout(input@)),
{
    let mut rd = Reader::new(input, Context::DataLayout);
    let version = rd.le_u8()?;
    if version != 3 {
        return Err(ParseError::UnsupportedVersion { context: Context::DataLayout, version });
    }
    let layout_class = rd.le_u8()?;
    if layout_class != 1 {
        return Err(
            ParseError::UnsupportedVariant {
                context: Context::DataLayout,
                value: layout_class as u64,
            },
        );
    }
    let address = rd.le_u64()?;
    let size = rd.le_u64()?;
    let _ = rd.take(6)?;
    Ok((rd.rest(), DataLayout { address, size }))
}

/// What [`object_header_continuation`] makes of `input`: an offset and a
/// length of eight bytes each.
pub open spec fn spec_object_header_continuation(input: Seq<u8>) -> Parsed<
    ObjectHeaderContinuation,
> {
    outcome(
        Scan::start(input, Context::ObjectHeaderContinuation).bytes(8).bytes(8),
        ObjectHeaderContinuation {
            offset: u64_at(input, 0) as u64,
            length: u64_at(input, 8) as u64,
        },
    )
}

/// Parses a continuation message.
pub fn object_header_continuation(input: &[u8]) -> (r: Result<
    (&[u8], ObjectHeaderContinuation),
    ParseError,
>)
    ensures
        agrees(r, input@, spec_object_header_continuation(input@)),
{
    let mut rd = Reader::new(input, Context::ObjectHeaderContinuation);
    let offset = rd.le_u64()?;
    let length = rd.le_u64()?;
    Ok((rd.rest(), ObjectHeaderContinuation { offset, length }))
}

/// What [`symbol_table_message`] makes of `input`: the addresses of a
/// B-tree and of a local heap, of eight bytes each.
pub open spec fn spec_symbol_table_message(input: Seq<u8>) -> Parsed<SymbolTable> {
    outcome(
        Scan::start(input, Context::SymbolTableMessage).bytes(8).bytes(8),
        SymbolTable {
            btree_address: u64_at(input, 0) as u64,
            local_heap_address: u64_at(input, 8) as u64,
        },
    )
}

/// Parses a symbol table message.
pub fn symbol_table_message(input: &[u8]) -> (r: Result<(&[u8], SymbolTable), ParseError>)
    ensures
        agrees(r, input@, spec_symbol_table_message(input@)),
{
    let mut rd = Reader::new(input, Context::SymbolTableMessage);
    let btree_address = rd.le_u64()?;
    let local_heap_address = rd.le_u64()?;
    Ok((rd.rest(), SymbolTable { btree_address, local_heap_address }))
}

/// What [`object_modification_time`] makes of `input`: the version, which
/// must be 1, three reserved bytes and the seconds since 1970.
pub open spec fn spec_object_modification_time(input: Seq<u8>) -> Parsed<ObjectModificationTime> {
    outcome(
        Scan::start(input, Context::ObjectModificationTime).bytes(1).require(
            input[0] == 1,
            Fault::UnsupportedVersion {
                context: Context::ObjectModificationTime,
                version: input[0],
            },
        ).tag(ZERO3@).bytes(4),
        ObjectModificationTime { seconds_after_unix_epoch: u32_at(input, 4) as u32 },
    )
}

/// Parses a modification time message of version 1.
pub fn object_modification_time(input: &[u8]) -> (r: Result<
    (&[u8], ObjectModificationTime),
    ParseError,
>)
    ensures
        agrees(r, input@, spec_object_modification_time(input@)),
{
    let mut rd = Reader::new(input, Context::ObjectModificationTime);
    let version = rd.le_u8()?;
    if version != 1 {
        return Err(
            ParseError::UnsupportedVersion { context: Context::ObjectModificationTime, version },
        );
    }
    rd.tag(ZERO3.as_slice())?;
    let seconds_after_unix_epoch = rd.le_u32()?;
    Ok((rd.rest(), ObjectModificationTime { seconds_after_unix_epoch }))
}


/// The sizes that an attribute message states of its name, its datatype and
/// its dataspace, each rounded up to a multiple of 8: so many bytes each of
/// them takes.
pub open spec fn attribute_name_room(input: Seq<u8>) -> int {
    spec_pad8(u16_at(input, 2))
}

/// See [`attribute_name_room`].
pub open spec fn attribute_datatype_room(input: Seq<u8>) -> int {
    spec_pad8(u16_at(input, 4))
}

/// See [`attribute_name_room`].
pub open spec fn attribute_dataspace_room(input: Seq<u8>) -> int {
    spec_pad8(u16_at(input, 6))
}

/// How many bytes of an attribute message stand before its value.
pub open spec fn attribute_head(input: Seq<u8>) -> int {
    8 + attribute_name_room(input) + attribute_datatype_room(input) + attribute_dataspace_room(
        input,
    )
}

/// What the datatype inside an attribute message parses to.
pub open spec fn attribute_datatype(input: Seq<u8>) -> Parsed<DataTypeView> {
    let from = 8 + attribute_name_room(input);
    spec_datatype(
        input.subrange(from, from + attribute_datatype_room(input)),
        u16_at(input, 4) as u16,
    )
}

/// What the dataspace inside an attribute message parses to.
pub open spec fn attribute_dataspace(input: Seq<u8>) -> Parsed<DataspaceView> {
    let from = 8 + attribute_name_room(input) + attribute_datatype_room(input);
    spec_dataspace(input.subrange(from, from + attribute_dataspace_room(input)))
}

/// How an attribute message of `message_size` bytes is laid out: the
/// version, which must be 1, a reserved byte, the sizes of the name, of the
/// datatype and of the dataspace, then the three of them, each in its room,
/// and the value, which fills the message.
pub open spec fn attribute_layout(input: Seq<u8>, message_size: u16) -> Scan {
    Scan::start(input, Context::Attribute).bytes(1).require(
        input[0] == 1,
        Fault::UnsupportedVersion { context: Context::Attribute, version: input[0] },
    ).tag(ZERO1@).bytes(2).bytes(2).bytes(2).bytes(attribute_name_room(input)).bytes(
        attribute_datatype_room(input),
    ).require(attribute_datatype(input) is Ok, attribute_datatype(input)->Err_0).bytes(
        attribute_dataspace_room(input),
    ).require(attribute_dataspace(input) is Ok, attribute_dataspace(input)->Err_0).require(
        message_size >= attribute_head(input),
        Fault::Truncated { context: Context::Attribute, need: attribute_head(input) as u64 },
    ).bytes(message_size - attribute_head(input))
}

/// What [`attribute`] makes of `input`.
pub open spec fn spec_attribute(input: Seq<u8>, message_size: u16) -> Parsed<AttributeView> {
    outcome(
        attribute_layout(input, message_size),
        AttributeView {
            datatype: attribute_datatype(input)->Ok_0.1,
            dataspace: attribute_dataspace(input)->Ok_0.1,
            data: input.subrange(attribute_head(input), message_size as int),
            name: spec_name(input.subrange(8, 8 + u16_at(input, 2))),
        },
    )
}

/// Parses an attribute message of `message_size` bytes. The rooms of the
/// name, of the datatype and of the dataspace, the eight bytes before them
/// and the value make up the message.
pub fn attribute(input: &[u8], message_size: u16) -> (r: Result<(&[u8], Attribute), ParseError>)
    ensures
        agrees_view(r, input@, spec_attribute(input@, message_size)),
        r matches Ok((_, a)) ==> attribute_head(input@) + a.data@.len() == message_size,
{
    let mut rd = Reader::new(input, Context::Attribute);
    let version = rd.le_u8()?;
    if version != 1 {
        return Err(ParseError::UnsupportedVersion { context: Context::Attribute, version });
    }
    rd.tag(ZERO1.as_slice())?;
    let name_size = rd.le_u16()?;
    let datatype_size = rd.le_u16()?;
    let dataspace_size = rd.le_u16()?;
    let name_room = rd.take(pad8(name_size))?;
    let name_bytes = slice_subrange(name_room, 0, name_size as usize);
    assert(name_bytes@ =~= input@.subrange(8, 8 + name_size));
    let name = name(name_bytes);
    let datatype_room = rd.take(pad8(datatype_size))?;
    let (_, datatype) = datatype(datatype_room, datatype_size)?;
    let dataspace_room = rd.take(pad8(dataspace_size))?;
    let (_, dataspace) = dataspace(dataspace_room)?;
    let head: usize = 8 + pad8(name_size) + pad8(datatype_size) + pad8(dataspace_size);
    if (message_size as usize) < head {
        return Err(ParseError::Truncated { context: Context::Attribute, need: head as u64 });
    }
    let data = rd.take(message_size as usize - head)?;
    Ok((rd.rest(), Attribute { datatype, dataspace, data: slice_to_vec(data), name }))
}

/// What the body of a message of the type `kind` and of `size` bytes holds.
/// A type that is not read gives the empty message.
pub open spec fn spec_message_body(kind: u16, size: u16, body: Seq<u8>) -> Result<
    MessageView,
    Fault,
> {
    if kind == 0x1 {
        match spec_dataspace(body) {
            Ok((_, m)) => Ok(MessageView::Dataspace(m)),
            Err(f) => Err(f),
        }
    } else if kind == 0x3 {
        match spec_datatype(body, size) {
            Ok((_, m)) => Ok(MessageView::DataType(m)),
            Err(f) => Err(f),
        }
    } else if kind == 0x5 {
        match spec_fill_value(body) {
            Ok((_, m)) => Ok(MessageView::DataStorageFillValue(m)),
            Err(f) => Err(f),
        }
    } else if kind == 0x8 {
        match spec_data_layout(body) {
            Ok((_, m)) => Ok(MessageView::DataLayout(m)),
            Err(f) => Err(f),
        }
    } else if kind == 0xC {
        match spec_attribute(body, size) {
            Ok((_, m)) => Ok(MessageView::Attribute(m)),
            Err(f) => Err(f),
        }
    } else if kind == 0x10 {
        match spec_object_header_continuation(body) {
            Ok((_, m)) => Ok(MessageView::ObjectHeaderContinuation(m)),
            Err(f) => Err(f),
        }
    } else if kind == 0x11 {
        match spec_symbol_table_message(body) {
            Ok((_, m)) => Ok(MessageView::SymbolTable(m)),
            Err(f) => Err(f),
        }
    } else if kind == 0x12 {
        match spec_object_modification_time(body) {
            Ok((_, m)) => Ok(MessageView::ObjectModificationTime(m)),
            Err(f) => Err(f),
        }
    } else {
        Ok(MessageView::Nil)
    }
}

/// Parses the body of a message of the type `kind` and of `size` bytes.
pub fn message_body(kind: u16, size: u16, body: &[u8]) -> (r: Result<Message, ParseError>)
    ensures
        match r {
            Ok(m) => spec_message_body(kind, size, body@) == Ok::<MessageView, Fault>(m@),
            Err(e) => spec_message_body(kind, size, body@) == Err::<MessageView, Fault>(e@),
        },
{
    if kind == 0x1 {
        let (_, m) = dataspace(body)?;
        Ok(Message::Dataspace(m))
    } else if kind == 0x3 {
        let (_, m) = datatype(body, size)?;
        Ok(Message::DataType(m))
    } else if kind == 0x5 {
        let (_, m) = fill_value(body)?;
        Ok(Message::DataStorageFillValue(m))
    } else if kind == 0x8 {
        let (_, m) = data_layout(body)?;
        Ok(Message::DataLayout(m))
    } else if kind == 0xC {
        let (_, m) = attribute(body, size)?;
        Ok(Message::Attribute(m))
    } else if kind == 0x10 {
        let (_, m) = object_header_continuation(body)?;
        Ok(Message::ObjectHeaderContinuation(m))
    } else if kind == 0x11 {
        let (_, m) = symbol_table_message(body)?;
        Ok(Message::SymbolTable(m))
    } else if kind == 0x12 {
        let (_, m) = object_modification_time(body)?;
        Ok(Message::ObjectModificationTime(m))
    } else {
        Ok(Message::Nil)
    }
}

/// How a message is framed: its type, the size of its body, its flags,
/// three reserved bytes, and the body.
pub open spec fn header_message_frame(input: Seq<u8>) -> Scan {
    Scan::start(input, Context::HeaderMessage).bytes(2).bytes(2).bytes(1).tag(ZERO3@).bytes(
        u16_at(input, 2),
    )
}

/// What [`header_message`] makes of `input`: the message that the body
/// holds, and the frame's eight bytes and the body as the bytes read.
pub open spec fn spec_header_message(input: Seq<u8>) -> Parsed<MessageView> {
    let size = u16_at(input, 2);
    match header_message_frame(input).fault {
        Some(fault) => Err(fault),
        None => match spec_message_body(
            u16_at(input, 0) as u16,
            size as u16,
            input.subrange(8, 8 + size),
        ) {
            Ok(message) => Ok((8 + size, message)),
            Err(fault) => Err(fault),
        },
    }
}

/// Parses one message of an object header: the frame and, inside its body,
/// the message. The bytes after the body are returned, whatever the message
/// has read of it, and a message of a type that is not read is skipped as
/// an empty one.
pub fn header_message(input: &[u8]) -> (r: Result<(&[u8], Message), ParseError>)
    ensures
        agrees_view(r, input@, spec_header_message(input@)),
{
    let mut rd = Reader::new(input, Context::HeaderMessage);
    let message_type = rd.le_u16()?;
    let message_size = rd.le_u16()?;
    let _flags = rd.le_u8()?;
    rd.tag(ZERO3.as_slice())?;
    let body = rd.take(message_size as usize)?;
    let message = message_body(message_type, message_size, body)?;
    Ok((rd.rest(), message))
}


/// The rooms of the name, of the datatype and of the dataspace of an
/// attribute message, the eight bytes before them and the value make up
/// the message: in every attribute that is read, the three sizes rounded
/// up to multiples of 8, 8, and the length of the value add up to the size
/// of the message.
pub proof fn lemma_attribute_sizes(input: Seq<u8>, message_size: u16)
    requires
        spec_attribute(input, message_size) is Ok,
    ensures
        ({
            let attribute = spec_attribute(input, message_size)->Ok_0.1;
            spec_pad8(u16_at(input, 2)) + spec_pad8(u16_at(input, 4)) + spec_pad8(
                u16_at(input, 6),
            ) + 8 + attribute.data.len() == message_size
        }),
{
}

/// A dataspace without dimensions is that of a single value: where the
/// number of dimensions is 0, the dimensions that are read are empty, and
/// the message is read with its first eight bytes.
pub proof fn lemma_scalar_dataspace(input: Seq<u8>)
    requires
        spec_dataspace(input) is Ok,
        input[1] == 0,
    ensures
        ({
            let (n, dataspace) = spec_dataspace(input)->Ok_0;
            &&& n == 8
            &&& dataspace.dimensionality == 0
            &&& dataspace.dimensions == Seq::<u64>::empty()
        }),
{
    assert(u64s_at(input, 8, 0) =~= Seq::<u64>::empty());
}

} // verus!
