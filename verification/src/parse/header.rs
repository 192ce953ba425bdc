//! The messages of an object header.

use vstd::prelude::*;

verus! {

/// The shape of a dataset or of an attribute.
#[derive(Clone, Debug, PartialEq, Eq)]
pub struct Dataspace {
    pub dimensionality: u8,
    pub flags: u8,
    pub dimensions: Vec<u64>,
    pub max_dimensions: Option<Vec<u64>>,
}

/// A dataspace as a mathematical value.
pub struct DataspaceView {
    pub dimensionality: u8,
    pub flags: u8,
    pub dimensions: Seq<u64>,
    pub max_dimensions: Option<Seq<u64>>,
}

impl View for Dataspace {
    type V = DataspaceView;

    open spec fn view(&self) -> DataspaceView {
        DataspaceView {
            dimensionality: self.dimensionality,
            flags: self.flags,
            dimensions: self.dimensions@,
            max_dimensions: match self.max_dimensions {
                Some(v) => Some(v@),
                None => None,
            },
        }
    }
}

/// The class of a datatype.
#[derive(Clone, Copy, Debug, PartialEq, Eq, Structural)]
pub enum DatatypeClass {
    FixedPoint,
    FloatingPoint,
    Time,
    String,
    Bitfield,
    Opaque,
    Compound,
    Reference,
    Enumerated,
    VariableLength { ty: u8, padding: u8, character_set: u8 },
    Array,
}

/// How the elements of a dataset or of an attribute are encoded.
#[derive(Clone, Debug, PartialEq, Eq)]
pub struct DataType {
    pub version: u8,
    pub class: DatatypeClass,
    pub class_bitfields: u32,
    pub size: u32,
    pub properties: Vec<u8>,
}

/// A datatype as a mathematical value.
pub struct DataTypeView {
    pub version: u8,
    pub class: DatatypeClass,
    pub class_bitfields: u32,
    pub size: u32,
    pub properties: Seq<u8>,
}

impl View for DataType {
    type V = DataTypeView;

    open spec fn view(&self) -> DataTypeView {
        DataTypeView {
            version: self.version,
            class: self.class,
            class_bitfields: self.class_bitfields,
            size: self.size,
            properties: self.properties@,
        }
    }
}

/// The value that stands for the elements that were never written.
#[derive(Clone, Debug, PartialEq, Eq)]
pub struct DataStorageFillValue {
    pub space_allocation_time: u8,
    pub fill_value_write_time: u8,
    pub fill_value_defined: u8,
    pub size: u32,
    pub fill_value: Vec<u8>,
}

/// A fill value as a mathematical value.
pub struct DataStorageFillValueView {
    pub space_allocation_time: u8,
    pub fill_value_write_time: u8,
    pub fill_value_defined: u8,
    pub size: u32,
    pub fill_value: Seq<u8>,
}

impl View for DataStorageFillValue {
    type V = DataStorageFillValueView;

    open spec fn view(&self) -> DataStorageFillValueView {
        DataStorageFillValueView {
            space_allocation_time: self.space_allocation_time,
            fill_value_write_time: self.fill_value_write_time,
            fill_value_defined: self.fill_value_defined,
            size: self.size,
            fill_value: self.fill_value@,
        }
    }
}

/// Where the bytes of a dataset lie, for the contiguous layout.
#[derive(Clone, Copy, Debug, PartialEq, Eq, Structural)]
pub struct DataLayout {
    pub address: u64,
    pub size: u64,
}

/// A named value attached to a group or to a dataset.
#[derive(Clone, Debug, PartialEq, Eq)]
pub struct Attribute {
    pub datatype: DataType,
    pub dataspace: Dataspace,
    pub data: Vec<u8>,
    pub name: String,
}

/// An attribute message as a mathematical value.
pub struct AttributeView {
    pub datatype: DataTypeView,
    pub dataspace: DataspaceView,
    pub data: Seq<u8>,
    pub name: Seq<char>,
}

impl View for Attribute {
    type V = AttributeView;

    open spec fn view(&self) -> AttributeView {
        AttributeView {
            datatype: self.datatype@,
            dataspace: self.dataspace@,
            data: self.data@,
            name: self.name@,
        }
    }
}

/// Where the messages of an object header go on.
#[derive(Clone, Copy, Debug, PartialEq, Eq, Structural)]
pub struct ObjectHeaderContinuation {
    pub offset: u64,
    pub length: u64,
}

/// What makes an object a group: its B-tree and its local heap.
#[derive(Clone, Copy, Debug, PartialEq, Eq, Structural)]
pub struct SymbolTable {
    pub btree_address: u64,
    pub local_heap_address: u64,
}

/// When an object was last changed.
#[derive(Clone, Copy, Debug, PartialEq, Eq, Structural)]
pub struct ObjectModificationTime {
    pub seconds_after_unix_epoch: u32,
}

/// One message of an object header.
#[derive(Clone, Debug, PartialEq, Eq)]
pub enum Message {
    Nil,
    Dataspace(Dataspace),
    DataType(DataType),
    DataStorageFillValue(DataStorageFillValue),
    DataLayout(DataLayout),
    Attribute(Attribute),
    ObjectHeaderContinuation(ObjectHeaderContinuation),
    SymbolTable(SymbolTable),
    ObjectModificationTime(ObjectModificationTime),
}

/// A message as a mathematical value.
pub enum MessageView {
    Nil,
    Dataspace(DataspaceView),
    DataType(DataTypeView),
    DataStorageFillValue(DataStorageFillValueView),
    DataLayout(DataLayout),
    Attribute(AttributeView),
    ObjectHeaderContinuation(ObjectHeaderContinuation),
    SymbolTable(SymbolTable),
    ObjectModificationTime(ObjectModificationTime),
}

impl View for Message {
    type V = MessageView;

    open spec fn view(&self) -> MessageView {
        match *self {
            Message::Nil => MessageView::Nil,
            Message::Dataspace(m) => MessageView::Dataspace(m@),
            Message::DataType(m) => MessageView::DataType(m@),
            Message::DataStorageFillValue(m) => MessageView::DataStorageFillValue(m@),
            Message::DataLayout(m) => MessageView::DataLayout(m),
            Message::Attribute(m) => MessageView::Attribute(m@),
            Message::ObjectHeaderContinuation(m) => MessageView::ObjectHeaderContinuation(m),
            Message::SymbolTable(m) => MessageView::SymbolTable(m),
            Message::ObjectModificationTime(m) => MessageView::ObjectModificationTime(m),
        }
    }
}

} // verus!
