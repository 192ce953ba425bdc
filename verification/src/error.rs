//! The errors of the reader.

use vstd::prelude::*;
use vstd::string::StringExecFns;
use crate::dtype::Hdf5Dtype;

verus! {

/// The structure that was being read when a fault was found.
#[derive(Clone, Copy, Debug, PartialEq, Eq, Structural)]
pub enum Context {
    Superblock,
    SymbolTable,
    SymbolTableEntry,
    GroupEntry,
    Hdf5Node,
    BtreeNodeType,
    NonLeafBtree,
    GroupNode,
    LocalHeap,
    ObjectHeader,
    Datatype,
    Dataspace,
    FillValue,
    DataLayout,
    Attribute,
    ObjectHeaderContinuation,
    SymbolTableMessage,
    ObjectModificationTime,
    HeaderMessage,
    GlobalHeap,
    AddressWidth,
    GroupDepth,
    Element,
    ChunkKey,
}

/// A fault in the bytes of a file or in a query, as a mathematical value.
#[allow(inconsistent_fields)]
pub enum Fault {
    /// A structure does not start with its signature; `found` is what stands there.
    BadMagic { context: Context, found: Seq<u8> },
    /// Fixed bytes of a structure differ from `want`; `got` is what stands there.
    ExpectedTag { context: Context, want: Seq<u8>, got: Seq<u8> },
    UnsupportedVersion { context: Context, version: u8 },
    UnsupportedVariant { context: Context, value: u64 },
    UnsupportedDatatype { class: u8, size: u32, bitfields: u32 },
    /// The bytes end before a field of `need` bytes is complete.
    Truncated { context: Context, need: u64 },
    NotFound(Seq<char>),
    TypeMismatch { want: Hdf5Dtype, got: Hdf5Dtype },
    UnrecognizedObject(Seq<char>),
}

/// A fault in the bytes of a file or in a query.
#[allow(inconsistent_fields)]
#[derive(Clone, Debug, PartialEq, Eq)]
pub enum ParseError {
    BadMagic { context: Context, found: Vec<u8> },
    ExpectedTag { context: Context, want: Vec<u8>, got: Vec<u8> },
    UnsupportedVersion { context: Context, version: u8 },
    UnsupportedVariant { context: Context, value: u64 },
    UnsupportedDatatype { class: u8, size: u32, bitfields: u32 },
    Truncated { context: Context, need: u64 },
    NotFound(String),
    TypeMismatch { want: Hdf5Dtype, got: Hdf5Dtype },
    UnrecognizedObject(String),
}

impl View for ParseError {
    type V = Fault;

    open spec fn view(&self) -> Fault {
        match *self {
            ParseError::BadMagic { context, found } => Fault::BadMagic { context, found: found@ },
            ParseError::ExpectedTag { context, want, got } => Fault::ExpectedTag {
                context,
                want: want@,
                got: got@,
            },
            ParseError::UnsupportedVersion { context, version } => Fault::UnsupportedVersion {
                context,
                version,
            },
            ParseError::UnsupportedVariant { context, value } => Fault::UnsupportedVariant {
                context,
                value,
            },
            ParseError::UnsupportedDatatype { class, size, bitfields } => Fault::UnsupportedDatatype {
                class,
                size,
                bitfields,
            },
            ParseError::Truncated { context, need } => Fault::Truncated { context, need },
            ParseError::NotFound(path) => Fault::NotFound(path@),
            ParseError::TypeMismatch { want, got } => Fault::TypeMismatch { want, got },
            ParseError::UnrecognizedObject(name) => Fault::UnrecognizedObject(name@),
        }
    }
}

/// An error of the standard library's input and output.
#[verifier::external_type_specification]
#[verifier::external_body]
pub struct ExIoError(std::io::Error);

/// All errors that this library can emit.
#[derive(Debug)]
pub enum Error {
    /// The file could not be opened or mapped.
    Io(std::io::Error),
    /// The bytes of the file, or a query, are at fault.
    Parse(ParseError),
}


impl Context {
    /// The words for the structure.
    pub open spec fn spec_label(self) -> Seq<char> {
        match self {
            Context::Superblock => "superblock"@,
            Context::SymbolTable => "symbol table"@,
            Context::SymbolTableEntry => "symbol table entry"@,
            Context::GroupEntry => "group entry"@,
            Context::Hdf5Node => "HDF5 node"@,
            Context::BtreeNodeType => "btree node type"@,
            Context::NonLeafBtree => "non-leaf btree"@,
            Context::GroupNode => "group node"@,
            Context::LocalHeap => "local heap"@,
            Context::ObjectHeader => "object header"@,
            Context::Datatype => "datatype"@,
            Context::Dataspace => "dataspace"@,
            Context::FillValue => "fill value"@,
            Context::DataLayout => "data layout"@,
            Context::Attribute => "attribute"@,
            Context::ObjectHeaderContinuation => "object header continuation"@,
            Context::SymbolTableMessage => "symbol table message"@,
            Context::ObjectModificationTime => "object modification time"@,
            Context::HeaderMessage => "header message"@,
            Context::GlobalHeap => "global heap"@,
            Context::AddressWidth => "address width"@,
            Context::GroupDepth => "group depth"@,
            Context::Element => "element"@,
            Context::ChunkKey => "chunk key"@,
        }
    }

    /// The words for the structure.
    pub fn label(self) -> (r: &'static str)
        ensures
            r@ == self.spec_label(),
    {
        match self {
            Context::Superblock => "superblock",
            Context::SymbolTable => "symbol table",
            Context::SymbolTableEntry => "symbol table entry",
            Context::GroupEntry => "group entry",
            Context::Hdf5Node => "HDF5 node",
            Context::BtreeNodeType => "btree node type",
            Context::NonLeafBtree => "non-leaf btree",
            Context::GroupNode => "group node",
            Context::LocalHeap => "local heap",
            Context::ObjectHeader => "object header",
            Context::Datatype => "datatype",
            Context::Dataspace => "dataspace",
            Context::FillValue => "fill value",
            Context::DataLayout => "data layout",
            Context::Attribute => "attribute",
            Context::ObjectHeaderContinuation => "object header continuation",
            Context::SymbolTableMessage => "symbol table message",
            Context::ObjectModificationTime => "object modification time",
            Context::HeaderMessage => "header message",
            Context::GlobalHeap => "global heap",
            Context::AddressWidth => "address width",
            Context::GroupDepth => "group depth",
            Context::Element => "element",
            Context::ChunkKey => "chunk key",
        }
    }
}

impl Fault {
    /// The fault in words: what is wrong, and in which structure or with
    /// which name.
    pub open spec fn text(self) -> Seq<char> {
        match self {
            Fault::BadMagic { context, .. } => "bad magic in "@ + context.spec_label(),
            Fault::ExpectedTag { context, .. } => "unexpected bytes in "@ + context.spec_label(),
            Fault::UnsupportedVersion { context, .. } => "unsupported version of "@
                + context.spec_label(),
            Fault::UnsupportedVariant { context, .. } => "unsupported variant of "@
                + context.spec_label(),
            Fault::UnsupportedDatatype { .. } => "unsupported datatype"@,
            Fault::Truncated { context, .. } => "truncated "@ + context.spec_label(),
            Fault::NotFound(path) => "not found: "@ + path,
            Fault::TypeMismatch { want, got } => "type mismatch: want "@ + want.spec_name()
                + ", got "@ + got.spec_name(),
            Fault::UnrecognizedObject(name) => "unrecognized object: "@ + name,
        }
    }
}

impl ParseError {
    /// The fault in words.
    pub fn message(&self) -> (r: String)
        ensures
            r@ == self@.text(),
    {
        match self {
            ParseError::BadMagic { context, .. } => String::from_str("bad magic in ").concat(
                context.label(),
            ),
            ParseError::ExpectedTag { context, .. } => String::from_str(
                "unexpected bytes in ",
            ).concat(context.label()),
            ParseError::UnsupportedVersion { context, .. } => String::from_str(
                "unsupported version of ",
            ).concat(context.label()),
            ParseError::UnsupportedVariant { context, .. } => String::from_str(
                "unsupported variant of ",
            ).concat(context.label()),
            ParseError::UnsupportedDatatype { .. } => String::from_str("unsupported datatype"),
            ParseError::Truncated { context, .. } => String::from_str("truncated ").concat(
                context.label(),
            ),
            ParseError::NotFound(path) => String::from_str("not found: ").concat(path.as_str()),
            ParseError::TypeMismatch { want, got } => String::from_str(
                "type mismatch: want ",
            ).concat(want.name()).concat(", got ").concat(got.name()),
            ParseError::UnrecognizedObject(name) => String::from_str(
                "unrecognized object: ",
            ).concat(name.as_str()),
        }
    }
}

/// `std::io::Error` in words, as its `Display` gives them.
#[verifier::external_body]
fn io_text(e: &std::io::Error) -> String {
    e.to_string()
}

impl Error {
    /// The fault of a file or of a query, if the error is one.
    pub open spec fn fault(self) -> Option<Fault> {
        match self {
            Error::Io(_) => None,
            Error::Parse(e) => Some(e@),
        }
    }

    /// The error in words: a fault as [`Fault::text`] says it, an error of
    /// input and output as that error says it.
    pub fn message(&self) -> (r: String)
        ensures
            self matches Error::Parse(e) ==> r@ == e@.text(),
    {
        match self {
            Error::Io(e) => io_text(e),
            Error::Parse(e) => e.message(),
        }
    }
}

impl From<std::io::Error> for Error {
    fn from(e: std::io::Error) -> (r: Error) {
        Error::Io(e)
    }
}

impl vstd::std_specs::convert::FromSpecImpl<std::io::Error> for Error {
    open spec fn obeys_from_spec() -> bool {
        true
    }

    open spec fn from_spec(e: std::io::Error) -> Error {
        Error::Io(e)
    }
}

impl From<ParseError> for Error {
    fn from(e: ParseError) -> (r: Error) {
        Error::Parse(e)
    }
}

impl vstd::std_specs::convert::FromSpecImpl<ParseError> for Error {
    open spec fn obeys_from_spec() -> bool {
        true
    }

    open spec fn from_spec(e: ParseError) -> Error {
        Error::Parse(e)
    }
}

} // verus!
