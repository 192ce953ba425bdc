//! A read-only reader for HDF5 files with a version 0 superblock.
//!
//! The reader walks the superblock, the local heaps, the group B-trees and the
//! object headers of a file held in memory and builds a tree of groups, datasets
//! and attributes. Datasets are then found by a slash-separated path and read
//! as bytes or as typed values.

pub mod convert;
pub mod dtype;
pub mod error;
pub mod file;
pub mod index;
pub mod parse;
mod private;
pub mod stream;
pub mod table;
pub mod text;
pub mod wire;

pub use convert::{Binary32, Binary64, FromHdf5};
pub use dtype::Hdf5Dtype;
pub use error::{Context, Error, Fault, ParseError};
pub use file::Hdf5File;
pub use index::{parse_group, Attribute, Dataset, Group};
