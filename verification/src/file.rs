//! An opened file: its bytes and the tree built from them.

use vstd::prelude::*;
use vstd::slice::slice_subrange;
use crate::convert::{spec_convert, FromHdf5};
use crate::dtype::Hdf5Dtype;
use crate::error::{Context, Error, Fault, ParseError};
use crate::index::{
    attribute_views, attributes_from, collect_attributes, group_at, lemma_attributes_distinct,
    lemma_group_view, lemma_group_wf,
    object_messages, spec_find_dataset, spec_group, spec_object_messages, Attribute, DatasetView,
    Group, GroupView, Widths, MAX_GROUP_DEPTH,
};
use crate::parse::header::SymbolTable;
use crate::parse::{spec_superblock, superblock};
use crate::table::{find, keys, names, spec_get};

verus! {

/// The tree that [`Hdf5File::open`] builds from the bytes of a file. The
/// superblock names the root group; its attributes are the attributes
/// among the messages of its object header, and its children are read
/// from its B-tree. A file whose superblock says that it ends behind the
/// last byte is a fault.
pub open spec fn spec_open(contents: Seq<u8>) -> Result<GroupView, Fault> {
    match spec_superblock(contents) {
        Err(fault) => Err(fault),
        Ok((_, superblock)) => if superblock.end_of_file_address > contents.len() {
            Err(
                Fault::Truncated {
                    context: Context::Superblock,
                    need: superblock.end_of_file_address,
                },
            )
        } else {
            let root = superblock.root_group_symbol_table_entry;
            match spec_object_messages(contents, root.object_header_address) {
                Err(fault) => Err(fault),
                Ok(messages) => match spec_group(
                    contents,
                    SymbolTable {
                        btree_address: root.address_of_btree,
                        local_heap_address: root.address_of_name_heap,
                    },
                    Widths {
                        offset_size: superblock.offset_size,
                        length_size: superblock.length_size,
                    },
                    MAX_GROUP_DEPTH as nat,
                ) {
                    Err(fault) => Err(fault),
                    Ok(group) => match attributes_from(messages, 0, group.attributes) {
                        Err(fault) => Err(fault),
                        Ok(attributes) => Ok(GroupView { attributes, ..group }),
                    },
                },
            }
        },
    }
}

/// The bytes of the dataset that `path` leads to: those from its address
/// on, as many as its size says.
pub open spec fn spec_view(contents: Seq<u8>, root: GroupView, path: Seq<char>) -> Result<
    Seq<u8>,
    Fault,
> {
    match spec_find_dataset(root, path) {
        None => Err(Fault::NotFound(path)),
        Some(dataset) => dataset_bytes(contents, dataset),
    }
}

/// The bytes of `dataset` in the file; a dataset that does not lie in the
/// file is a fault.
pub open spec fn dataset_bytes(contents: Seq<u8>, dataset: DatasetView) -> Result<Seq<u8>, Fault> {
    if dataset.address + dataset.size > contents.len() {
        Err(Fault::Truncated { context: Context::DataLayout, need: dataset.size })
    } else {
        Ok(contents.subrange(dataset.address as int, dataset.address + dataset.size))
    }
}

/// The elements of `size` bytes each that `bytes` holds from the byte `pos`
/// on, after those of `so_far`.
pub open spec fn elements_from<T: FromHdf5>(
    contents: Seq<u8>,
    dtype: Hdf5Dtype,
    bytes: Seq<u8>,
    size: int,
    pos: int,
    so_far: Seq<T::V>,
) -> Result<Seq<T::V>, Fault>
    decreases bytes.len() - pos,
{
    if size <= 0 || pos < 0 || pos + size > bytes.len() {
        Ok(so_far)
    } else {
        match spec_convert::<T>(contents, dtype, bytes.subrange(pos, pos + size)) {
            Err(fault) => Err(fault),
            Ok(value) => elements_from::<T>(
                contents,
                dtype,
                bytes,
                size,
                pos + size,
                so_far.push(value),
            ),
        }
    }
}

/// The elements of the dataset that `path` leads to, read as `T`. The type
/// of the elements must be one that `T` accepts, and the bytes of the
/// dataset must be whole elements.
pub open spec fn spec_view_typed<T: FromHdf5>(
    contents: Seq<u8>,
    root: GroupView,
    path: Seq<char>,
) -> Result<Seq<T::V>, Fault> {
    match spec_find_dataset(root, path) {
        None => Err(Fault::NotFound(path)),
        Some(dataset) => if !T::accepts(dataset.dtype) {
            Err(Fault::TypeMismatch { want: T::wanted(), got: dataset.dtype })
        } else {
            match dataset_bytes(contents, dataset) {
                Err(fault) => Err(fault),
                Ok(bytes) => if dataset.element_size == 0 {
                    Err(Fault::UnsupportedVariant { context: Context::Element, value: 0 })
                } else if dataset.size % (dataset.element_size as u64) != 0 {
                    Err(
                        Fault::Truncated {
                            context: Context::Element,
                            need: dataset.element_size as u64,
                        },
                    )
                } else {
                    elements_from::<T>(
                        contents,
                        dataset.dtype,
                        bytes,
                        dataset.element_size as int,
                        0,
                        Seq::empty(),
                    )
                },
            }
        },
    }
}

/// The first element of the attribute of the root group under `name`, read
/// as `T`.
pub open spec fn spec_attr<T: FromHdf5>(contents: Seq<u8>, root: GroupView, name: Seq<char>) -> Result<
    T::V,
    Fault,
> {
    match spec_get(root.attributes, name) {
        None => Err(Fault::NotFound(name)),
        Some(attribute) => if !T::accepts(attribute.dtype) {
            Err(Fault::TypeMismatch { want: T::wanted(), got: attribute.dtype })
        } else if attribute.data.len() < attribute.element_size {
            Err(
                Fault::Truncated {
                    context: Context::Element,
                    need: attribute.element_size as u64,
                },
            )
        } else {
            spec_convert::<T>(
                contents,
                attribute.dtype,
                attribute.data.take(attribute.element_size as int),
            )
        },
    }
}

/// The views of `values`, one for one.
pub open spec fn value_views<T: View>(values: Seq<T>) -> Seq<T::V> {
    Seq::new(values.len(), |i: int| values[i]@)
}

/// Whether `r` is what opening the file with the bytes `contents` gives:
/// the file with its tree, or the fault of the bytes.
pub open spec fn opened(contents: Seq<u8>, r: Result<Hdf5File, Error>) -> bool {
    match r {
        Ok(file) => file.contents() == contents && spec_open(contents) == Ok::<GroupView, Fault>(
            file.root(),
        ),
        Err(Error::Parse(e)) => spec_open(contents) == Err::<GroupView, Fault>(e@),
        Err(Error::Io(_)) => false,
    }
}

/// Opening the same bytes twice gives the same: two files with equal
/// trees, or twice the same fault.
pub proof fn lemma_open_twice(
    contents: Seq<u8>,
    first: Result<Hdf5File, Error>,
    second: Result<Hdf5File, Error>,
)
    requires
        opened(contents, first),
        opened(contents, second),
    ensures
        match (first, second) {
            (Ok(a), Ok(b)) => a.root() == b.root() && a.contents() == b.contents(),
            (Err(a), Err(b)) => a.fault() == b.fault(),
            _ => false,
        },
{
}

/// In the tree of a file no name stands twice: not among the attributes,
/// the datasets or the groups of a group, nor among the attributes of a
/// dataset.
pub proof fn lemma_open_wf(contents: Seq<u8>)
    requires
        spec_open(contents) is Ok,
    ensures
        spec_open(contents)->Ok_0.wf(),
{
    let superblock = spec_superblock(contents)->Ok_0.1;
    let root = superblock.root_group_symbol_table_entry;
    let messages = spec_object_messages(contents, root.object_header_address)->Ok_0;
    let table = SymbolTable {
        btree_address: root.address_of_btree,
        local_heap_address: root.address_of_name_heap,
    };
    let widths = Widths {
        offset_size: superblock.offset_size,
        length_size: superblock.length_size,
    };
    lemma_group_wf(contents, table, widths, MAX_GROUP_DEPTH as nat);
    let group = spec_group(contents, table, widths, MAX_GROUP_DEPTH as nat)->Ok_0;
    lemma_attributes_distinct(messages, 0, group.attributes);
    let attributes = attributes_from(messages, 0, group.attributes)->Ok_0;
    let tree = GroupView { attributes, ..group };
    assert forall|i: int| 0 <= i < tree.groups.len() implies {
        let inner = #[trigger] tree.groups[i];
        inner.1.wf()
    } by {
        assert(tree.groups[i] == group.groups[i]);
    }
}

/// The bytes of a dataset are as many as its size says: where the bytes of
/// the dataset that `path` leads to can be had, there are as many as the
/// size of that dataset.
pub proof fn lemma_view_length(contents: Seq<u8>, root: GroupView, path: Seq<char>)
    requires
        spec_view(contents, root, path) is Ok,
    ensures
        spec_find_dataset(root, path) matches Some(dataset) && spec_view(
            contents,
            root,
            path,
        )->Ok_0.len() == dataset.size,
{
}

/// Every element that is read takes `size` bytes: the elements read from
/// the byte `pos` on are as many as `size` goes into the bytes from there.
pub proof fn lemma_elements_count<T: FromHdf5>(
    contents: Seq<u8>,
    dtype: Hdf5Dtype,
    bytes: Seq<u8>,
    size: int,
    pos: int,
    so_far: Seq<T::V>,
)
    requires
        size > 0,
        0 <= pos <= bytes.len(),
        (bytes.len() - pos) % size == 0,
        elements_from::<T>(contents, dtype, bytes, size, pos, so_far) is Ok,
    ensures
        elements_from::<T>(contents, dtype, bytes, size, pos, so_far)->Ok_0.len() * size
            == so_far.len() * size + (bytes.len() - pos),
    decreases bytes.len() - pos,
{
    if pos + size > bytes.len() {
        assert(bytes.len() - pos == 0) by (nonlinear_arith)
            requires
                (bytes.len() - pos) % size == 0,
                0 <= bytes.len() - pos < size,
        ;
    } else {
        let value = spec_convert::<T>(contents, dtype, bytes.subrange(pos, pos + size))->Ok_0;
        assert((bytes.len() - pos - size) % size == 0) by (nonlinear_arith)
            requires
                (bytes.len() - pos) % size == 0,
                bytes.len() - pos >= size,
                size > 0,
        ;
        lemma_elements_count::<T>(contents, dtype, bytes, size, pos + size, so_far.push(value));
        assert((so_far.len() + 1) * size == so_far.len() * size + size) by (nonlinear_arith);
    }
}

/// The elements of a dataset fill its bytes: where the dataset that `path`
/// leads to can be read as `T`, its size is a multiple of the size of an
/// element, and the elements are as many as that size goes into it.
pub proof fn lemma_typed_view_whole<T: FromHdf5>(
    contents: Seq<u8>,
    root: GroupView,
    path: Seq<char>,
)
    requires
        spec_view_typed::<T>(contents, root, path) is Ok,
    ensures
        spec_find_dataset(root, path) matches Some(dataset) && dataset.element_size > 0
            && dataset.size % (dataset.element_size as u64) == 0 && spec_view_typed::<T>(
            contents,
            root,
            path,
        )->Ok_0.len() * dataset.element_size == dataset.size,
{
    let dataset = spec_find_dataset(root, path)->0;
    let bytes = dataset_bytes(contents, dataset)->Ok_0;
    lemma_elements_count::<T>(
        contents,
        dataset.dtype,
        bytes,
        dataset.element_size as int,
        0,
        Seq::empty(),
    );
    assert(0 * dataset.element_size == 0);
}

/// An opened HDF5 file.
#[derive(Debug)]
pub struct Hdf5File<'a> {
    contents: &'a [u8],
    root_group: Group,
}

impl<'a> Hdf5File<'a> {
    /// No name stands twice in the tree of an opened file.
    #[verifier::type_invariant]
    spec fn names_distinct(&self) -> bool {
        self.root_group@.wf()
    }

    /// The bytes of the file.
    pub closed spec fn contents(&self) -> Seq<u8> {
        self.contents@
    }

    /// The root group, as a mathematical value.
    pub closed spec fn root(&self) -> GroupView {
        self.root_group@
    }

    /// Builds the tree of the file whose bytes are `contents`.
    pub fn open(contents: &'a [u8]) -> (r: Result<Hdf5File<'a>, Error>)
        ensures
            opened(contents@, r),
            r matches Ok(file) ==> file.root().wf(),
    {
        proof {
            if spec_open(contents@) is Ok {
                lemma_open_wf(contents@);
            }
        }
        match Hdf5File::index(contents) {
            Ok(root_group) => Ok(Hdf5File { contents, root_group }),
            Err(e) => Err(Error::Parse(e)),
        }
    }

    /// Builds the root group of the file whose bytes are `contents`.
    pub fn index(contents: &[u8]) -> (r: Result<Group, ParseError>)
        ensures
            match r {
                Ok(group) => spec_open(contents@) == Ok::<GroupView, Fault>(group@),
                Err(e) => spec_open(contents@) == Err::<GroupView, Fault>(e@),
            },
    {
        let (_, superblock) = superblock(contents)?;
        if superblock.end_of_file_address > contents.len() as u64 {
            return Err(
                ParseError::Truncated {
                    context: Context::Superblock,
                    need: superblock.end_of_file_address,
                },
            );
        }
        let root = superblock.root_group_symbol_table_entry;
        let messages = object_messages(contents, root.object_header_address)?;
        let mut group = group_at(
            contents,
            SymbolTable {
                btree_address: root.address_of_btree,
                local_heap_address: root.address_of_name_heap,
            },
            Widths { offset_size: superblock.offset_size, length_size: superblock.length_size },
            MAX_GROUP_DEPTH,
        )?;
        let ghost found = group@;
        let mut attributes: Vec<(String, Attribute)> = Vec::new();
        proof {
            lemma_group_view(group);
            assert(attribute_views(attributes@) =~= found.attributes);
        }
        collect_attributes(messages, &mut attributes)?;
        group.attributes = attributes;
        proof {
            lemma_group_view(group);
        }
        Ok(group)
    }

    /// The bytes of the file.
    pub fn bytes(&self) -> (r: &'a [u8])
        ensures
            r@ == self.contents(),
    {
        self.contents
    }

    /// The root group. No name stands twice in it.
    pub fn root_group(&self) -> (r: &Group)
        ensures
            r@ == self.root(),
            r@.wf(),
    {
        proof {
            use_type_invariant(self);
        }
        &self.root_group
    }

    /// Looks up the provided path to a dataset and returns the bytes of the
    /// dataset, which lie in the file.
    ///
    /// Note that this discards any dimension information associated with
    /// the dataset.
    pub fn view(&self, dataset_path: &str) -> (r: Result<&'a [u8], Error>)
        ensures
            match r {
                Ok(bytes) => spec_view(self.contents(), self.root(), dataset_path@) == Ok::<
                    Seq<u8>,
                    Fault,
                >(bytes@),
                Err(Error::Parse(e)) => spec_view(self.contents(), self.root(), dataset_path@)
                    == Err::<Seq<u8>, Fault>(e@),
                Err(Error::Io(_)) => false,
            },
            r matches Ok(bytes) ==> spec_find_dataset(self.root(), dataset_path@) matches Some(
                dataset,
            ) && bytes@.len() == dataset.size,
    {
        match self.root_group.find_dataset(dataset_path) {
            None => Err(Error::Parse(ParseError::NotFound(dataset_path.to_owned()))),
            Some(dataset) => {
                let len = self.contents.len() as u64;
                if dataset.address > len || dataset.size > len - dataset.address {
                    Err(
                        Error::Parse(
                            ParseError::Truncated {
                                context: Context::DataLayout,
                                need: dataset.size,
                            },
                        ),
                    )
                } else {
                    Ok(
                        slice_subrange(
                            self.contents,
                            dataset.address as usize,
                            (dataset.address + dataset.size) as usize,
                        ),
                    )
                }
            },
        }
    }

    /// Looks up the provided path to a dataset and reads its elements as
    /// `T`, if they are of a type that `T` accepts.
    pub fn view_typed<T: FromHdf5>(&self, dataset_path: &str) -> (r: Result<Vec<T>, Error>)
        ensures
            match r {
                Ok(values) => spec_view_typed::<T>(self.contents(), self.root(), dataset_path@)
                    == Ok::<Seq<T::V>, Fault>(value_views(values@)),
                Err(Error::Parse(e)) => spec_view_typed::<T>(
                    self.contents(),
                    self.root(),
                    dataset_path@,
                ) == Err::<Seq<T::V>, Fault>(e@),
                Err(Error::Io(_)) => false,
            },
            r matches Ok(values) ==> spec_find_dataset(self.root(), dataset_path@) matches Some(
                dataset,
            ) && dataset.element_size > 0 && values@.len() * dataset.element_size == dataset.size,
    {
        let dataset = match self.root_group.find_dataset(dataset_path) {
            None => {
                return Err(Error::Parse(ParseError::NotFound(dataset_path.to_owned())));
            },
            Some(dataset) => dataset,
        };
        let accepted = T::from_types();
        if !contains(&accepted, dataset.dtype) {
            return Err(
                Error::Parse(ParseError::TypeMismatch { want: accepted[0], got: dataset.dtype }),
            );
        }
        let bytes = self.view(dataset_path)?;
        if dataset.element_size == 0 {
            return Err(
                Error::Parse(
                    ParseError::UnsupportedVariant { context: Context::Element, value: 0 },
                ),
            );
        }
        if dataset.size % (dataset.element_size as u64) != 0 {
            return Err(
                Error::Parse(
                    ParseError::Truncated {
                        context: Context::Element,
                        need: dataset.element_size as u64,
                    },
                ),
            );
        }
        let size = dataset.element_size as usize;
        let len = bytes.len();
        let ghost total = spec_view_typed::<T>(self.contents(), self.root(), dataset_path@);
        let mut values: Vec<T> = Vec::new();
        assert(value_views(values@) =~= Seq::<T::V>::empty());
        let mut pos: usize = 0;
        assert(values@.len() * size == 0) by (nonlinear_arith)
            requires
                values@.len() == 0,
        ;
        while len - pos >= size
            invariant
                pos <= len,
                len == bytes@.len(),
                len == dataset.size,
                size == dataset.element_size,
                spec_find_dataset(self.root(), dataset_path@) == Some(dataset@),
                total == spec_view_typed::<T>(self.contents(), self.root(), dataset_path@),
                size > 0,
                (len - pos) % (size as int) == 0,
                values@.len() * size == pos,
                elements_from::<T>(
                    self.contents(),
                    dataset.dtype,
                    bytes@,
                    size as int,
                    pos as int,
                    value_views(values@),
                ) == total,
            decreases len - pos,
        {
            let element = slice_subrange(bytes, pos, pos + size);
            let ghost before = value_views(values@);
            let ghost n = values@.len();
            let value = match T::convert(self, dataset.dtype, element) {
                Ok(value) => value,
                Err(e) => {
                    return Err(Error::Parse(e));
                },
            };
            values.push(value);
            assert(value_views(values@) =~= before.push(value@));
            assert((n + 1) * size == n * size + size) by (nonlinear_arith);
            assert((len - pos - size) % (size as int) == 0) by (nonlinear_arith)
                requires
                    (len - pos) % (size as int) == 0,
                    len - pos >= size,
                    size > 0,
            ;
            pos += size;
        }
        assert(len - pos == 0) by (nonlinear_arith)
            requires
                (len - pos) % (size as int) == 0,
                0 <= len - pos < size,
        ;
        Ok(values)
    }

    /// Looks up the provided name of an attribute of the root group and
    /// reads its first element as `T`, if it is of a type that `T` accepts.
    pub fn attr<T: FromHdf5>(&self, attribute_name: &str) -> (r: Result<T, Error>)
        ensures
            match r {
                Ok(value) => spec_attr::<T>(self.contents(), self.root(), attribute_name@) == Ok::<
                    T::V,
                    Fault,
                >(value@),
                Err(Error::Parse(e)) => spec_attr::<T>(
                    self.contents(),
                    self.root(),
                    attribute_name@,
                ) == Err::<T::V, Fault>(e@),
                Err(Error::Io(_)) => false,
            },
    {
        let name = attribute_name.to_owned();
        proof {
            assert(keys(attribute_views(self.root_group.attributes@)) =~= names(
                self.root_group.attributes@,
            ));
        }
        let at = find(&self.root_group.attributes, &name);
        if at >= self.root_group.attributes.len() {
            return Err(Error::Parse(ParseError::NotFound(name)));
        }
        let attribute = &self.root_group.attributes[at].1;
        let accepted = T::from_types();
        if !contains(&accepted, attribute.dtype) {
            return Err(
                Error::Parse(ParseError::TypeMismatch { want: accepted[0], got: attribute.dtype }),
            );
        }
        if attribute.data.len() < attribute.element_size as usize {
            return Err(
                Error::Parse(
                    ParseError::Truncated {
                        context: Context::Element,
                        need: attribute.element_size as u64,
                    },
                ),
            );
        }
        let element = slice_subrange(
            attribute.data.as_slice(),
            0,
            attribute.element_size as usize,
        );
        match T::convert(self, attribute.dtype, element) {
            Ok(value) => Ok(value),
            Err(e) => Err(Error::Parse(e)),
        }
    }
}

/// Whether `dtype` is among `types`.
pub fn contains(types: &Vec<Hdf5Dtype>, dtype: Hdf5Dtype) -> (r: bool)
    ensures
        r == types@.contains(dtype),
{
    let mut i: usize = 0;
    while i < types.len()
        invariant
            i <= types@.len(),
            forall|k: int| 0 <= k < i ==> types@[k] != dtype,
        decreases types@.len() - i,
    {
        if types[i] == dtype {
            return true;
        }
        i += 1;
    }
    false
}

} // verus!
