//! The tree of groups, datasets and attributes that is built from a file.

use vstd::prelude::*;
use vstd::slice::slice_subrange;
use vstd::string::StrSliceExecFns;
use crate::dtype::{spec_dtype, Hdf5Dtype};
use crate::error::{Context, Error, Fault, ParseError};
use crate::parse::header::{DataLayout, Message, MessageView};
use crate::parse::{
    hdf5_node, local_heap, object_header, spec_hdf5_node, spec_local_heap, spec_object_header,
    spec_symbol_table, symbol_table, GroupEntry, LocalHeap, SymbolTableEntry,
};
use crate::stream::{read_messages, views, Stream};
use crate::table::{
    distinct, find, first_named, keys, lemma_first_named, lemma_put, names, put, spec_get,
    spec_put,
};
use crate::text::{lemma_c_string_ignores_rest, name, spec_name, utf8_lossy};

verus! {

/// How deep groups may lie in groups. A file whose groups lie deeper, or
/// lie in themselves, is not read.
pub const MAX_GROUP_DEPTH: u32 = 64;

/// The widths, in bytes, of the addresses and of the lengths of a file.
#[derive(Clone, Copy, Debug, PartialEq, Eq, Structural)]
pub struct Widths {
    pub offset_size: u8,
    pub length_size: u8,
}

/// A named value attached to a group or to a dataset.
#[derive(Clone, Debug, PartialEq, Eq)]
pub struct Attribute {
    pub dtype: Hdf5Dtype,
    pub element_size: u32,
    pub dimensions: Vec<u64>,
    pub data: Vec<u8>,
}

/// An attribute as a mathematical value.
pub struct AttributeView {
    pub dtype: Hdf5Dtype,
    pub element_size: u32,
    pub dimensions: Seq<u64>,
    pub data: Seq<u8>,
}

impl View for Attribute {
    type V = AttributeView;

    open spec fn view(&self) -> AttributeView {
        AttributeView {
            dtype: self.dtype,
            element_size: self.element_size,
            dimensions: self.dimensions@,
            data: self.data@,
        }
    }
}

/// What [`Attribute::from`] makes of an attribute message.
pub open spec fn spec_attribute_value(parsed: crate::parse::header::AttributeView) -> Result<
    AttributeView,
    Fault,
> {
    match spec_dtype(parsed.datatype) {
        Err(fault) => Err(fault),
        Ok(dtype) => Ok(
            AttributeView {
                dtype,
                element_size: parsed.datatype.size,
                dimensions: parsed.dataspace.dimensions,
                data: parsed.data,
            },
        ),
    }
}

impl Attribute {
    /// The attribute that an attribute message holds: its element type,
    /// the size of an element, its dimensions and the bytes of its value.
    pub fn from(parsed: crate::parse::header::Attribute) -> (r: Result<Attribute, ParseError>)
        ensures
            match r {
                Ok(a) => spec_attribute_value(parsed@) == Ok::<AttributeView, Fault>(a@),
                Err(e) => spec_attribute_value(parsed@) == Err::<AttributeView, Fault>(e@),
            },
    {
        let element_size = parsed.datatype.size;
        let dtype = Hdf5Dtype::from(parsed.datatype)?;
        Ok(
            Attribute {
                dtype,
                element_size,
                dimensions: parsed.dataspace.dimensions,
                data: parsed.data,
            },
        )
    }
}

/// The attributes of `entries` with their names, as mathematical values.
pub open spec fn attribute_views(entries: Seq<(String, Attribute)>) -> Seq<
    (Seq<char>, AttributeView),
> {
    Seq::new(entries.len(), |i: int| (entries[i].0@, entries[i].1@))
}

/// Puts the attribute `value` under `name`.
pub fn put_attribute(entries: &mut Vec<(String, Attribute)>, name: String, value: Attribute)
    ensures
        attribute_views(final(entries)@) == spec_put(
            attribute_views(old(entries)@),
            name@,
            value@,
        ),
{
    let ghost before = entries@;
    put(entries, name, value);
    proof {
        lemma_first_named(names(before), name@, 0);
        assert(keys(attribute_views(before)) =~= names(before));
        assert(attribute_views(entries@) =~= spec_put(attribute_views(before), name@, value@));
    }
}

/// The attributes among the messages from `from` on, put under their names
/// into `so_far` in their order.
pub open spec fn attributes_from(
    messages: Seq<MessageView>,
    from: int,
    so_far: Seq<(Seq<char>, AttributeView)>,
) -> Result<Seq<(Seq<char>, AttributeView)>, Fault>
    decreases messages.len() - from,
{
    if from < 0 || from >= messages.len() {
        Ok(so_far)
    } else {
        match messages[from] {
            MessageView::Attribute(a) => match spec_attribute_value(a) {
                Err(fault) => Err(fault),
                Ok(value) => attributes_from(messages, from + 1, spec_put(so_far, a.name, value)),
            },
            _ => attributes_from(messages, from + 1, so_far),
        }
    }
}

/// Puts the attributes among `messages` under their names into `entries`,
/// in their order.
pub fn collect_attributes(messages: Vec<Message>, entries: &mut Vec<(String, Attribute)>) -> (r:
    Result<(), ParseError>)
    ensures
        match r {
            Ok(_) => attributes_from(views(messages@), 0, attribute_views(old(entries)@)) == Ok::<
                Seq<(Seq<char>, AttributeView)>,
                Fault,
            >(attribute_views(final(entries)@)),
            Err(e) => attributes_from(views(messages@), 0, attribute_views(old(entries)@)) == Err::<
                Seq<(Seq<char>, AttributeView)>,
                Fault,
            >(e@),
        },
{
    let ghost all = views(messages@);
    let ghost begin = attribute_views(entries@);
    for message in it: messages
        invariant
            it.seq() == messages@,
            all == views(messages@),
            begin == attribute_views(old(entries)@),
            attributes_from(all, it.index() as int, attribute_views(entries@)) == attributes_from(
                all,
                0,
                begin,
            ),
    {
        match message {
            Message::Attribute(m) => {
                let name = m.name.clone();
                let value = Attribute::from(m)?;
                put_attribute(entries, name, value);
            },
            _ => {},
        }
    }
    Ok(())
}

/// A dataset: its shape, its element type and where its bytes lie.
#[derive(Clone, Debug, PartialEq, Eq)]
pub struct Dataset {
    pub dimensions: Vec<u64>,
    pub dtype: Hdf5Dtype,
    pub element_size: u32,
    pub address: u64,
    pub size: u64,
    pub attributes: Vec<(String, Attribute)>,
}

/// A dataset as a mathematical value.
pub struct DatasetView {
    pub dimensions: Seq<u64>,
    pub dtype: Hdf5Dtype,
    pub element_size: u32,
    pub address: u64,
    pub size: u64,
    pub attributes: Seq<(Seq<char>, AttributeView)>,
}

impl View for Dataset {
    type V = DatasetView;

    open spec fn view(&self) -> DatasetView {
        DatasetView {
            dimensions: self.dimensions@,
            dtype: self.dtype,
            element_size: self.element_size,
            address: self.address,
            size: self.size,
            attributes: attribute_views(self.attributes@),
        }
    }
}

/// What the messages of an object have said of a dataset so far.
pub struct DatasetParts {
    pub dimensions: Option<Seq<u64>>,
    pub dtype: Option<(Hdf5Dtype, u32)>,
    pub layout: Option<DataLayout>,
    pub attributes: Seq<(Seq<char>, AttributeView)>,
}

/// What one message adds to what is known of a dataset: a dataspace its
/// dimensions, a datatype its element type, a layout its address and size,
/// an attribute itself. A later message takes the place of an earlier one
/// of its kind, and the other messages add nothing.
pub open spec fn dataset_step(parts: DatasetParts, message: MessageView) -> Result<
    DatasetParts,
    Fault,
> {
    match message {
        MessageView::DataLayout(m) => Ok(DatasetParts { layout: Some(m), ..parts }),
        MessageView::DataType(m) => match spec_dtype(m) {
            Err(fault) => Err(fault),
            Ok(dtype) => Ok(DatasetParts { dtype: Some((dtype, m.size)), ..parts }),
        },
        MessageView::Dataspace(m) => Ok(DatasetParts { dimensions: Some(m.dimensions), ..parts }),
        MessageView::Attribute(m) => match spec_attribute_value(m) {
            Err(fault) => Err(fault),
            Ok(value) => Ok(
                DatasetParts { attributes: spec_put(parts.attributes, m.name, value), ..parts },
            ),
        },
        _ => Ok(parts),
    }
}

/// What is known of a dataset after the messages from `from` on.
pub open spec fn dataset_parts(messages: Seq<MessageView>, from: int, parts: DatasetParts) -> Result<
    DatasetParts,
    Fault,
>
    decreases messages.len() - from,
{
    if from < 0 || from >= messages.len() {
        Ok(parts)
    } else {
        match dataset_step(parts, messages[from]) {
            Err(fault) => Err(fault),
            Ok(next) => dataset_parts(messages, from + 1, next),
        }
    }
}

/// What [`Dataset::from`] makes of the messages of an object: the dataset,
/// if a dataspace, a datatype and a layout are among them.
#[verifier::opaque]
pub open spec fn spec_dataset(messages: Seq<MessageView>) -> Result<Option<DatasetView>, Fault> {
    match dataset_parts(
        messages,
        0,
        DatasetParts { dimensions: None, dtype: None, layout: None, attributes: Seq::empty() },
    ) {
        Err(fault) => Err(fault),
        Ok(parts) => match (parts.dimensions, parts.dtype, parts.layout) {
            (Some(dimensions), Some((dtype, element_size)), Some(layout)) => Ok(
                Some(
                    DatasetView {
                        dimensions,
                        dtype,
                        element_size,
                        address: layout.address,
                        size: layout.size,
                        attributes: parts.attributes,
                    },
                ),
            ),
            _ => Ok(None),
        },
    }
}

impl Dataset {
    /// The dataset that the messages of an object describe, or `None`
    /// where a dataspace, a datatype or a layout is missing among them.
    pub fn from(messages: Vec<Message>) -> (r: Result<Option<Dataset>, ParseError>)
        ensures
            match r {
                Ok(Some(d)) => spec_dataset(views(messages@)) == Ok::<Option<DatasetView>, Fault>(
                    Some(d@),
                ),
                Ok(None) => spec_dataset(views(messages@)) == Ok::<Option<DatasetView>, Fault>(
                    None,
                ),
                Err(e) => spec_dataset(views(messages@)) == Err::<Option<DatasetView>, Fault>(e@),
            },
    {
        reveal(spec_dataset);
        let mut dimensions: Option<Vec<u64>> = None;
        let mut dtype: Option<(Hdf5Dtype, u32)> = None;
        let mut layout: Option<DataLayout> = None;
        let mut attributes: Vec<(String, Attribute)> = Vec::new();
        let ghost all = views(messages@);
        let ghost begin = DatasetParts {
            dimensions: None,
            dtype: None,
            layout: None,
            attributes: Seq::empty(),
        };
        assert(attribute_views(attributes@) =~= Seq::empty());
        for message in it: messages
            invariant
                it.seq() == messages@,
                all == views(messages@),
                begin == (DatasetParts {
                    dimensions: None,
                    dtype: None,
                    layout: None,
                    attributes: Seq::empty(),
                }),
                dataset_parts(
                    all,
                    it.index() as int,
                    DatasetParts {
                        dimensions: match dimensions {
                            Some(v) => Some(v@),
                            None => None,
                        },
                        dtype,
                        layout,
                        attributes: attribute_views(attributes@),
                    },
                ) == dataset_parts(all, 0, begin),
        {
            proof {
                reveal(spec_dataset);
            }
            match message {
                Message::DataLayout(m) => {
                    layout = Some(m);
                },
                Message::DataType(m) => {
                    let size = m.size;
                    let found = Hdf5Dtype::from(m)?;
                    dtype = Some((found, size));
                },
                Message::Dataspace(m) => {
                    dimensions = Some(m.dimensions);
                },
                Message::Attribute(m) => {
                    let name = m.name.clone();
                    let value = Attribute::from(m)?;
                    put_attribute(&mut attributes, name, value);
                },
                _ => {},
            }
        }
        match (dimensions, dtype, layout) {
            (Some(dimensions), Some((dtype, element_size)), Some(layout)) => Ok(
                Some(
                    Dataset {
                        dimensions,
                        dtype,
                        element_size,
                        address: layout.address,
                        size: layout.size,
                        attributes,
                    },
                ),
            ),
            _ => Ok(None),
        }
    }
}


/// The datasets of `entries` with their names, as mathematical values.
pub open spec fn dataset_views(entries: Seq<(String, Dataset)>) -> Seq<(Seq<char>, DatasetView)> {
    Seq::new(entries.len(), |i: int| (entries[i].0@, entries[i].1@))
}

/// Puts the dataset `value` under `name`.
pub fn put_dataset(entries: &mut Vec<(String, Dataset)>, name: String, value: Dataset)
    ensures
        dataset_views(final(entries)@) == spec_put(dataset_views(old(entries)@), name@, value@),
{
    let ghost before = entries@;
    put(entries, name, value);
    proof {
        lemma_first_named(names(before), name@, 0);
        assert(keys(dataset_views(before)) =~= names(before));
        assert(dataset_views(entries@) =~= spec_put(dataset_views(before), name@, value@));
    }
}

/// A group: its attributes, its datasets and the groups in it, each kind
/// under its names.
#[derive(Debug, PartialEq, Eq)]
pub struct Group {
    pub attributes: Vec<(String, Attribute)>,
    pub datasets: Vec<(String, Dataset)>,
    pub groups: Vec<(String, Group)>,
}

/// A group as a mathematical value.
pub struct GroupView {
    pub attributes: Seq<(Seq<char>, AttributeView)>,
    pub datasets: Seq<(Seq<char>, DatasetView)>,
    pub groups: Seq<(Seq<char>, GroupView)>,
}

impl Group {
    /// The group as a mathematical value.
    pub open spec fn model(&self) -> GroupView
        decreases self,
    {
        GroupView {
            attributes: attribute_views(self.attributes@),
            datasets: dataset_views(self.datasets@),
            groups: Seq::new(
                self.groups@.len(),
                |i: int|
                    if 0 <= i < self.groups@.len() {
                        (self.groups@[i].0@, self.groups@[i].1.model())
                    } else {
                        arbitrary()
                    },
            ),
        }
    }
}

impl View for Group {
    type V = GroupView;

    open spec fn view(&self) -> GroupView {
        self.model()
    }
}

/// The groups of `entries` with their names, as mathematical values.
pub open spec fn group_views(entries: Seq<(String, Group)>) -> Seq<(Seq<char>, GroupView)> {
    Seq::new(entries.len(), |i: int| (entries[i].0@, entries[i].1@))
}

/// The groups in a group are the views of its entries.
pub proof fn lemma_group_view(group: Group)
    ensures
        group@.groups == group_views(group.groups@),
{
    let views = group_views(group.groups@);
    assert(group@.groups.len() == views.len());
    assert forall|i: int| 0 <= i < views.len() implies group@.groups[i] == views[i] by {
        assert(group@.groups[i] == (group.groups@[i].0@, group.groups@[i].1.model()));
    }
    assert(group@.groups =~= views);
}

/// Puts the group `value` under `name`.
pub fn put_group(entries: &mut Vec<(String, Group)>, name: String, value: Group)
    ensures
        group_views(final(entries)@) == spec_put(group_views(old(entries)@), name@, value@),
{
    let ghost before = entries@;
    put(entries, name, value);
    proof {
        lemma_first_named(names(before), name@, 0);
        assert(keys(group_views(before)) =~= names(before));
        assert(group_views(entries@) =~= spec_put(group_views(before), name@, value@));
    }
}

/// `address`, or the length of the file if `address` lies behind its end.
pub open spec fn clamp(address: u64, len: nat) -> int {
    if address <= len {
        address as int
    } else {
        len as int
    }
}

/// The bytes of the file from `address` on; none if `address` lies behind
/// the end of the file.
pub open spec fn spec_from(contents: Seq<u8>, address: u64) -> Seq<u8> {
    contents.skip(clamp(address, contents.len()))
}

/// The bytes of the file from `address` on.
pub fn from_address(contents: &[u8], address: u64) -> (r: &[u8])
    ensures
        r@ == spec_from(contents@, address),
{
    let len = contents.len();
    let at = if address <= len as u64 {
        address as usize
    } else {
        len
    };
    slice_subrange(contents, at, len)
}

/// The messages of the object whose header stands at `address`: as many as
/// the header counts.
#[verifier::opaque]
pub open spec fn spec_object_messages(contents: Seq<u8>, address: u64) -> Result<
    Seq<MessageView>,
    Fault,
> {
    match spec_object_header(spec_from(contents, address)) {
        Err(fault) => Err(fault),
        Ok((n, header)) => Stream::start(
            contents,
            (clamp(address, contents.len()) + n) as usize,
        ).messages(contents, header.total_number_of_header_messages as nat, Seq::empty()),
    }
}

/// Reads the messages of the object whose header stands at `address`.
pub fn object_messages(contents: &[u8], address: u64) -> (r: Result<Vec<Message>, ParseError>)
    ensures
        match r {
            Ok(messages) => spec_object_messages(contents@, address) == Ok::<
                Seq<MessageView>,
                Fault,
            >(views(messages@)),
            Err(e) => spec_object_messages(contents@, address) == Err::<Seq<MessageView>, Fault>(
                e@,
            ),
        },
{
    reveal(spec_object_messages);
    let input = from_address(contents, address);
    let (rest, header) = object_header(input)?;
    let pos = contents.len() - rest.len();
    read_messages(contents, pos, header.total_number_of_header_messages)
}

/// The symbol table message that makes an object a group: the first of its
/// messages from `from` on that is no continuation, if that is a symbol
/// table message.
pub open spec fn spec_group_table(messages: Seq<MessageView>, from: int) -> Option<
    crate::parse::header::SymbolTable,
>
    decreases messages.len() - from,
{
    if from < 0 || from >= messages.len() {
        None
    } else {
        match messages[from] {
            MessageView::ObjectHeaderContinuation(_) => spec_group_table(messages, from + 1),
            MessageView::SymbolTable(table) => Some(table),
            _ => None,
        }
    }
}

/// Finds the symbol table message that makes an object a group.
pub fn group_table(messages: &Vec<Message>) -> (r: Option<crate::parse::header::SymbolTable>)
    ensures
        r == spec_group_table(views(messages@), 0),
{
    let mut i: usize = 0;
    while i < messages.len()
        invariant
            i <= messages@.len(),
            spec_group_table(views(messages@), 0) == spec_group_table(views(messages@), i as int),
        decreases messages@.len() - i,
    {
        match &messages[i] {
            Message::ObjectHeaderContinuation(_) => {},
            Message::SymbolTable(table) => {
                return Some(*table);
            },
            _ => {
                return None;
            },
        }
        i += 1;
    }
    None
}

/// The name of the child `entry`: the name that stands in the data segment
/// of the local heap `heap` at the entry's offset. The name ends at its zero
/// byte, or where the data segment or the file ends.
#[verifier::opaque]
pub open spec fn spec_heap_name(contents: Seq<u8>, heap: LocalHeap, entry: SymbolTableEntry) -> Result<
    Seq<char>,
    Fault,
> {
    let start = heap.address_of_data_segment + entry.link_name_offset;
    let end = heap.address_of_data_segment + heap.data_segment_size;
    if entry.link_name_offset >= heap.data_segment_size || start >= contents.len() {
        Err(Fault::Truncated { context: Context::LocalHeap, need: 1 })
    } else if end <= contents.len() {
        Ok(spec_name(contents.subrange(start, end)))
    } else {
        Ok(spec_name(contents.subrange(start, contents.len() as int)))
    }
}

/// Reads the name of the child `entry` from the local heap `heap`.
pub fn heap_name(contents: &[u8], heap: &LocalHeap, entry: &SymbolTableEntry) -> (r: Result<
    String,
    ParseError,
>)
    ensures
        match r {
            Ok(text) => spec_heap_name(contents@, *heap, *entry) == Ok::<Seq<char>, Fault>(text@),
            Err(e) => spec_heap_name(contents@, *heap, *entry) == Err::<Seq<char>, Fault>(e@),
        },
{
    reveal(spec_heap_name);
    let len = contents.len();
    let segment = heap.address_of_data_segment;
    if entry.link_name_offset >= heap.data_segment_size || segment >= len as u64
        || entry.link_name_offset >= len as u64 - segment {
        Err(ParseError::Truncated { context: Context::LocalHeap, need: 1 })
    } else {
        let start = (segment + entry.link_name_offset) as usize;
        let end = if heap.data_segment_size <= len as u64 - segment {
            (segment + heap.data_segment_size) as usize
        } else {
            len
        };
        Ok(name(slice_subrange(contents, start, end)))
    }
}

/// The datasets and the groups found in a group so far.
pub struct Children {
    pub datasets: Seq<(Seq<char>, DatasetView)>,
    pub groups: Seq<(Seq<char>, GroupView)>,
}

/// The fault of a file whose groups lie too deep.
pub open spec fn too_deep() -> Fault {
    Fault::UnsupportedVariant { context: Context::GroupDepth, value: MAX_GROUP_DEPTH as u64 }
}

/// What the child `entry` adds to the children of a group. An object whose
/// first message is a symbol table message is a group: it is read with its
/// children, and the attributes among its messages are its attributes. Any
/// other object with a dataspace, a datatype and a layout is a dataset. An
/// object that is neither is a fault.
pub open spec fn spec_child(
    contents: Seq<u8>,
    widths: Widths,
    depth: nat,
    heap: LocalHeap,
    entry: SymbolTableEntry,
    so_far: Children,
) -> Result<Children, Fault>
    decreases depth, 0nat, 0nat,
{
    if depth == 0 {
        Err(too_deep())
    } else {
        match spec_heap_name(contents, heap, entry) {
            Err(fault) => Err(fault),
            Ok(name) => match spec_object_messages(contents, entry.object_header_address) {
                Err(fault) => Err(fault),
                Ok(messages) => match spec_group_table(messages, 0) {
                    Some(table) => match spec_group(contents, table, widths, (depth - 1) as nat) {
                        Err(fault) => Err(fault),
                        Ok(group) => match attributes_from(messages, 0, group.attributes) {
                            Err(fault) => Err(fault),
                            Ok(attributes) => Ok(
                                Children {
                                    groups: spec_put(
                                        so_far.groups,
                                        name,
                                        GroupView { attributes, ..group },
                                    ),
                                    ..so_far
                                },
                            ),
                        },
                    },
                    None => match spec_dataset(messages) {
                        Err(fault) => Err(fault),
                        Ok(Some(dataset)) => Ok(
                            Children {
                                datasets: spec_put(so_far.datasets, name, dataset),
                                ..so_far
                            },
                        ),
                        Ok(None) => Err(Fault::UnrecognizedObject(name)),
                    },
                },
            },
        }
    }
}

/// What the entries of a symbol table node add, from the entry `from` on.
pub open spec fn spec_entries(
    contents: Seq<u8>,
    widths: Widths,
    depth: nat,
    heap: LocalHeap,
    entries: Seq<SymbolTableEntry>,
    from: int,
    so_far: Children,
) -> Result<Children, Fault>
    decreases depth, 1nat, entries.len() - from,
{
    if from < 0 || from >= entries.len() {
        Ok(so_far)
    } else {
        match spec_child(contents, widths, depth, heap, entries[from], so_far) {
            Err(fault) => Err(fault),
            Ok(next) => spec_entries(contents, widths, depth, heap, entries, from + 1, next),
        }
    }
}

/// What the symbol table nodes of a B-tree node add, from the entry `from`
/// of the B-tree node on.
pub open spec fn spec_nodes(
    contents: Seq<u8>,
    widths: Widths,
    depth: nat,
    heap: LocalHeap,
    nodes: Seq<GroupEntry>,
    from: int,
    so_far: Children,
) -> Result<Children, Fault>
    decreases depth, 2nat, nodes.len() - from,
{
    if from < 0 || from >= nodes.len() {
        Ok(so_far)
    } else {
        match spec_symbol_table(
            spec_from(contents, nodes[from].pointer_to_symbol_table),
            widths.offset_size,
        ) {
            Err(fault) => Err(fault),
            Ok((_, table)) => match spec_entries(
                contents,
                widths,
                depth,
                heap,
                table.entries,
                0,
                so_far,
            ) {
                Err(fault) => Err(fault),
                Ok(next) => spec_nodes(contents, widths, depth, heap, nodes, from + 1, next),
            },
        }
    }
}

/// The group whose B-tree and local heap `table` names, with its children
/// and without attributes. The B-tree must be a single node of level 0;
/// `depth` says how deep groups may lie in this one, itself counted.
pub open spec fn spec_group(
    contents: Seq<u8>,
    table: crate::parse::header::SymbolTable,
    widths: Widths,
    depth: nat,
) -> Result<GroupView, Fault>
    decreases depth, 3nat, 0nat,
{
    if depth == 0 {
        Err(too_deep())
    } else {
        match spec_hdf5_node(spec_from(contents, table.btree_address), widths.offset_size) {
            Err(fault) => Err(fault),
            Ok((_, node)) => if node.node_level > 0 {
                Err(
                    Fault::UnsupportedVariant {
                        context: Context::NonLeafBtree,
                        value: node.node_level as u64,
                    },
                )
            } else {
                match spec_local_heap(
                    spec_from(contents, table.local_heap_address),
                    widths.offset_size,
                    widths.length_size,
                ) {
                    Err(fault) => Err(fault),
                    Ok((_, heap)) => match spec_nodes(
                        contents,
                        widths,
                        depth,
                        heap,
                        node.entries,
                        0,
                        Children { datasets: Seq::empty(), groups: Seq::empty() },
                    ) {
                        Err(fault) => Err(fault),
                        Ok(children) => Ok(
                            GroupView {
                                attributes: Seq::empty(),
                                datasets: children.datasets,
                                groups: children.groups,
                            },
                        ),
                    },
                }
            },
        }
    }
}

/// The children in `datasets` and `groups`, as a mathematical value.
pub open spec fn children(datasets: Seq<(String, Dataset)>, groups: Seq<(String, Group)>) -> Children {
    Children { datasets: dataset_views(datasets), groups: group_views(groups) }
}

/// Reads the child `entry` of a group into `datasets` or `groups`.
fn child(
    contents: &[u8],
    widths: Widths,
    depth: u32,
    heap: &LocalHeap,
    entry: &SymbolTableEntry,
    datasets: &mut Vec<(String, Dataset)>,
    groups: &mut Vec<(String, Group)>,
) -> (r: Result<(), ParseError>)
    ensures
        match r {
            Ok(_) => spec_child(
                contents@,
                widths,
                depth as nat,
                *heap,
                *entry,
                children(old(datasets)@, old(groups)@),
            ) == Ok::<Children, Fault>(children(final(datasets)@, final(groups)@)),
            Err(e) => spec_child(
                contents@,
                widths,
                depth as nat,
                *heap,
                *entry,
                children(old(datasets)@, old(groups)@),
            ) == Err::<Children, Fault>(e@),
        },
    decreases depth, 0nat, 0nat,
{
    if depth == 0 {
        return Err(
            ParseError::UnsupportedVariant {
                context: Context::GroupDepth,
                value: MAX_GROUP_DEPTH as u64,
            },
        );
    }
    let name = heap_name(contents, heap, entry)?;
    let messages = object_messages(contents, entry.object_header_address)?;
    match group_table(&messages) {
        Some(table) => {
            let mut group = group_at(contents, table, widths, depth - 1)?;
            let ghost found = group@;
            let mut attributes: Vec<(String, Attribute)> = Vec::new();
            proof {
                lemma_group_view(group);
                assert(attribute_views(attributes@) =~= found.attributes);
            }
            collect_attributes(messages, &mut attributes)?;
            group.attributes = attributes;
            proof {
                lemma_group_view(group);
            }
            put_group(groups, name, group);
        },
        None => {
            match Dataset::from(messages)? {
                Some(dataset) => {
                    put_dataset(datasets, name, dataset);
                },
                None => {
                    return Err(ParseError::UnrecognizedObject(name));
                },
            }
        },
    }
    Ok(())
}

/// Reads the children that the entries of a symbol table node name.
fn table_children(
    contents: &[u8],
    widths: Widths,
    depth: u32,
    heap: &LocalHeap,
    entries: &Vec<SymbolTableEntry>,
    datasets: &mut Vec<(String, Dataset)>,
    groups: &mut Vec<(String, Group)>,
) -> (r: Result<(), ParseError>)
    ensures
        match r {
            Ok(_) => spec_entries(
                contents@,
                widths,
                depth as nat,
                *heap,
                entries@,
                0,
                children(old(datasets)@, old(groups)@),
            ) == Ok::<Children, Fault>(children(final(datasets)@, final(groups)@)),
            Err(e) => spec_entries(
                contents@,
                widths,
                depth as nat,
                *heap,
                entries@,
                0,
                children(old(datasets)@, old(groups)@),
            ) == Err::<Children, Fault>(e@),
        },
    decreases depth, 1nat, 0nat,
{
    let ghost begin = children(datasets@, groups@);
    let mut i: usize = 0;
    while i < entries.len()
        invariant
            i <= entries@.len(),
            begin == children(old(datasets)@, old(groups)@),
            spec_entries(
                contents@,
                widths,
                depth as nat,
                *heap,
                entries@,
                i as int,
                children(datasets@, groups@),
            ) == spec_entries(contents@, widths, depth as nat, *heap, entries@, 0, begin),
        decreases entries@.len() - i,
    {
        child(contents, widths, depth, heap, &entries[i], datasets, groups)?;
        i += 1;
    }
    Ok(())
}

/// Reads the children that the symbol table nodes of a B-tree node name.
fn node_children(
    contents: &[u8],
    widths: Widths,
    depth: u32,
    heap: &LocalHeap,
    nodes: &Vec<GroupEntry>,
    datasets: &mut Vec<(String, Dataset)>,
    groups: &mut Vec<(String, Group)>,
) -> (r: Result<(), ParseError>)
    ensures
        match r {
            Ok(_) => spec_nodes(
                contents@,
                widths,
                depth as nat,
                *heap,
                nodes@,
                0,
                children(old(datasets)@, old(groups)@),
            ) == Ok::<Children, Fault>(children(final(datasets)@, final(groups)@)),
            Err(e) => spec_nodes(
                contents@,
                widths,
                depth as nat,
                *heap,
                nodes@,
                0,
                children(old(datasets)@, old(groups)@),
            ) == Err::<Children, Fault>(e@),
        },
    decreases depth, 2nat, 0nat,
{
    let ghost begin = children(datasets@, groups@);
    let mut i: usize = 0;
    while i < nodes.len()
        invariant
            i <= nodes@.len(),
            begin == children(old(datasets)@, old(groups)@),
            spec_nodes(
                contents@,
                widths,
                depth as nat,
                *heap,
                nodes@,
                i as int,
                children(datasets@, groups@),
            ) == spec_nodes(contents@, widths, depth as nat, *heap, nodes@, 0, begin),
        decreases nodes@.len() - i,
    {
        let input = from_address(contents, nodes[i].pointer_to_symbol_table);
        let (_, table) = symbol_table(input, widths.offset_size)?;
        table_children(contents, widths, depth, heap, &table.entries, datasets, groups)?;
        i += 1;
    }
    Ok(())
}

/// Reads the group whose B-tree and local heap `table` names, with its
/// children and without attributes, where groups may lie `depth` deep.
pub fn group_at(
    contents: &[u8],
    table: crate::parse::header::SymbolTable,
    widths: Widths,
    depth: u32,
) -> (r: Result<Group, ParseError>)
    ensures
        match r {
            Ok(group) => spec_group(contents@, table, widths, depth as nat) == Ok::<
                GroupView,
                Fault,
            >(group@),
            Err(e) => spec_group(contents@, table, widths, depth as nat) == Err::<GroupView, Fault>(
                e@,
            ),
        },
    decreases depth, 3nat, 0nat,
{
    if depth == 0 {
        return Err(
            ParseError::UnsupportedVariant {
                context: Context::GroupDepth,
                value: MAX_GROUP_DEPTH as u64,
            },
        );
    }
    let (_, node) = hdf5_node(from_address(contents, table.btree_address), widths.offset_size)?;
    if node.node_level > 0 {
        return Err(
            ParseError::UnsupportedVariant {
                context: Context::NonLeafBtree,
                value: node.node_level as u64,
            },
        );
    }
    let (_, heap) = local_heap(
        from_address(contents, table.local_heap_address),
        widths.offset_size,
        widths.length_size,
    )?;
    let mut datasets: Vec<(String, Dataset)> = Vec::new();
    let mut groups: Vec<(String, Group)> = Vec::new();
    assert(dataset_views(datasets@) =~= Seq::empty());
    assert(group_views(groups@) =~= Seq::empty());
    node_children(contents, widths, depth, &heap, &node.entries, &mut datasets, &mut groups)?;
    let group = Group { attributes: Vec::new(), datasets, groups };
    proof {
        lemma_group_view(group);
        assert(attribute_views(group.attributes@) =~= Seq::empty());
    }
    Ok(group)
}

/// Reads the group whose B-tree and local heap `symbol_table` names, with
/// the datasets and the groups in it, from a file with addresses and
/// lengths of eight bytes. Groups may lie [`MAX_GROUP_DEPTH`] deep.
pub fn parse_group(contents: &[u8], symbol_table: crate::parse::header::SymbolTable) -> (r: Result<
    Group,
    Error,
>)
    ensures
        match r {
            Ok(group) => spec_group(
                contents@,
                symbol_table,
                Widths { offset_size: 8, length_size: 8 },
                MAX_GROUP_DEPTH as nat,
            ) == Ok::<GroupView, Fault>(group@),
            Err(Error::Parse(e)) => spec_group(
                contents@,
                symbol_table,
                Widths { offset_size: 8, length_size: 8 },
                MAX_GROUP_DEPTH as nat,
            ) == Err::<GroupView, Fault>(e@),
            Err(Error::Io(_)) => false,
        },
{
    match group_at(
        contents,
        symbol_table,
        Widths { offset_size: 8, length_size: 8 },
        MAX_GROUP_DEPTH,
    ) {
        Ok(group) => Ok(group),
        Err(e) => Err(Error::Parse(e)),
    }
}


/// Where the first slash of `path` at or after `from` stands, or the length
/// of `path` if there is none.
pub open spec fn first_slash(path: Seq<char>, from: int) -> int
    decreases path.len() - from,
{
    if from < 0 || from >= path.len() || path[from] == '/' {
        from
    } else {
        first_slash(path, from + 1)
    }
}

/// The dataset that `path` leads to from `group`. The path is taken apart
/// at its slashes. A part before a slash that names a dataset of the group
/// in hand leads to that dataset, whatever follows it; else it names the
/// group to go on in. The last part names a dataset.
pub open spec fn spec_find_dataset(group: GroupView, path: Seq<char>) -> Option<DatasetView>
    decreases path.len(),
{
    let i = first_slash(path, 0);
    if 0 <= i < path.len() {
        let first = path.subrange(0, i);
        match spec_get(group.datasets, first) {
            Some(dataset) => Some(dataset),
            None => match spec_get(group.groups, first) {
                Some(inner) => spec_find_dataset(inner, path.subrange(i + 1, path.len() as int)),
                None => None,
            },
        }
    } else {
        spec_get(group.datasets, path)
    }
}

impl Group {
    /// Finds the dataset that `dataset_path` leads to from this group.
    pub fn find_dataset(&self, dataset_path: &str) -> (r: Option<&Dataset>)
        ensures
            match r {
                Some(dataset) => spec_find_dataset(self@, dataset_path@) == Some(dataset@),
                None => spec_find_dataset(self@, dataset_path@) is None,
            },
        decreases dataset_path@.len(),
    {
        proof {
            lemma_group_view(*self);
            assert(keys(dataset_views(self.datasets@)) =~= names(self.datasets@));
            assert(keys(group_views(self.groups@)) =~= names(self.groups@));
        }
        let len = dataset_path.unicode_len();
        let mut i: usize = 0;
        while i < len && dataset_path.get_char(i) != '/'
            invariant
                i <= len,
                len == dataset_path@.len(),
                first_slash(dataset_path@, 0) == first_slash(dataset_path@, i as int),
            decreases len - i,
        {
            i += 1;
        }
        if i < len {
            let first = dataset_path.substring_char(0, i).to_owned();
            let at = find(&self.datasets, &first);
            if at < self.datasets.len() {
                Some(&self.datasets[at].1)
            } else {
                let inner = find(&self.groups, &first);
                if inner < self.groups.len() {
                    self.groups[inner].1.find_dataset(dataset_path.substring_char(i + 1, len))
                } else {
                    None
                }
            }
        } else {
            let whole = dataset_path.to_owned();
            let at = find(&self.datasets, &whole);
            if at < self.datasets.len() {
                Some(&self.datasets[at].1)
            } else {
                None
            }
        }
    }
}


/// The name of a child is read the same whatever follows its zero byte:
/// where the bytes `name`, which hold no zero byte, and a zero byte stand
/// in the file where the heap and the entry say, and the data segment of
/// the heap holds them, the name of the child is the text that `name`
/// encodes, whatever bytes `after` come behind.
pub proof fn lemma_heap_name_ignores_rest(
    before: Seq<u8>,
    name: Seq<u8>,
    after: Seq<u8>,
    heap: LocalHeap,
    entry: SymbolTableEntry,
)
    requires
        heap.address_of_data_segment + entry.link_name_offset == before.len(),
        entry.link_name_offset + name.len() < heap.data_segment_size,
        forall|i: int| 0 <= i < name.len() ==> name[i] != 0,
    ensures
        spec_heap_name(before + name + seq![0u8] + after, heap, entry) == Ok::<Seq<char>, Fault>(
            utf8_lossy(name),
        ),
{
    reveal(spec_heap_name);
    let contents = before + name + seq![0u8] + after;
    let start = before.len() as int;
    let end = heap.address_of_data_segment + heap.data_segment_size;
    let stop = if end <= contents.len() {
        end
    } else {
        contents.len() as int
    };
    let segment = contents.subrange(start, stop);
    let rest = segment.skip(name.len() as int + 1);
    assert(segment =~= name + seq![0u8] + rest);
    lemma_c_string_ignores_rest(name, rest);
}

/// A group with an empty B-tree has no children: where the B-tree node of
/// a group is a leaf without entries and the local heap of the group can
/// be read, the group has no datasets and no groups in it.
pub proof fn lemma_empty_btree(
    contents: Seq<u8>,
    table: crate::parse::header::SymbolTable,
    widths: Widths,
    depth: nat,
)
    requires
        depth > 0,
        spec_hdf5_node(spec_from(contents, table.btree_address), widths.offset_size) matches Ok(
            (_, node),
        ) && node.node_level == 0 && node.entries.len() == 0,
        spec_local_heap(
            spec_from(contents, table.local_heap_address),
            widths.offset_size,
            widths.length_size,
        ) is Ok,
    ensures
        spec_group(contents, table, widths, depth) == Ok::<GroupView, Fault>(
            GroupView {
                attributes: Seq::empty(),
                datasets: Seq::empty(),
                groups: Seq::empty(),
            },
        ),
{
}


impl DatasetView {
    /// Whether no two attributes of the dataset have the same name.
    pub open spec fn wf(self) -> bool {
        distinct(keys(self.attributes))
    }
}

impl GroupView {
    /// Whether no two attributes, no two datasets and no two groups of the
    /// group have the same name, and the same holds of every dataset and
    /// of every group in it.
    pub open spec fn wf(self) -> bool
        decreases self,
    {
        &&& distinct(keys(self.attributes))
        &&& distinct(keys(self.datasets))
        &&& distinct(keys(self.groups))
        &&& forall|i: int| 0 <= i < self.datasets.len() ==> (#[trigger] self.datasets[i]).1.wf()
        &&& forall|i: int|
            0 <= i < self.groups.len() ==> {
                let inner = #[trigger] self.groups[i];
                inner.1.wf()
            }
    }
}

impl Children {
    /// Whether no two datasets and no two groups have the same name, and
    /// every one of them is well formed.
    pub open spec fn wf(self) -> bool {
        &&& distinct(keys(self.datasets))
        &&& distinct(keys(self.groups))
        &&& forall|i: int| 0 <= i < self.datasets.len() ==> (#[trigger] self.datasets[i]).1.wf()
        &&& forall|i: int| 0 <= i < self.groups.len() ==> (#[trigger] self.groups[i]).1.wf()
    }
}

/// The attributes that are read have distinct names.
pub proof fn lemma_attributes_distinct(
    messages: Seq<MessageView>,
    from: int,
    so_far: Seq<(Seq<char>, AttributeView)>,
)
    requires
        distinct(keys(so_far)),
        attributes_from(messages, from, so_far) is Ok,
    ensures
        distinct(keys(attributes_from(messages, from, so_far)->Ok_0)),
    decreases messages.len() - from,
{
    if 0 <= from < messages.len() {
        match messages[from] {
            MessageView::Attribute(a) => {
                let value = spec_attribute_value(a)->Ok_0;
                lemma_put(so_far, a.name, value);
                lemma_attributes_distinct(messages, from + 1, spec_put(so_far, a.name, value));
            },
            _ => {
                lemma_attributes_distinct(messages, from + 1, so_far);
            },
        }
    }
}

/// What is known of a dataset keeps the names of its attributes distinct.
pub proof fn lemma_dataset_parts_distinct(
    messages: Seq<MessageView>,
    from: int,
    parts: DatasetParts,
)
    requires
        distinct(keys(parts.attributes)),
        dataset_parts(messages, from, parts) is Ok,
    ensures
        distinct(keys(dataset_parts(messages, from, parts)->Ok_0.attributes)),
    decreases messages.len() - from,
{
    if 0 <= from < messages.len() {
        let next = dataset_step(parts, messages[from])->Ok_0;
        match messages[from] {
            MessageView::Attribute(a) => {
                lemma_put(parts.attributes, a.name, spec_attribute_value(a)->Ok_0);
            },
            _ => {},
        }
        lemma_dataset_parts_distinct(messages, from + 1, next);
    }
}

/// The attributes of a dataset that is read have distinct names.
pub proof fn lemma_dataset_wf(messages: Seq<MessageView>)
    requires
        spec_dataset(messages) matches Ok(Some(_)),
    ensures
        spec_dataset(messages)->Ok_0->0.wf(),
{
    reveal(spec_dataset);
    let begin = DatasetParts {
        dimensions: None,
        dtype: None,
        layout: None,
        attributes: Seq::empty(),
    };
    lemma_dataset_parts_distinct(messages, 0, begin);
}

/// Putting a well-formed dataset under a name keeps the children well
/// formed.
proof fn lemma_put_dataset_wf(so_far: Children, name: Seq<char>, dataset: DatasetView)
    requires
        so_far.wf(),
        dataset.wf(),
    ensures
        (Children { datasets: spec_put(so_far.datasets, name, dataset), ..so_far }).wf(),
{
    lemma_put(so_far.datasets, name, dataset);
    lemma_first_named(keys(so_far.datasets), name, 0);
    let after = spec_put(so_far.datasets, name, dataset);
    assert forall|i: int| 0 <= i < after.len() implies (#[trigger] after[i]).1.wf() by {
        if i < so_far.datasets.len() && i != first_named(keys(so_far.datasets), name, 0) {
            assert(after[i] == so_far.datasets[i]);
        }
    }
}

/// Putting a well-formed group under a name keeps the children well formed.
proof fn lemma_put_group_wf(so_far: Children, name: Seq<char>, group: GroupView)
    requires
        so_far.wf(),
        group.wf(),
    ensures
        (Children { groups: spec_put(so_far.groups, name, group), ..so_far }).wf(),
{
    lemma_put(so_far.groups, name, group);
    lemma_first_named(keys(so_far.groups), name, 0);
    let after = spec_put(so_far.groups, name, group);
    assert forall|i: int| 0 <= i < after.len() implies (#[trigger] after[i]).1.wf() by {
        if i < so_far.groups.len() && i != first_named(keys(so_far.groups), name, 0) {
            assert(after[i] == so_far.groups[i]);
        }
    }
}

/// A group with other attributes is well formed if the attributes have
/// distinct names.
proof fn lemma_attributes_wf(group: GroupView, attributes: Seq<(Seq<char>, AttributeView)>)
    requires
        group.wf(),
        distinct(keys(attributes)),
    ensures
        (GroupView { attributes, ..group }).wf(),
{
    let other = GroupView { attributes, ..group };
    assert forall|i: int| 0 <= i < other.groups.len() implies {
        let inner = #[trigger] other.groups[i];
        inner.1.wf()
    } by {
        assert(other.groups[i] == group.groups[i]);
    }
}

/// A child that is read keeps the children well formed.
pub proof fn lemma_child_wf(
    contents: Seq<u8>,
    widths: Widths,
    depth: nat,
    heap: LocalHeap,
    entry: SymbolTableEntry,
    so_far: Children,
)
    requires
        so_far.wf(),
        spec_child(contents, widths, depth, heap, entry, so_far) is Ok,
    ensures
        spec_child(contents, widths, depth, heap, entry, so_far)->Ok_0.wf(),
    decreases depth, 0nat, 0nat,
{
    let name = spec_heap_name(contents, heap, entry)->Ok_0;
    let messages = spec_object_messages(contents, entry.object_header_address)->Ok_0;
    match spec_group_table(messages, 0) {
        Some(table) => {
            let group = spec_group(contents, table, widths, (depth - 1) as nat)->Ok_0;
            lemma_group_wf(contents, table, widths, (depth - 1) as nat);
            let attributes = attributes_from(messages, 0, group.attributes)->Ok_0;
            lemma_attributes_distinct(messages, 0, group.attributes);
            lemma_attributes_wf(group, attributes);
            lemma_put_group_wf(so_far, name, GroupView { attributes, ..group });
        },
        None => {
            lemma_dataset_wf(messages);
            lemma_put_dataset_wf(so_far, name, spec_dataset(messages)->Ok_0->0);
        },
    }
}

/// The children that the entries of a symbol table node name stay well
/// formed.
pub proof fn lemma_entries_wf(
    contents: Seq<u8>,
    widths: Widths,
    depth: nat,
    heap: LocalHeap,
    entries: Seq<SymbolTableEntry>,
    from: int,
    so_far: Children,
)
    requires
        so_far.wf(),
        spec_entries(contents, widths, depth, heap, entries, from, so_far) is Ok,
    ensures
        spec_entries(contents, widths, depth, heap, entries, from, so_far)->Ok_0.wf(),
    decreases depth, 1nat, entries.len() - from,
{
    if 0 <= from < entries.len() {
        lemma_child_wf(contents, widths, depth, heap, entries[from], so_far);
        let next = spec_child(contents, widths, depth, heap, entries[from], so_far)->Ok_0;
        lemma_entries_wf(contents, widths, depth, heap, entries, from + 1, next);
    }
}

/// The children that the symbol table nodes of a B-tree node name stay
/// well formed.
pub proof fn lemma_nodes_wf(
    contents: Seq<u8>,
    widths: Widths,
    depth: nat,
    heap: LocalHeap,
    nodes: Seq<GroupEntry>,
    from: int,
    so_far: Children,
)
    requires
        so_far.wf(),
        spec_nodes(contents, widths, depth, heap, nodes, from, so_far) is Ok,
    ensures
        spec_nodes(contents, widths, depth, heap, nodes, from, so_far)->Ok_0.wf(),
    decreases depth, 2nat, nodes.len() - from,
{
    if 0 <= from < nodes.len() {
        let table = spec_symbol_table(
            spec_from(contents, nodes[from].pointer_to_symbol_table),
            widths.offset_size,
        )->Ok_0.1;
        lemma_entries_wf(contents, widths, depth, heap, table.entries, 0, so_far);
        let next = spec_entries(contents, widths, depth, heap, table.entries, 0, so_far)->Ok_0;
        lemma_nodes_wf(contents, widths, depth, heap, nodes, from + 1, next);
    }
}

/// In a group that is read no name stands twice: not among its attributes,
/// not among its datasets and not among its groups, and the same holds of
/// every dataset and every group in it.
pub proof fn lemma_group_wf(
    contents: Seq<u8>,
    table: crate::parse::header::SymbolTable,
    widths: Widths,
    depth: nat,
)
    requires
        spec_group(contents, table, widths, depth) is Ok,
    ensures
        spec_group(contents, table, widths, depth)->Ok_0.wf(),
    decreases depth, 3nat, 0nat,
{
    let node = spec_hdf5_node(spec_from(contents, table.btree_address), widths.offset_size)->Ok_0.1;
    let heap = spec_local_heap(
        spec_from(contents, table.local_heap_address),
        widths.offset_size,
        widths.length_size,
    )->Ok_0.1;
    let begin = Children { datasets: Seq::empty(), groups: Seq::empty() };
    lemma_nodes_wf(contents, widths, depth, heap, node.entries, 0, begin);
    let children = spec_nodes(contents, widths, depth, heap, node.entries, 0, begin)->Ok_0;
    let group = spec_group(contents, table, widths, depth)->Ok_0;
    assert forall|i: int| 0 <= i < group.groups.len() implies {
        let inner = #[trigger] group.groups[i];
        inner.1.wf()
    } by {
        assert(children.groups[i].1.wf());
    }
}

} // verus!
