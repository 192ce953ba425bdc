//! The structures of a file: superblock, symbol tables, B-tree nodes, heaps
//! and object headers.

use vstd::prelude::*;

pub mod header;
pub mod message;

pub use message::{
    attribute, data_layout, dataspace, datatype, fill_value, header_message,
    object_header_continuation, object_modification_time, symbol_table_message,
};

use crate::error::{Context, Fault, ParseError};
use crate::wire::{
    address_at, agrees, agrees_view, outcome, u16_at, u32_at, u64_at, Parsed, Reader, Scan,
};

verus! {

/// The eight bytes that every file starts with.
pub const SIGNATURE: [u8; 8] = [0x89, 0x48, 0x44, 0x46, 0x0d, 0x0a, 0x1a, 0x0a];

/// The signature of a symbol table node.
pub const SNOD: [u8; 4] = [0x53, 0x4e, 0x4f, 0x44];

/// The signature of a B-tree node.
pub const TREE: [u8; 4] = [0x54, 0x52, 0x45, 0x45];

/// The signature of a local heap.
pub const HEAP: [u8; 4] = [0x48, 0x45, 0x41, 0x50];

/// The signature of a global heap collection.
pub const GCOL: [u8; 4] = [0x47, 0x43, 0x4f, 0x4c];

/// One reserved byte.
pub const ZERO1: [u8; 1] = [0];

/// Three reserved bytes.
pub const ZERO3: [u8; 3] = [0, 0, 0];

/// Four reserved bytes.
pub const ZERO4: [u8; 4] = [0, 0, 0, 0];

/// One named child of a group.
#[derive(Clone, Copy, Debug, PartialEq, Eq, Structural)]
pub struct SymbolTableEntry {
    pub link_name_offset: u64,
    pub object_header_address: u64,
    pub cache_type: u32,
    pub address_of_btree: u64,
    pub address_of_name_heap: u64,
}

/// The symbol table entry that starts at `pos`, with addresses of
/// `offset_size` bytes.
pub open spec fn symbol_table_entry_at(input: Seq<u8>, pos: int, offset_size: u8) -> SymbolTableEntry {
    SymbolTableEntry {
        link_name_offset: address_at(input, pos, offset_size) as u64,
        object_header_address: address_at(input, pos + offset_size, offset_size) as u64,
        cache_type: u32_at(input, pos + 2 * offset_size) as u32,
        address_of_btree: address_at(input, pos + 2 * offset_size + 8, offset_size) as u64,
        address_of_name_heap: address_at(input, pos + 3 * offset_size + 8, offset_size) as u64,
    }
}

impl Scan {
    /// A symbol table entry: two addresses, the cache type, four reserved
    /// bytes, two addresses.
    pub open spec fn symbol_table_entry(self, offset_size: u8) -> Scan {
        self.within(Context::SymbolTableEntry).address(offset_size).address(offset_size).bytes(
            4,
        ).tag(ZERO4@).address(offset_size).address(offset_size).within(self.context)
    }
}

/// What [`symbol_table_entry`] makes of `input`.
pub open spec fn spec_symbol_table_entry(input: Seq<u8>, offset_size: u8) -> Parsed<
    SymbolTableEntry,
> {
    outcome(
        Scan::start(input, Context::SymbolTableEntry).symbol_table_entry(offset_size),
        symbol_table_entry_at(input, 0, offset_size),
    )
}

/// Reads a symbol table entry where `rd` stands.
pub fn read_symbol_table_entry(rd: &mut Reader, offset_size: u8) -> (r: Result<
    SymbolTableEntry,
    ParseError,
>)
    ensures
        match r {
            Ok(entry) => final(rd)@.fault is None && final(rd)@ == old(rd)@.symbol_table_entry(
                offset_size,
            ) && entry == symbol_table_entry_at(old(rd)@.input, old(rd)@.pos, offset_size),
            Err(e) => old(rd)@.symbol_table_entry(offset_size).fault == Some(e@),
        },
{
    let outer = rd.context();
    rd.within(Context::SymbolTableEntry);
    let link_name_offset = rd.address(offset_size)?;
    let object_header_address = rd.address(offset_size)?;
    let cache_type = rd.le_u32()?;
    rd.tag(ZERO4.as_slice())?;
    let address_of_btree = rd.address(offset_size)?;
    let address_of_name_heap = rd.address(offset_size)?;
    rd.within(outer);
    Ok(
        SymbolTableEntry {
            link_name_offset,
            object_header_address,
            cache_type,
            address_of_btree,
            address_of_name_heap,
        },
    )
}

/// Parses a symbol table entry with addresses of `offset_size` bytes.
pub fn symbol_table_entry(input: &[u8], offset_size: u8) -> (r: Result<
    (&[u8], SymbolTableEntry),
    ParseError,
>)
    ensures
        agrees(r, input@, spec_symbol_table_entry(input@, offset_size)),
{
    let mut rd = Reader::new(input, Context::SymbolTableEntry);
    let entry = read_symbol_table_entry(&mut rd, offset_size)?;
    Ok((rd.rest(), entry))
}


/// The preamble of a file: its global settings and the entry of the root group.
#[derive(Clone, Copy, Debug, PartialEq, Eq, Structural)]
pub struct Hdf5Superblock {
    pub superblock_version: u8,
    pub free_space_storage_version: u8,
    pub root_group_symbol_table_entry_version: u8,
    pub shared_header_message_format_version: u8,
    pub offset_size: u8,
    pub length_size: u8,
    pub group_leaf_node_k: u16,
    pub group_internal_node_k: u16,
    pub file_consistency_flags: u32,
    pub base_address: u64,
    pub address_of_file_free_space_info: u64,
    pub end_of_file_address: u64,
    pub driver_information_block_address: u64,
    pub root_group_symbol_table_entry: SymbolTableEntry,
}

/// The superblock that `input` starts with.
pub open spec fn superblock_at(input: Seq<u8>) -> Hdf5Superblock {
    let o = input[13];
    Hdf5Superblock {
        superblock_version: input[8],
        free_space_storage_version: input[9],
        root_group_symbol_table_entry_version: input[10],
        shared_header_message_format_version: input[12],
        offset_size: o,
        length_size: input[14],
        group_leaf_node_k: u16_at(input, 16) as u16,
        group_internal_node_k: u16_at(input, 18) as u16,
        file_consistency_flags: u32_at(input, 20) as u32,
        base_address: address_at(input, 24, o) as u64,
        address_of_file_free_space_info: address_at(input, 24 + o, o) as u64,
        end_of_file_address: address_at(input, 24 + 2 * o, o) as u64,
        driver_information_block_address: address_at(input, 24 + 3 * o, o) as u64,
        root_group_symbol_table_entry: symbol_table_entry_at(input, 24 + 4 * o, o),
    }
}

/// How a superblock is laid out: the signature, the version, which must be
/// 0, the other versions and sizes with two reserved bytes among them, the
/// node sizes and flags, four addresses and the entry of the root group.
pub open spec fn superblock_layout(input: Seq<u8>) -> Scan {
    let o = input[13];
    Scan::start(input, Context::Superblock).magic(SIGNATURE@).bytes(1).require(
        input[8] == 0,
        Fault::UnsupportedVersion { context: Context::Superblock, version: input[8] },
    ).bytes(1).bytes(1).tag(ZERO1@).bytes(1).bytes(1).bytes(1).tag(ZERO1@).bytes(2).bytes(2).bytes(
        4,
    ).address(o).address(o).address(o).address(o).symbol_table_entry(o)
}

/// What [`superblock`] makes of `input`.
pub open spec fn spec_superblock(input: Seq<u8>) -> Parsed<Hdf5Superblock> {
    outcome(superblock_layout(input), superblock_at(input))
}

/// Parses the superblock at the start of a file. Only version 0 is read.
pub fn superblock(input: &[u8]) -> (r: Result<(&[u8], Hdf5Superblock), ParseError>)
    ensures
        agrees(r, input@, spec_superblock(input@)),
{
    let mut rd = Reader::new(input, Context::Superblock);
    rd.magic(SIGNATURE.as_slice())?;
    let superblock_version = rd.le_u8()?;
    if superblock_version != 0 {
        return Err(
            ParseError::UnsupportedVersion {
                context: Context::Superblock,
                version: superblock_version,
            },
        );
    }
    let free_space_storage_version = rd.le_u8()?;
    let root_group_symbol_table_entry_version = rd.le_u8()?;
    rd.tag(ZERO1.as_slice())?;
    let shared_header_message_format_version = rd.le_u8()?;
    let offset_size = rd.le_u8()?;
    let length_size = rd.le_u8()?;
    rd.tag(ZERO1.as_slice())?;
    let group_leaf_node_k = rd.le_u16()?;
    let group_internal_node_k = rd.le_u16()?;
    let file_consistency_flags = rd.le_u32()?;
    let base_address = rd.address(offset_size)?;
    let address_of_file_free_space_info = rd.address(offset_size)?;
    let end_of_file_address = rd.address(offset_size)?;
    let driver_information_block_address = rd.address(offset_size)?;
    let root_group_symbol_table_entry = read_symbol_table_entry(&mut rd, offset_size)?;
    Ok(
        (
            rd.rest(),
            Hdf5Superblock {
                superblock_version,
                free_space_storage_version,
                root_group_symbol_table_entry_version,
                shared_header_message_format_version,
                offset_size,
                length_size,
                group_leaf_node_k,
                group_internal_node_k,
                file_consistency_flags,
                base_address,
                address_of_file_free_space_info,
                end_of_file_address,
                driver_information_block_address,
                root_group_symbol_table_entry,
            },
        ),
    )
}

/// A symbol table node: the entries of some children of a group.
#[derive(Clone, Debug, PartialEq, Eq)]
pub struct SymbolTable {
    pub version: u8,
    pub entries: Vec<SymbolTableEntry>,
}

/// A symbol table node as a mathematical value.
pub struct SymbolTableView {
    pub version: u8,
    pub entries: Seq<SymbolTableEntry>,
}

impl View for SymbolTable {
    type V = SymbolTableView;

    open spec fn view(&self) -> SymbolTableView {
        SymbolTableView { version: self.version, entries: self.entries@ }
    }
}

/// How many bytes a symbol table entry takes.
pub open spec fn symbol_table_entry_size(offset_size: u8) -> int {
    4 * offset_size + 8
}

/// The `count` symbol table entries that start at `pos`.
pub open spec fn symbol_table_entries_at(
    input: Seq<u8>,
    pos: int,
    count: nat,
    offset_size: u8,
) -> Seq<SymbolTableEntry> {
    Seq::new(
        count,
        |i: int|
            symbol_table_entry_at(input, pos + i * symbol_table_entry_size(offset_size), offset_size),
    )
}

impl Scan {
    /// `count` symbol table entries, one after the other.
    pub open spec fn symbol_table_entries(self, count: nat, offset_size: u8) -> Scan
        decreases count,
    {
        if self.fault is Some || count == 0 {
            self
        } else {
            self.symbol_table_entries((count - 1) as nat, offset_size).symbol_table_entry(
                offset_size,
            )
        }
    }

    /// A reading that met no fault after `count` entries moved on by their
    /// sizes and changed nothing else.
    pub proof fn lemma_symbol_table_entries(self, count: nat, offset_size: u8)
        requires
            self.symbol_table_entries(count, offset_size).fault is None,
        ensures
            self.fault is None,
            self.symbol_table_entries(count, offset_size) == (Scan {
                pos: self.pos + count * symbol_table_entry_size(offset_size),
                ..self
            }),
        decreases count,
    {
        if count > 0 {
            let before = self.symbol_table_entries((count - 1) as nat, offset_size);
            assert(before.fault is None);
            self.lemma_symbol_table_entries((count - 1) as nat, offset_size);
            let size = symbol_table_entry_size(offset_size);
            assert(count * size == (count - 1) * size + size) by (nonlinear_arith);
        } else {
            assert(count * symbol_table_entry_size(offset_size) == 0) by (nonlinear_arith)
                requires
                    count == 0,
            ;
        }
    }

    /// The first fault among the entries stays the fault of every longer run.
    pub proof fn lemma_symbol_table_entries_fault(self, first: nat, count: nat, offset_size: u8)
        requires
            first <= count,
            self.symbol_table_entries(first, offset_size).fault is Some,
        ensures
            self.symbol_table_entries(count, offset_size).fault == self.symbol_table_entries(
                first,
                offset_size,
            ).fault,
        decreases count,
    {
        if first < count {
            self.lemma_symbol_table_entries_fault(first, (count - 1) as nat, offset_size);
        }
    }
}

/// How a symbol table node is laid out: the signature, a version, a
/// reserved byte, the number of entries and the entries.
pub open spec fn symbol_table_layout(input: Seq<u8>, offset_size: u8) -> Scan {
    Scan::start(input, Context::SymbolTable).magic(SNOD@).bytes(1).tag(ZERO1@).bytes(
        2,
    ).symbol_table_entries(u16_at(input, 6) as nat, offset_size)
}

/// What [`symbol_table`] makes of `input`.
pub open spec fn spec_symbol_table(input: Seq<u8>, offset_size: u8) -> Parsed<SymbolTableView> {
    outcome(
        symbol_table_layout(input, offset_size),
        SymbolTableView {
            version: input[4],
            entries: symbol_table_entries_at(input, 8, u16_at(input, 6) as nat, offset_size),
        },
    )
}

/// Parses a symbol table node with addresses of `offset_size` bytes.
pub fn symbol_table(input: &[u8], offset_size: u8) -> (r: Result<(&[u8], SymbolTable), ParseError>)
    ensures
        agrees_view(r, input@, spec_symbol_table(input@, offset_size)),
{
    let mut rd = Reader::new(input, Context::SymbolTable);
    rd.magic(SNOD.as_slice())?;
    let version = rd.le_u8()?;
    rd.tag(ZERO1.as_slice())?;
    let number_of_symbols = rd.le_u16()?;
    let ghost head = rd@;
    let ghost count = number_of_symbols as nat;
    let mut entries: Vec<SymbolTableEntry> = Vec::new();
    let mut i: u16 = 0;
    while i < number_of_symbols
        invariant
            i <= number_of_symbols,
            count == number_of_symbols,
            count == u16_at(input@, 6),
            head == Scan::start(input@, Context::SymbolTable).magic(SNOD@).bytes(1).tag(
                ZERO1@,
            ).bytes(2),
            head.fault is None,
            head.input == input@,
            head.pos == 8,
            rd@ == head.symbol_table_entries(i as nat, offset_size),
            rd@.fault is None,
            entries@ == symbol_table_entries_at(input@, 8, i as nat, offset_size),
        decreases number_of_symbols - i,
    {
        proof {
            head.lemma_symbol_table_entries(i as nat, offset_size);
        }
        let entry = match read_symbol_table_entry(&mut rd, offset_size) {
            Ok(entry) => entry,
            Err(e) => {
                proof {
                    assert(head.symbol_table_entries((i + 1) as nat, offset_size)
                        == head.symbol_table_entries(i as nat, offset_size).symbol_table_entry(
                        offset_size,
                    ));
                    head.lemma_symbol_table_entries_fault((i + 1) as nat, count, offset_size);
                }
                return Err(e);
            },
        };
        entries.push(entry);
        i += 1;
        assert(entries@ =~= symbol_table_entries_at(input@, 8, i as nat, offset_size));
    }
    proof {
        head.lemma_symbol_table_entries(count, offset_size);
    }
    Ok((rd.rest(), SymbolTable { version, entries }))
}

/// One entry of a group's B-tree node: where a symbol table node is found.
#[derive(Clone, Copy, Debug, PartialEq, Eq, Structural)]
pub struct GroupEntry {
    pub byte_offset_into_local_heap: u64,
    pub pointer_to_symbol_table: u64,
}

/// The B-tree entry of a group that starts at `pos`.
pub open spec fn group_entry_at(input: Seq<u8>, pos: int) -> GroupEntry {
    GroupEntry {
        byte_offset_into_local_heap: u64_at(input, pos) as u64,
        pointer_to_symbol_table: u64_at(input, pos + 8) as u64,
    }
}

/// The `count` B-tree entries of a group that start at `pos`.
pub open spec fn group_entries_at(input: Seq<u8>, pos: int, count: nat) -> Seq<GroupEntry> {
    Seq::new(count, |i: int| group_entry_at(input, pos + 16 * i))
}

impl Scan {
    /// `count` B-tree entries of a group: two numbers of eight bytes each.
    pub open spec fn group_entries(self, count: nat) -> Scan {
        self.within(Context::GroupEntry).fields(2 * (count as int), 8).within(self.context)
    }
}

/// What [`group_entry`] makes of `input`.
pub open spec fn spec_group_entry(input: Seq<u8>) -> Parsed<GroupEntry> {
    outcome(Scan::start(input, Context::GroupEntry).group_entries(1), group_entry_at(input, 0))
}

/// Parses one B-tree entry of a group.
pub fn group_entry(input: &[u8]) -> (r: Result<(&[u8], GroupEntry), ParseError>)
    ensures
        agrees(r, input@, spec_group_entry(input@)),
{
    let mut rd = Reader::new(input, Context::GroupEntry);
    let byte_offset_into_local_heap = rd.le_u64()?;
    let pointer_to_symbol_table = rd.le_u64()?;
    Ok((rd.rest(), GroupEntry { byte_offset_into_local_heap, pointer_to_symbol_table }))
}

/// Reads `count` B-tree entries of a group where `rd` stands.
pub fn read_group_entries(rd: &mut Reader, count: u16) -> (r: Result<Vec<GroupEntry>, ParseError>)
    ensures
        match r {
            Ok(entries) => final(rd)@.fault is None && final(rd)@ == old(rd)@.group_entries(
                count as nat,
            ) && entries@ == group_entries_at(old(rd)@.input, old(rd)@.pos, count as nat),
            Err(e) => old(rd)@.group_entries(count as nat).fault == Some(e@),
        },
{
    let outer = rd.context();
    let _ = rd.left();
    rd.within(Context::GroupEntry);
    let ghost start = rd@;
    let mut entries: Vec<GroupEntry> = Vec::new();
    let mut i: u16 = 0;
    while i < count
        invariant
            i <= count,
            start == old(rd)@.within(Context::GroupEntry),
            old(rd)@.fault is None,
            outer == old(rd)@.context,
            0 <= start.pos,
            rd@ == (Scan { pos: start.pos + 16 * i, ..start }),
            rd@.pos <= start.input.len(),
            entries@ == group_entries_at(start.input, start.pos, i as nat),
        decreases count - i,
    {
        let byte_offset_into_local_heap = rd.le_u64()?;
        let pointer_to_symbol_table = rd.le_u64()?;
        entries.push(GroupEntry { byte_offset_into_local_heap, pointer_to_symbol_table });
        i += 1;
        let _ = rd.left();
        assert(entries@ =~= group_entries_at(start.input, start.pos, i as nat));
    }
    rd.within(outer);
    Ok(entries)
}

/// A node of a group's B-tree.
#[derive(Clone, Debug, PartialEq, Eq)]
pub struct GroupNode {
    pub node_level: u8,
    pub entries_used: u16,
    pub address_of_left_sibling: u64,
    pub address_of_right_sibling: u64,
    pub entries: Vec<GroupEntry>,
}

/// A node of a group's B-tree as a mathematical value.
pub struct GroupNodeView {
    pub node_level: u8,
    pub entries_used: u16,
    pub address_of_left_sibling: u64,
    pub address_of_right_sibling: u64,
    pub entries: Seq<GroupEntry>,
}

impl View for GroupNode {
    type V = GroupNodeView;

    open spec fn view(&self) -> GroupNodeView {
        GroupNodeView {
            node_level: self.node_level,
            entries_used: self.entries_used,
            address_of_left_sibling: self.address_of_left_sibling,
            address_of_right_sibling: self.address_of_right_sibling,
            entries: self.entries@,
        }
    }
}

/// The node of a group's B-tree that starts at `pos`, after the signature
/// and the node type.
pub open spec fn group_node_at(input: Seq<u8>, pos: int, offset_size: u8) -> GroupNodeView {
    GroupNodeView {
        node_level: input[pos],
        entries_used: u16_at(input, pos + 1) as u16,
        address_of_left_sibling: address_at(input, pos + 3, offset_size) as u64,
        address_of_right_sibling: address_at(input, pos + 3 + offset_size, offset_size) as u64,
        entries: group_entries_at(
            input,
            pos + 3 + 2 * offset_size,
            u16_at(input, pos + 1) as nat,
        ),
    }
}

impl Scan {
    /// The node of a group's B-tree, after the signature and the node type:
    /// the level, the number of entries, the addresses of the two siblings
    /// and the entries.
    pub open spec fn group_node(self, offset_size: u8) -> Scan {
        self.within(Context::GroupNode).bytes(1).bytes(2).address(offset_size).address(
            offset_size,
        ).group_entries(u16_at(self.input, self.pos + 1) as nat).within(self.context)
    }
}

/// Reads the node of a group's B-tree where `rd` stands.
pub fn read_group_node(rd: &mut Reader, offset_size: u8) -> (r: Result<GroupNode, ParseError>)
    ensures
        match r {
            Ok(node) => final(rd)@.fault is None && final(rd)@ == old(rd)@.group_node(offset_size)
                && node@ == group_node_at(old(rd)@.input, old(rd)@.pos, offset_size),
            Err(e) => old(rd)@.group_node(offset_size).fault == Some(e@),
        },
{
    let outer = rd.context();
    let _ = rd.left();
    rd.within(Context::GroupNode);
    let node_level = rd.le_u8()?;
    let entries_used = rd.le_u16()?;
    let address_of_left_sibling = rd.address(offset_size)?;
    let address_of_right_sibling = rd.address(offset_size)?;
    let entries = read_group_entries(rd, entries_used)?;
    rd.within(outer);
    Ok(
        GroupNode {
            node_level,
            entries_used,
            address_of_left_sibling,
            address_of_right_sibling,
            entries,
        },
    )
}

/// What [`group_node`] makes of `input`.
pub open spec fn spec_group_node(input: Seq<u8>, offset_size: u8) -> Parsed<GroupNodeView> {
    outcome(
        Scan::start(input, Context::GroupNode).group_node(offset_size),
        group_node_at(input, 0, offset_size),
    )
}

/// Parses the node of a group's B-tree, after the signature and the node
/// type.
pub fn group_node(input: &[u8], offset_size: u8) -> (r: Result<(&[u8], GroupNode), ParseError>)
    ensures
        agrees_view(r, input@, spec_group_node(input@, offset_size)),
{
    let mut rd = Reader::new(input, Context::GroupNode);
    let node = read_group_node(&mut rd, offset_size)?;
    Ok((rd.rest(), node))
}

/// How a B-tree node is laid out: the signature, the node type, which must
/// be 0 for a group's node, and the node.
pub open spec fn hdf5_node_layout(input: Seq<u8>, offset_size: u8) -> Scan {
    Scan::start(input, Context::Hdf5Node).magic(TREE@).bytes(1).require(
        input[4] == 0,
        Fault::UnsupportedVariant { context: Context::BtreeNodeType, value: input[4] as u64 },
    ).group_node(offset_size)
}

/// What [`hdf5_node`] makes of `input`.
pub open spec fn spec_hdf5_node(input: Seq<u8>, offset_size: u8) -> Parsed<GroupNodeView> {
    outcome(hdf5_node_layout(input, offset_size), group_node_at(input, 5, offset_size))
}

/// Parses a B-tree node. Only the nodes of groups are read.
pub fn hdf5_node(input: &[u8], offset_size: u8) -> (r: Result<(&[u8], GroupNode), ParseError>)
    ensures
        agrees_view(r, input@, spec_hdf5_node(input@, offset_size)),
{
    let mut rd = Reader::new(input, Context::Hdf5Node);
    rd.magic(TREE.as_slice())?;
    let node_type = rd.le_u8()?;
    if node_type != 0 {
        return Err(
            ParseError::UnsupportedVariant {
                context: Context::BtreeNodeType,
                value: node_type as u64,
            },
        );
    }
    let node = read_group_node(&mut rd, offset_size)?;
    Ok((rd.rest(), node))
}

/// A local heap: where the names of a group's children are kept.
#[derive(Clone, Copy, Debug, PartialEq, Eq, Structural)]
pub struct LocalHeap {
    pub version: u8,
    pub data_segment_size: u64,
    pub offset_to_head_of_freelist: u64,
    pub address_of_data_segment: u64,
}

/// How a local heap is laid out: the signature, a version, three reserved
/// bytes, two lengths and the address of the data segment.
pub open spec fn local_heap_layout(input: Seq<u8>, offset_size: u8, length_size: u8) -> Scan {
    Scan::start(input, Context::LocalHeap).magic(HEAP@).bytes(1).tag(ZERO3@).address(
        length_size,
    ).address(length_size).address(offset_size)
}

/// What [`local_heap`] makes of `input`.
pub open spec fn spec_local_heap(input: Seq<u8>, offset_size: u8, length_size: u8) -> Parsed<
    LocalHeap,
> {
    outcome(
        local_heap_layout(input, offset_size, length_size),
        LocalHeap {
            version: input[4],
            data_segment_size: address_at(input, 8, length_size) as u64,
            offset_to_head_of_freelist: address_at(input, 8 + length_size, length_size) as u64,
            address_of_data_segment: address_at(input, 8 + 2 * length_size, offset_size) as u64,
        },
    )
}

/// Parses a local heap with addresses of `offset_size` bytes and lengths of
/// `length_size` bytes.
pub fn local_heap(input: &[u8], offset_size: u8, length_size: u8) -> (r: Result<
    (&[u8], LocalHeap),
    ParseError,
>)
    ensures
        agrees(r, input@, spec_local_heap(input@, offset_size, length_size)),
{
    let mut rd = Reader::new(input, Context::LocalHeap);
    rd.magic(HEAP.as_slice())?;
    let version = rd.le_u8()?;
    rd.tag(ZERO3.as_slice())?;
    let data_segment_size = rd.address(length_size)?;
    let offset_to_head_of_freelist = rd.address(length_size)?;
    let address_of_data_segment = rd.address(offset_size)?;
    Ok(
        (
            rd.rest(),
            LocalHeap {
                version,
                data_segment_size,
                offset_to_head_of_freelist,
                address_of_data_segment,
            },
        ),
    )
}

/// The preamble of a named object; its messages follow it.
#[derive(Clone, Copy, Debug, PartialEq, Eq, Structural)]
pub struct ObjectHeader {
    pub version: u8,
    pub total_number_of_header_messages: u16,
    pub object_reference_count: u32,
    pub object_header_size: u32,
}

/// How an object header is laid out: the version, which must be 1, a
/// reserved byte, the number of messages, the reference count, the size of
/// the header and four bytes that align what follows.
pub open spec fn object_header_layout(input: Seq<u8>) -> Scan {
    Scan::start(input, Context::ObjectHeader).bytes(1).require(
        input[0] == 1,
        Fault::UnsupportedVersion { context: Context::ObjectHeader, version: input[0] },
    ).tag(ZERO1@).bytes(2).bytes(4).bytes(4).bytes(4)
}

/// What [`object_header`] makes of `input`.
pub open spec fn spec_object_header(input: Seq<u8>) -> Parsed<ObjectHeader> {
    outcome(
        object_header_layout(input),
        ObjectHeader {
            version: input[0],
            total_number_of_header_messages: u16_at(input, 2) as u16,
            object_reference_count: u32_at(input, 4) as u32,
            object_header_size: u32_at(input, 8) as u32,
        },
    )
}

/// Parses the preamble of an object header. Only version 1 is read.
pub fn object_header(input: &[u8]) -> (r: Result<(&[u8], ObjectHeader), ParseError>)
    ensures
        agrees(r, input@, spec_object_header(input@)),
{
    let mut rd = Reader::new(input, Context::ObjectHeader);
    let version = rd.le_u8()?;
    if version != 1 {
        return Err(ParseError::UnsupportedVersion { context: Context::ObjectHeader, version });
    }
    rd.tag(ZERO1.as_slice())?;
    let total_number_of_header_messages = rd.le_u16()?;
    let object_reference_count = rd.le_u32()?;
    let object_header_size = rd.le_u32()?;
    let _ = rd.take(4)?;
    Ok(
        (
            rd.rest(),
            ObjectHeader {
                version,
                total_number_of_header_messages,
                object_reference_count,
                object_header_size,
            },
        ),
    )
}


/// The numbers of eight bytes each from where `scan` stands up to the first
/// that is zero, after those of `so_far`; the zero is read and left out.
pub open spec fn zero_terminated(scan: Scan, so_far: Seq<u64>) -> Parsed<Seq<u64>>
    decreases scan.left(),
{
    let next = scan.bytes(8);
    let value = u64_at(scan.input, scan.pos) as u64;
    if next.fault is Some {
        Err(next.fault->0)
    } else if value == 0 {
        Ok((next.pos, so_far))
    } else {
        zero_terminated(next, so_far.push(value))
    }
}

/// What [`read_until_zero`] makes of `input`.
pub open spec fn spec_read_until_zero(input: Seq<u8>) -> Parsed<Seq<u64>> {
    zero_terminated(Scan::start(input, Context::ChunkKey), Seq::empty())
}

/// Reads numbers of eight bytes each up to the first that is zero, as the
/// offsets in the key of a chunk are written. Returns the bytes after the
/// zero, and the numbers before it.
pub fn read_until_zero(remaining: &[u8]) -> (r: Result<(&[u8], Vec<u64>), ParseError>)
    ensures
        agrees_view(r, remaining@, spec_read_until_zero(remaining@)),
{
    let mut rd = Reader::new(remaining, Context::ChunkKey);
    let mut output: Vec<u64> = Vec::new();
    loop
        invariant
            rd@.fault is None,
            rd@.input == remaining@,
            0 <= rd@.pos <= remaining@.len(),
            zero_terminated(rd@, output@) == spec_read_until_zero(remaining@),
        decreases rd@.left(),
    {
        let val = rd.le_u64()?;
        if val == 0 {
            return Ok((rd.rest(), output));
        }
        output.push(val);
        let _ = rd.left();
    }
}

/// The object of a global heap collection that has the index `desired`,
/// looked for among the objects from where `scan` stands. An object is its
/// index, a reference count, four reserved bytes, its size and its bytes.
pub open spec fn heap_object(scan: Scan, desired: u16) -> Parsed<Seq<u8>>
    decreases scan.left(),
{
    let head = scan.bytes(2).bytes(2).tag(ZERO4@).bytes(8);
    let size = u64_at(scan.input, scan.pos + 8);
    let body = head.bytes(size);
    if body.fault is Some {
        Err(body.fault->0)
    } else if u16_at(scan.input, scan.pos) == desired {
        Ok((body.pos, scan.input.subrange(head.pos, head.pos + size)))
    } else {
        heap_object(body, desired)
    }
}

/// How a global heap collection starts: the signature, the version, which
/// must be 1, three reserved bytes and the size of the collection.
pub open spec fn global_heap_layout(input: Seq<u8>) -> Scan {
    Scan::start(input, Context::GlobalHeap).magic(GCOL@).bytes(1).require(
        input[4] == 1,
        Fault::UnsupportedVersion { context: Context::GlobalHeap, version: input[4] },
    ).tag(ZERO3@).bytes(8)
}

/// What [`global_heap_nth_item`] makes of `input`.
pub open spec fn spec_global_heap_nth_item(input: Seq<u8>, desired_index: u16) -> Parsed<Seq<u8>> {
    heap_object(global_heap_layout(input), desired_index)
}

/// Finds the object with the index `desired_index` in the global heap
/// collection that `input` starts with: the first one with that index.
/// Returns the bytes after the object, and the bytes of the object.
pub fn global_heap_nth_item(input: &[u8], desired_index: u16) -> (r: Result<
    (&[u8], &[u8]),
    ParseError,
>)
    ensures
        match r {
            Ok((rest, object)) => spec_global_heap_nth_item(input@, desired_index) matches Ok(
                (n, bytes),
            ) && 0 <= n <= input@.len() && rest@ == input@.skip(n) && object@ == bytes,
            Err(e) => spec_global_heap_nth_item(input@, desired_index) == Err::<
                (int, Seq<u8>),
                Fault,
            >(e@),
        },
{
    let mut rd = Reader::new(input, Context::GlobalHeap);
    rd.magic(GCOL.as_slice())?;
    let version = rd.le_u8()?;
    if version != 1 {
        return Err(ParseError::UnsupportedVersion { context: Context::GlobalHeap, version });
    }
    rd.tag(ZERO3.as_slice())?;
    let _collection_size = rd.le_u64()?;
    loop
        invariant
            rd@.fault is None,
            rd@.input == input@,
            0 <= rd@.pos <= input@.len(),
            heap_object(rd@, desired_index) == spec_global_heap_nth_item(input@, desired_index),
        decreases rd@.left(),
    {
        let heap_object_index = rd.le_u16()?;
        let _reference_count = rd.le_u16()?;
        rd.tag(ZERO4.as_slice())?;
        let object_size = rd.le_u64()?;
        let object_data = rd.take_long(object_size)?;
        if heap_object_index == desired_index {
            return Ok((rd.rest(), object_data));
        }
        let _ = rd.left();
    }
}

} // verus!
