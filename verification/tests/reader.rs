use hdf5::index::{group_at, object_messages, Widths, MAX_GROUP_DEPTH};
use hdf5::parse::header::{Message, ObjectHeaderContinuation, ObjectModificationTime, SymbolTable};
use hdf5::{parse_group, Binary32, Binary64, Context, Error, Hdf5Dtype, Hdf5File, ParseError};

fn pad_to_8(bytes: &mut Vec<u8>) {
    while bytes.len() % 8 != 0 {
        bytes.push(0);
    }
}

fn padded(mut bytes: Vec<u8>) -> Vec<u8> {
    pad_to_8(&mut bytes);
    bytes
}

/// Appends `block` at the next multiple of 8 and returns its address.
fn add(image: &mut Vec<u8>, block: &[u8]) -> u64 {
    pad_to_8(image);
    let at = image.len() as u64;
    image.extend_from_slice(block);
    at
}

fn message(kind: u16, body: &[u8]) -> Vec<u8> {
    let mut frame = Vec::new();
    frame.extend_from_slice(&kind.to_le_bytes());
    frame.extend_from_slice(&(body.len() as u16).to_le_bytes());
    frame.extend_from_slice(&[0, 0, 0, 0]);
    frame.extend_from_slice(body);
    frame
}

fn dataspace(dims: &[u64]) -> Vec<u8> {
    let mut body = vec![1, dims.len() as u8, 0, 0, 0, 0, 0, 0];
    for d in dims {
        body.extend_from_slice(&d.to_le_bytes());
    }
    body
}

fn datatype(class: u8, bitfields: [u8; 3], size: u32, properties: &[u8]) -> Vec<u8> {
    let mut body = vec![0x10 | class, bitfields[0], bitfields[1], bitfields[2]];
    body.extend_from_slice(&size.to_le_bytes());
    body.extend_from_slice(properties);
    body
}

fn i32_type() -> Vec<u8> {
    datatype(0, [0x08, 0, 0], 4, &[0, 0, 32, 0])
}

fn i64_type() -> Vec<u8> {
    datatype(0, [0x08, 0, 0], 8, &[0, 0, 64, 0])
}

fn f32_type() -> Vec<u8> {
    datatype(1, [0x20, 0x1f, 0], 4, &[0, 0, 32, 0, 23, 8, 0, 23, 127, 0, 0, 0])
}

fn f64_type() -> Vec<u8> {
    datatype(1, [0x20, 0x3f, 0], 8, &[0, 0, 64, 0, 52, 11, 0, 52, 0xff, 0x03, 0, 0])
}

fn vlen_string_type() -> Vec<u8> {
    datatype(9, [0x01, 0, 0], 16, &[0x10, 0, 0, 0, 1, 0, 0, 0, 0, 0, 8, 0])
}

fn string_type(size: u32) -> Vec<u8> {
    datatype(3, [0, 0, 0], size, &[])
}

fn bool_type() -> Vec<u8> {
    datatype(8, [2, 0, 0], 1, &[0x10, 0, 0, 0, 1, 0, 0, 0])
}

fn layout(address: u64, size: u64) -> Vec<u8> {
    let mut body = vec![3, 1];
    body.extend_from_slice(&address.to_le_bytes());
    body.extend_from_slice(&size.to_le_bytes());
    body.extend_from_slice(&[0; 6]);
    body
}

fn attribute(name: &str, datatype: &[u8], dataspace: &[u8], data: &[u8]) -> Vec<u8> {
    let mut body = vec![1, 0];
    body.extend_from_slice(&((name.len() + 1) as u16).to_le_bytes());
    body.extend_from_slice(&(datatype.len() as u16).to_le_bytes());
    body.extend_from_slice(&(dataspace.len() as u16).to_le_bytes());
    let mut text = name.as_bytes().to_vec();
    text.push(0);
    body.extend_from_slice(&padded(text));
    body.extend_from_slice(&padded(datatype.to_vec()));
    body.extend_from_slice(&padded(dataspace.to_vec()));
    body.extend_from_slice(data);
    padded(body)
}

fn symbol_table_message(btree: u64, heap: u64) -> Vec<u8> {
    let mut body = Vec::new();
    body.extend_from_slice(&btree.to_le_bytes());
    body.extend_from_slice(&heap.to_le_bytes());
    body
}

fn continuation(offset: u64, length: u64) -> Vec<u8> {
    let mut body = Vec::new();
    body.extend_from_slice(&offset.to_le_bytes());
    body.extend_from_slice(&length.to_le_bytes());
    body
}

fn modification_time(seconds: u32) -> Vec<u8> {
    let mut body = vec![1, 0, 0, 0];
    body.extend_from_slice(&seconds.to_le_bytes());
    body
}

fn object_header(count: u16, frames: &[Vec<u8>]) -> Vec<u8> {
    let mut block = vec![1, 0];
    block.extend_from_slice(&count.to_le_bytes());
    block.extend_from_slice(&1u32.to_le_bytes());
    let size: usize = frames.iter().map(|f| f.len()).sum();
    block.extend_from_slice(&(size as u32).to_le_bytes());
    block.extend_from_slice(&[0; 4]);
    for frame in frames {
        block.extend_from_slice(frame);
    }
    block
}

fn entry(name_offset: u64, header: u64, cache: u32, btree: u64, heap: u64) -> Vec<u8> {
    let mut block = Vec::new();
    block.extend_from_slice(&name_offset.to_le_bytes());
    block.extend_from_slice(&header.to_le_bytes());
    block.extend_from_slice(&cache.to_le_bytes());
    block.extend_from_slice(&[0; 4]);
    block.extend_from_slice(&btree.to_le_bytes());
    block.extend_from_slice(&heap.to_le_bytes());
    block
}

enum Node {
    Dataset { datatype: Vec<u8>, dims: Vec<u64>, data: Vec<u8>, attributes: Vec<Vec<u8>> },
    Group { children: Vec<(String, Node)>, attributes: Vec<Vec<u8>> },
}

/// Writes the B-tree, the heap and the symbol table node of a group with
/// `children`, and returns the addresses of the B-tree and of the heap.
fn write_group(image: &mut Vec<u8>, children: &[(String, Node)]) -> (u64, u64) {
    let mut names = vec![0u8; 8];
    let mut entries = Vec::new();
    for (name, node) in children {
        let header = write_node(image, node);
        let offset = names.len() as u64;
        names.extend_from_slice(name.as_bytes());
        names.push(0);
        entries.push(entry(offset, header, 0, 0, 0));
    }
    let segment = add(image, &names);
    let mut heap = b"HEAP".to_vec();
    heap.extend_from_slice(&[0, 0, 0, 0]);
    heap.extend_from_slice(&(names.len() as u64).to_le_bytes());
    heap.extend_from_slice(&0u64.to_le_bytes());
    heap.extend_from_slice(&segment.to_le_bytes());
    let heap = add(image, &heap);
    let mut tree = b"TREE".to_vec();
    tree.extend_from_slice(&[0, 0]);
    if entries.is_empty() {
        tree.extend_from_slice(&0u16.to_le_bytes());
        tree.extend_from_slice(&u64::MAX.to_le_bytes());
        tree.extend_from_slice(&u64::MAX.to_le_bytes());
    } else {
        let mut snod = b"SNOD".to_vec();
        snod.extend_from_slice(&[1, 0]);
        snod.extend_from_slice(&(entries.len() as u16).to_le_bytes());
        for e in &entries {
            snod.extend_from_slice(e);
        }
        let snod = add(image, &snod);
        tree.extend_from_slice(&1u16.to_le_bytes());
        tree.extend_from_slice(&u64::MAX.to_le_bytes());
        tree.extend_from_slice(&u64::MAX.to_le_bytes());
        tree.extend_from_slice(&0u64.to_le_bytes());
        tree.extend_from_slice(&snod.to_le_bytes());
    }
    let tree = add(image, &tree);
    (tree, heap)
}

/// Writes an object and what it needs, and returns the address of its header.
fn write_node(image: &mut Vec<u8>, node: &Node) -> u64 {
    match node {
        Node::Dataset { datatype, dims, data, attributes } => {
            let at = add(image, data);
            let mut frames = vec![
                message(0x1, &dataspace(dims)),
                message(0x3, &padded(datatype.clone())),
                message(0x5, &[2, 2, 2, 0, 0, 0, 0, 0]),
                message(0x8, &layout(at, data.len() as u64)),
                message(0x12, &modification_time(1_600_000_000)),
            ];
            for a in attributes {
                frames.push(message(0xC, a));
            }
            let header = object_header(frames.len() as u16, &frames);
            add(image, &header)
        },
        Node::Group { children, attributes } => {
            let (tree, heap) = write_group(image, children);
            let mut frames = vec![message(0x11, &symbol_table_message(tree, heap))];
            for a in attributes {
                frames.push(message(0xC, a));
            }
            let header = object_header(frames.len() as u16, &frames);
            add(image, &header)
        },
    }
}

/// The bytes of a file with the root group `children` and `attributes`.
fn file(children: Vec<(String, Node)>, attributes: Vec<Vec<u8>>) -> Vec<u8> {
    let mut image = vec![0u8; 96];
    let (tree, heap) = write_group(&mut image, &children);
    let mut frames = vec![message(0x11, &symbol_table_message(tree, heap))];
    for a in &attributes {
        frames.push(message(0xC, a));
    }
    let header = object_header(frames.len() as u16, &frames);
    let header = add(&mut image, &header);
    pad_to_8(&mut image);
    let end = image.len() as u64;
    let mut superblock = vec![0x89, 0x48, 0x44, 0x46, 0x0d, 0x0a, 0x1a, 0x0a];
    superblock.extend_from_slice(&[0, 0, 0, 0, 0, 8, 8, 0]);
    superblock.extend_from_slice(&4u16.to_le_bytes());
    superblock.extend_from_slice(&16u16.to_le_bytes());
    superblock.extend_from_slice(&0u32.to_le_bytes());
    superblock.extend_from_slice(&0u64.to_le_bytes());
    superblock.extend_from_slice(&u64::MAX.to_le_bytes());
    superblock.extend_from_slice(&end.to_le_bytes());
    superblock.extend_from_slice(&u64::MAX.to_le_bytes());
    superblock.extend_from_slice(&entry(0, header, 1, tree, heap));
    assert_eq!(superblock.len(), 96);
    image[..96].copy_from_slice(&superblock);
    image
}

fn i32_dataset(values: &[i32]) -> Node {
    let mut data = Vec::new();
    for v in values {
        data.extend_from_slice(&v.to_le_bytes());
    }
    Node::Dataset {
        datatype: i32_type(),
        dims: vec![values.len() as u64],
        data,
        attributes: Vec::new(),
    }
}

fn f64_dataset(values: &[f64]) -> Node {
    let mut data = Vec::new();
    for v in values {
        data.extend_from_slice(&v.to_le_bytes());
    }
    Node::Dataset {
        datatype: f64_type(),
        dims: vec![values.len() as u64],
        data,
        attributes: Vec::new(),
    }
}

fn parse_error<T: std::fmt::Debug>(r: Result<T, Error>) -> ParseError {
    match r {
        Err(Error::Parse(e)) => e,
        other => panic!("expected a parse error, got {:?}", other),
    }
}

fn scalar_attributes() -> Vec<Vec<u8>> {
    vec![
        attribute("i32_attribute", &i32_type(), &dataspace(&[]), &12345i32.to_le_bytes()),
        attribute("i64_attribute", &i64_type(), &dataspace(&[]), &12345i64.to_le_bytes()),
        attribute("f32_attribute", &f32_type(), &dataspace(&[]), &1.2345f32.to_le_bytes()),
        attribute("f64_attribute", &f64_type(), &dataspace(&[]), &1.2345f64.to_le_bytes()),
    ]
}

#[test]
fn can_parse_attribute() {
    let image = file(Vec::new(), scalar_attributes());
    let file = Hdf5File::open(&image).expect("Unable to open the file");
    println!("{:#?}", file);

    assert_eq!(file.attr::<i32>("i32_attribute").unwrap(), 12345);
    assert_eq!(file.attr::<i64>("i64_attribute").unwrap(), 12345);
    assert_eq!(f32::from_bits(file.attr::<Binary32>("f32_attribute").unwrap().bits), 1.2345);
    assert_eq!(f64::from_bits(file.attr::<Binary64>("f64_attribute").unwrap().bits), 1.2345);
}

#[test]
fn attribute_of_another_type_is_a_mismatch() {
    let image = file(Vec::new(), scalar_attributes());
    let file = Hdf5File::open(&image).unwrap();
    assert_eq!(
        parse_error(file.attr::<i32>("f64_attribute")),
        ParseError::TypeMismatch { want: Hdf5Dtype::I32, got: Hdf5Dtype::F64 }
    );
    assert_eq!(
        parse_error(file.attr::<String>("i32_attribute")),
        ParseError::TypeMismatch { want: Hdf5Dtype::String, got: Hdf5Dtype::I32 }
    );
}

#[test]
fn attribute_that_is_missing_is_not_found() {
    let image = file(Vec::new(), scalar_attributes());
    let file = Hdf5File::open(&image).unwrap();
    assert_eq!(
        parse_error(file.attr::<i32>("nothing")),
        ParseError::NotFound("nothing".to_string())
    );
}

#[test]
fn later_attribute_of_a_name_replaces_the_earlier() {
    let image = file(
        Vec::new(),
        vec![
            attribute("a", &i32_type(), &dataspace(&[]), &1i32.to_le_bytes()),
            attribute("b", &i32_type(), &dataspace(&[]), &2i32.to_le_bytes()),
            attribute("a", &i32_type(), &dataspace(&[]), &3i32.to_le_bytes()),
        ],
    );
    let file = Hdf5File::open(&image).unwrap();
    assert_eq!(file.attr::<i32>("a").unwrap(), 3);
    assert_eq!(file.attr::<i32>("b").unwrap(), 2);
    let names: Vec<&str> = file.root_group().attributes.iter().map(|e| e.0.as_str()).collect();
    assert_eq!(names, vec!["a", "b"]);
}

#[test]
fn one_dimensional_dataset_under_root() {
    let image = file(vec![("T".to_string(), f64_dataset(&[1.0, 2.0, 3.0]))], Vec::new());
    let file = Hdf5File::open(&image).unwrap();
    let values = file.view_typed::<Binary64>("T").unwrap();
    let values: Vec<f64> = values.iter().map(|v| f64::from_bits(v.bits)).collect();
    assert_eq!(values, vec![1.0, 2.0, 3.0]);
    assert_eq!(
        parse_error(file.view_typed::<i32>("T")),
        ParseError::TypeMismatch { want: Hdf5Dtype::I32, got: Hdf5Dtype::F64 }
    );
    let dataset = file.root_group().find_dataset("T").unwrap();
    assert_eq!(dataset.dimensions, vec![3]);
    assert_eq!(dataset.dtype, Hdf5Dtype::F64);
    assert_eq!(dataset.element_size, 8);
    assert_eq!(dataset.size, 24);
}

#[test]
fn view_has_the_size_of_the_dataset() {
    let image = file(
        vec![
            ("a".to_string(), i32_dataset(&[1, 2, 3, 4, 5])),
            ("b".to_string(), f64_dataset(&[0.5])),
        ],
        Vec::new(),
    );
    let file = Hdf5File::open(&image).unwrap();
    for path in ["a", "b"] {
        let dataset = file.root_group().find_dataset(path).unwrap();
        let bytes = file.view(path).unwrap();
        assert_eq!(bytes.len() as u64, dataset.size);
        assert_eq!(dataset.size % dataset.element_size as u64, 0);
        let product: u64 = dataset.dimensions.iter().product();
        assert_eq!(product * dataset.element_size as u64, dataset.size);
        let at = dataset.address as usize;
        assert_eq!(bytes, &image[at..at + dataset.size as usize]);
    }
    assert_eq!(file.view("a").unwrap()[..4], 1i32.to_le_bytes());
}

#[test]
fn nested_group() {
    let image = file(
        vec![(
            "g".to_string(),
            Node::Group {
                children: vec![(
                    "sub".to_string(),
                    Node::Group {
                        children: vec![("x".to_string(), i32_dataset(&[10, 20, 30, 40]))],
                        attributes: Vec::new(),
                    },
                )],
                attributes: vec![attribute(
                    "note",
                    &i32_type(),
                    &dataspace(&[]),
                    &7i32.to_le_bytes(),
                )],
            },
        )],
        Vec::new(),
    );
    let file = Hdf5File::open(&image).unwrap();
    assert_eq!(file.view_typed::<i32>("g/sub/x").unwrap(), vec![10, 20, 30, 40]);
    assert_eq!(parse_error(file.view("g/sub/y")), ParseError::NotFound("g/sub/y".to_string()));
    assert_eq!(parse_error(file.view("g/x")), ParseError::NotFound("g/x".to_string()));
    assert_eq!(parse_error(file.view("h/sub/x")), ParseError::NotFound("h/sub/x".to_string()));
    let root = file.root_group();
    assert_eq!(root.groups.len(), 1);
    assert_eq!(root.groups[0].0, "g");
    assert_eq!(root.groups[0].1.attributes.len(), 1);
    assert_eq!(root.groups[0].1.attributes[0].0, "note");
    assert_eq!(root.groups[0].1.groups[0].0, "sub");
}

#[test]
fn dataset_is_preferred_to_a_group_of_the_same_name() {
    let image = file(
        vec![
            (
                "g".to_string(),
                Node::Group {
                    children: vec![("x".to_string(), i32_dataset(&[1]))],
                    attributes: Vec::new(),
                },
            ),
            ("g".to_string(), i32_dataset(&[2])),
        ],
        Vec::new(),
    );
    let file = Hdf5File::open(&image).unwrap();
    assert_eq!(file.view_typed::<i32>("g").unwrap(), vec![2]);
    assert_eq!(file.view_typed::<i32>("g/x").unwrap(), vec![2]);
}

#[test]
fn variable_length_string_attribute() {
    let mut heap = b"GCOL".to_vec();
    heap.extend_from_slice(&[1, 0, 0, 0]);
    heap.extend_from_slice(&4096u64.to_le_bytes());
    for (index, text) in [(1u16, &b"erg/s"[..]), (2u16, &b"photons/s/Hz"[..])] {
        heap.extend_from_slice(&index.to_le_bytes());
        heap.extend_from_slice(&1u16.to_le_bytes());
        heap.extend_from_slice(&[0; 4]);
        heap.extend_from_slice(&(text.len() as u64).to_le_bytes());
        heap.extend_from_slice(text);
    }
    let heap_address = 4096u64;
    let mut descriptor = 12u32.to_le_bytes().to_vec();
    descriptor.extend_from_slice(&heap_address.to_le_bytes());
    descriptor.extend_from_slice(&2u16.to_le_bytes());
    descriptor.extend_from_slice(&[0, 0]);
    let mut image = file(
        Vec::new(),
        vec![attribute("LOS/SB/units", &vlen_string_type(), &dataspace(&[]), &descriptor)],
    );
    let end = image.len();
    image.resize(4096, 0);
    image.extend_from_slice(&heap);
    let file = Hdf5File::open(&image).unwrap();
    assert_eq!(file.attr::<String>("LOS/SB/units").unwrap(), "photons/s/Hz");
    assert!(end <= 4096);

    let mut broken = image.clone();
    broken[4096] = b'X';
    let file = Hdf5File::open(&broken).unwrap();
    assert_eq!(
        parse_error(file.attr::<String>("LOS/SB/units")),
        ParseError::BadMagic { context: Context::GlobalHeap, found: b"XCOL".to_vec() }
    );
}

#[test]
fn fixed_length_string_and_bool() {
    let image = file(
        vec![
            (
                "names".to_string(),
                Node::Dataset {
                    datatype: string_type(4),
                    dims: vec![3],
                    data: b"ab\0\0wxyzq\0rs".to_vec(),
                    attributes: Vec::new(),
                },
            ),
            (
                "flags".to_string(),
                Node::Dataset {
                    datatype: bool_type(),
                    dims: vec![3],
                    data: vec![1, 0, 2],
                    attributes: Vec::new(),
                },
            ),
        ],
        vec![attribute("title", &string_type(5), &dataspace(&[]), b"hello")],
    );
    let file = Hdf5File::open(&image).unwrap();
    assert_eq!(file.view_typed::<String>("names").unwrap(), vec!["ab", "wxyz", "q"]);
    assert_eq!(file.view_typed::<bool>("flags").unwrap(), vec![true, false, true]);
    assert_eq!(file.attr::<String>("title").unwrap(), "hello");
}

#[test]
fn scalar_dataset_has_no_dimensions() {
    let image = file(
        vec![(
            "s".to_string(),
            Node::Dataset {
                datatype: i64_type(),
                dims: Vec::new(),
                data: (-5i64).to_le_bytes().to_vec(),
                attributes: Vec::new(),
            },
        )],
        Vec::new(),
    );
    let file = Hdf5File::open(&image).unwrap();
    let dataset = file.root_group().find_dataset("s").unwrap();
    assert_eq!(dataset.dimensions, Vec::<u64>::new());
    assert_eq!(dataset.size, dataset.element_size as u64);
    assert_eq!(file.view_typed::<i64>("s").unwrap(), vec![-5]);
}

#[test]
fn group_with_an_empty_btree_has_no_children() {
    let image = file(
        vec![(
            "empty".to_string(),
            Node::Group { children: Vec::new(), attributes: Vec::new() },
        )],
        Vec::new(),
    );
    let file = Hdf5File::open(&image).unwrap();
    let empty = &file.root_group().groups[0].1;
    assert!(empty.datasets.is_empty());
    assert!(empty.groups.is_empty());
    assert!(empty.attributes.is_empty());
}

#[test]
fn bad_magic() {
    let image = [0u8; 8];
    assert_eq!(
        parse_error(Hdf5File::open(&image)),
        ParseError::BadMagic { context: Context::Superblock, found: vec![0; 8] }
    );
    assert_eq!(Context::Superblock.label(), "superblock");
}

#[test]
fn opening_twice_gives_equal_trees() {
    let image = file(
        vec![
            ("T".to_string(), f64_dataset(&[1.0, 2.0, 3.0])),
            (
                "g".to_string(),
                Node::Group {
                    children: vec![("x".to_string(), i32_dataset(&[1, 2]))],
                    attributes: Vec::new(),
                },
            ),
        ],
        scalar_attributes(),
    );
    let before = image.clone();
    let first = Hdf5File::open(&image).unwrap();
    let second = Hdf5File::open(&image).unwrap();
    assert_eq!(first.root_group(), second.root_group());
    assert_eq!(first.view("T").unwrap(), second.view("T").unwrap());
    assert_eq!(image, before);
}

#[test]
fn file_that_ends_before_its_stated_end_is_truncated() {
    let mut image = file(Vec::new(), Vec::new());
    let end = image.len() as u64;
    image.truncate(image.len() - 8);
    assert_eq!(
        parse_error(Hdf5File::open(&image)),
        ParseError::Truncated { context: Context::Superblock, need: end }
    );
}

#[test]
fn dataset_outside_the_file_is_truncated() {
    let mut image = file(vec![("a".to_string(), i32_dataset(&[1, 2]))], Vec::new());
    let file = Hdf5File::open(&image).unwrap();
    let header = file.root_group().find_dataset("a").unwrap().address;
    assert_eq!(header, 96);
    drop(file);
    // The layout message of the dataset stands behind the data; its address is
    // the first number of eight bytes in it that holds 96.
    let at = image.windows(10).position(|w| w[..2] == [3, 1] && w[2..10] == 96u64.to_le_bytes());
    let at = at.unwrap() + 2;
    image[at..at + 8].copy_from_slice(&u64::MAX.to_le_bytes());
    let file = Hdf5File::open(&image).unwrap();
    assert_eq!(
        parse_error(file.view("a")),
        ParseError::Truncated { context: Context::DataLayout, need: 8 }
    );
}

#[test]
fn elements_that_do_not_fill_the_dataset_are_truncated() {
    let image = file(
        vec![(
            "odd".to_string(),
            Node::Dataset {
                datatype: i32_type(),
                dims: vec![2],
                data: vec![1, 0, 0, 0, 2, 0, 0],
                attributes: Vec::new(),
            },
        )],
        Vec::new(),
    );
    let file = Hdf5File::open(&image).unwrap();
    assert_eq!(file.view("odd").unwrap().len(), 7);
    assert_eq!(
        parse_error(file.view_typed::<i32>("odd")),
        ParseError::Truncated { context: Context::Element, need: 4 }
    );
}

#[test]
fn object_that_is_neither_group_nor_dataset_is_unrecognized() {
    let mut image = vec![0u8; 96];
    let header = object_header(1, &[message(0x12, &modification_time(5))]);
    let header = add(&mut image, &header);
    let names = add(&mut image, b"\0\0\0\0\0\0\0\0thing\0");
    let mut heap = b"HEAP".to_vec();
    heap.extend_from_slice(&[0, 0, 0, 0]);
    heap.extend_from_slice(&14u64.to_le_bytes());
    heap.extend_from_slice(&0u64.to_le_bytes());
    heap.extend_from_slice(&names.to_le_bytes());
    let heap = add(&mut image, &heap);
    let mut snod = b"SNOD".to_vec();
    snod.extend_from_slice(&[1, 0, 1, 0]);
    snod.extend_from_slice(&entry(8, header, 0, 0, 0));
    let snod = add(&mut image, &snod);
    let mut tree = b"TREE".to_vec();
    tree.extend_from_slice(&[0, 0, 1, 0]);
    tree.extend_from_slice(&[0xff; 16]);
    tree.extend_from_slice(&0u64.to_le_bytes());
    tree.extend_from_slice(&snod.to_le_bytes());
    let tree = add(&mut image, &tree);
    let table = SymbolTable { btree_address: tree, local_heap_address: heap };
    match parse_group(&image, table) {
        Err(Error::Parse(e)) => assert_eq!(e, ParseError::UnrecognizedObject("thing".to_string())),
        other => panic!("{:?}", other),
    }
}

#[test]
fn btree_that_is_no_leaf_is_unsupported() {
    let mut image = vec![0u8; 8];
    let mut heap = b"HEAP".to_vec();
    heap.extend_from_slice(&[0, 0, 0, 0]);
    heap.extend_from_slice(&[0; 24]);
    let heap = add(&mut image, &heap);
    let mut tree = b"TREE".to_vec();
    tree.extend_from_slice(&[0, 2, 0, 0]);
    tree.extend_from_slice(&[0xff; 16]);
    let tree = add(&mut image, &tree);
    let table = SymbolTable { btree_address: tree, local_heap_address: heap };
    match parse_group(&image, table) {
        Err(Error::Parse(e)) => assert_eq!(
            e,
            ParseError::UnsupportedVariant { context: Context::NonLeafBtree, value: 2 }
        ),
        other => panic!("{:?}", other),
    }
}

#[test]
fn group_that_lies_in_itself_is_too_deep() {
    let mut image = vec![0u8; 8];
    let names = add(&mut image, b"\0\0\0\0\0\0\0\0loop\0");
    let mut heap = b"HEAP".to_vec();
    heap.extend_from_slice(&[0, 0, 0, 0]);
    heap.extend_from_slice(&13u64.to_le_bytes());
    heap.extend_from_slice(&0u64.to_le_bytes());
    heap.extend_from_slice(&names.to_le_bytes());
    let heap = add(&mut image, &heap);
    pad_to_8(&mut image);
    // The addresses of the blocks that follow, each of a known size.
    let header = image.len() as u64;
    let snod = header + 16 + 24;
    let tree = snod + 8 + 40;
    let block = object_header(1, &[message(0x11, &symbol_table_message(tree, heap))]);
    assert_eq!(add(&mut image, &block), header);
    let mut block = b"SNOD".to_vec();
    block.extend_from_slice(&[1, 0, 1, 0]);
    block.extend_from_slice(&entry(8, header, 0, 0, 0));
    assert_eq!(add(&mut image, &block), snod);
    let mut block = b"TREE".to_vec();
    block.extend_from_slice(&[0, 0, 1, 0]);
    block.extend_from_slice(&[0xff; 16]);
    block.extend_from_slice(&0u64.to_le_bytes());
    block.extend_from_slice(&snod.to_le_bytes());
    assert_eq!(add(&mut image, &block), tree);
    let table = SymbolTable { btree_address: tree, local_heap_address: heap };
    let expected = ParseError::UnsupportedVariant {
        context: Context::GroupDepth,
        value: MAX_GROUP_DEPTH as u64,
    };
    match parse_group(&image, table) {
        Err(Error::Parse(e)) => assert_eq!(e, expected),
        other => panic!("{:?}", other),
    }
    let widths = Widths { offset_size: 8, length_size: 8 };
    assert_eq!(group_at(&image, table, widths, 3), Err(expected.clone()));
    assert_eq!(group_at(&image, table, widths, 0), Err(expected));
}

fn times(from: u32, count: u32) -> Vec<Vec<u8>> {
    (from..from + count).map(|s| message(0x12, &modification_time(s))).collect()
}

fn seconds(messages: &[Message]) -> Vec<u32> {
    messages
        .iter()
        .filter_map(|m| match m {
            Message::ObjectModificationTime(ObjectModificationTime {
                seconds_after_unix_epoch,
            }) => Some(*seconds_after_unix_epoch),
            _ => None,
        })
        .collect()
}

#[test]
fn header_continuation() {
    let mut image = vec![0u8; 8];
    let range: Vec<u8> = times(13, 6).concat();
    let range_at = add(&mut image, &range);
    let mut frames = times(0, 13);
    frames.push(message(0x10, &continuation(range_at, range.len() as u64)));
    let header = object_header(20, &frames);
    let header = add(&mut image, &header);
    image.extend_from_slice(&[0xee; 64]);
    let messages = object_messages(&image, header).unwrap();
    assert_eq!(messages.len(), 20);
    assert_eq!(
        messages[13],
        Message::ObjectHeaderContinuation(ObjectHeaderContinuation {
            offset: range_at,
            length: range.len() as u64,
        })
    );
    assert_eq!(seconds(&messages), (0..19).collect::<Vec<u32>>());
}

#[test]
fn continuations_give_the_messages_of_the_plain_layout() {
    let mut plain = vec![0u8; 8];
    let header = object_header(12, &times(0, 12));
    let plain_at = add(&mut plain, &header);
    let plain_messages = object_messages(&plain, plain_at).unwrap();

    // One continuation in the middle: 0..4, then 4..8 in a range, then 8..12.
    let mut single = vec![0u8; 8];
    let range: Vec<u8> = times(4, 4).concat();
    let range_at = add(&mut single, &range);
    let mut frames = times(0, 4);
    frames.push(message(0x10, &continuation(range_at, range.len() as u64)));
    frames.extend(times(8, 4));
    let header = object_header(13, &frames);
    let single_at = add(&mut single, &header);
    let single_messages = object_messages(&single, single_at).unwrap();

    // A continuation in a continuation: 0..4, then a range with 4..6, a
    // range with 6..8 in it, nothing after it, then 8..12.
    let mut nested = vec![0u8; 8];
    let inner: Vec<u8> = times(6, 2).concat();
    let inner_at = add(&mut nested, &inner);
    let mut outer = times(4, 2);
    outer.push(message(0x10, &continuation(inner_at, inner.len() as u64)));
    let outer: Vec<u8> = outer.concat();
    let outer_at = add(&mut nested, &outer);
    let mut frames = times(0, 4);
    frames.push(message(0x10, &continuation(outer_at, outer.len() as u64)));
    frames.extend(times(8, 4));
    let header = object_header(14, &frames);
    let nested_at = add(&mut nested, &header);
    let nested_messages = object_messages(&nested, nested_at).unwrap();

    let expected: Vec<u32> = (0..12).collect();
    assert_eq!(seconds(&plain_messages), expected);
    assert_eq!(seconds(&single_messages), expected);
    assert_eq!(seconds(&nested_messages), expected);
    assert_eq!(single_messages.len(), 13);
    assert_eq!(nested_messages.len(), 14);
}

#[test]
fn continuation_outside_the_file_is_truncated() {
    let mut image = vec![0u8; 8];
    let header = object_header(2, &[message(0x10, &continuation(1 << 40, 16))]);
    let header = add(&mut image, &header);
    assert_eq!(
        object_messages(&image, header),
        Err(ParseError::Truncated { context: Context::ObjectHeaderContinuation, need: 16 })
    );
}

#[test]
fn messages_that_end_early_are_truncated() {
    let mut image = vec![0u8; 8];
    let header = object_header(3, &times(0, 2));
    let header = add(&mut image, &header);
    assert_eq!(
        object_messages(&image, header),
        Err(ParseError::Truncated { context: Context::HeaderMessage, need: 2 })
    );
    assert_eq!(
        object_messages(&image, 1 << 50),
        Err(ParseError::Truncated { context: Context::ObjectHeader, need: 1 })
    );
}

#[test]
fn unsupported_datatype_fails_the_opening() {
    let image = file(
        vec![(
            "wide".to_string(),
            Node::Dataset {
                datatype: datatype(0, [0, 0, 0], 2, &[0, 0, 16, 0]),
                dims: vec![1],
                data: vec![1, 0],
                attributes: Vec::new(),
            },
        )],
        Vec::new(),
    );
    assert_eq!(
        parse_error(Hdf5File::open(&image)),
        ParseError::UnsupportedDatatype { class: 0, size: 2, bitfields: 0 }
    );
}

#[test]
fn errors_say_what_is_wrong() {
    let e = ParseError::BadMagic { context: Context::Superblock, found: vec![0; 8] };
    assert_eq!(e.message(), "bad magic in superblock");
    let e = ParseError::TypeMismatch { want: Hdf5Dtype::I32, got: Hdf5Dtype::F64 };
    assert_eq!(e.message(), "type mismatch: want I32, got F64");
    let e = Error::from(ParseError::NotFound("a/b".to_string()));
    assert_eq!(e.message(), "not found: a/b");
    let e = Error::from(std::io::Error::new(std::io::ErrorKind::NotFound, "no such file"));
    assert_eq!(e.message(), "no such file");
    assert!(matches!(e, Error::Io(_)));
}

#[test]
fn names_lie_in_the_data_segment_of_the_heap() {
    let contents = b"01234567alpha\0beta\0gamma";
    let heap = |size| hdf5::parse::LocalHeap {
        version: 0,
        data_segment_size: size,
        offset_to_head_of_freelist: 0,
        address_of_data_segment: 8,
    };
    let entry = |offset| hdf5::parse::SymbolTableEntry {
        link_name_offset: offset,
        object_header_address: 0,
        cache_type: 0,
        address_of_btree: 0,
        address_of_name_heap: 0,
    };
    let name = |size, offset| hdf5::index::heap_name(contents, &heap(size), &entry(offset));
    assert_eq!(name(16, 0), Ok("alpha".to_string()));
    assert_eq!(name(16, 6), Ok("beta".to_string()));
    assert_eq!(name(16, 8), Ok("ta".to_string()));
    assert_eq!(name(16, 5), Ok(String::new()));
    // A name without a zero byte ends where the data segment or the file ends.
    assert_eq!(name(16, 11), Ok("gamma".to_string()));
    assert_eq!(name(14, 11), Ok("gam".to_string()));
    assert_eq!(name(1 << 40, 11), Ok("gamma".to_string()));
    assert_eq!(name(u64::MAX, 6), Ok("beta".to_string()));
    let outside = Err(ParseError::Truncated { context: Context::LocalHeap, need: 1 });
    assert_eq!(name(11, 11), outside);
    assert_eq!(name(0, 0), outside);
    assert_eq!(name(1 << 40, 16), outside);
    assert_eq!(name(u64::MAX, u64::MAX - 1), outside);
    let far = hdf5::parse::LocalHeap { address_of_data_segment: 1 << 50, ..heap(16) };
    assert_eq!(hdf5::index::heap_name(contents, &far, &entry(0)), outside);
}
