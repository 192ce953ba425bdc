use hdf5::table::{find, put};
use hdf5::text::{c_string, name};
use hdf5::wire::{pad8, Reader};
use hdf5::{Context, ParseError};

#[test]
fn pad8_rounds_up_to_a_multiple_of_eight() {
    assert_eq!(pad8(0), 0);
    assert_eq!(pad8(1), 8);
    assert_eq!(pad8(7), 8);
    assert_eq!(pad8(8), 8);
    assert_eq!(pad8(9), 16);
    assert_eq!(pad8(14), 16);
    assert_eq!(pad8(65535), 65536);
    for x in 0..200u16 {
        let p = pad8(x);
        assert_eq!(p % 8, 0);
        assert!(p >= x as usize && p < x as usize + 8);
    }
}

#[test]
fn numbers_are_read_lowest_byte_first() {
    let bytes = [0x01, 0x02, 0x03, 0x04, 0x05, 0x06, 0x07, 0x08, 0x09];
    assert_eq!(Reader::new(&bytes, Context::Element).le_u8(), Ok(0x01));
    assert_eq!(Reader::new(&bytes, Context::Element).le_u16(), Ok(0x0201));
    assert_eq!(Reader::new(&bytes, Context::Element).le_u24(), Ok(0x030201));
    assert_eq!(Reader::new(&bytes, Context::Element).le_u32(), Ok(0x04030201));
    assert_eq!(Reader::new(&bytes, Context::Element).le_u64(), Ok(0x0807060504030201));
    let high = [0xff; 8];
    assert_eq!(Reader::new(&high, Context::Element).le_u16(), Ok(u16::MAX));
    assert_eq!(Reader::new(&high, Context::Element).le_u24(), Ok(0xffffff));
    assert_eq!(Reader::new(&high, Context::Element).le_u32(), Ok(u32::MAX));
    assert_eq!(Reader::new(&high, Context::Element).le_u64(), Ok(u64::MAX));
}

#[test]
fn reader_moves_on_by_what_it_reads() {
    let bytes = [1, 2, 3, 4, 5, 6, 7, 8, 9, 10, 11, 12, 13, 14, 15, 16, 17, 18, 19];
    let mut rd = Reader::new(&bytes, Context::Superblock);
    assert_eq!(rd.left(), 19);
    assert_eq!(rd.le_u8(), Ok(1));
    assert_eq!(rd.le_u16(), Ok(0x0302));
    assert_eq!(rd.le_u24(), Ok(0x060504));
    assert_eq!(rd.le_u32(), Ok(0x0a090807));
    assert_eq!(rd.take(2), Ok(&[11u8, 12][..]));
    assert_eq!(rd.take_long(1), Ok(&[13u8][..]));
    assert_eq!(rd.rest(), &[14, 15, 16, 17, 18, 19]);
    assert_eq!(rd.left(), 6);
    assert_eq!(rd.context(), Context::Superblock);
    assert_eq!(
        rd.le_u64(),
        Err(ParseError::Truncated { context: Context::Superblock, need: 8 })
    );
    rd.within(Context::LocalHeap);
    assert_eq!(
        rd.take(7),
        Err(ParseError::Truncated { context: Context::LocalHeap, need: 7 })
    );
    assert_eq!(
        rd.take_long(u64::MAX),
        Err(ParseError::Truncated { context: Context::LocalHeap, need: u64::MAX })
    );
    assert_eq!(rd.le_u64s(0), Ok(Vec::new()));
    assert_eq!(rd.rest().len(), 6);
}

#[test]
fn every_short_read_names_what_it_needs() {
    let one = [7u8];
    let need = |n| ParseError::Truncated { context: Context::Element, need: n };
    assert_eq!(Reader::new(&[], Context::Element).le_u8(), Err(need(1)));
    assert_eq!(Reader::new(&one, Context::Element).le_u16(), Err(need(2)));
    assert_eq!(Reader::new(&one, Context::Element).le_u24(), Err(need(3)));
    assert_eq!(Reader::new(&one, Context::Element).le_u32(), Err(need(4)));
    assert_eq!(Reader::new(&one, Context::Element).le_u64(), Err(need(8)));
    assert_eq!(Reader::new(&one, Context::Element).le_u64s(1), Err(need(8)));
}

#[test]
fn runs_of_numbers() {
    let mut bytes = Vec::new();
    for n in [1u64, 1 << 40, u64::MAX] {
        bytes.extend_from_slice(&n.to_le_bytes());
    }
    bytes.push(9);
    let mut rd = Reader::new(&bytes, Context::Dataspace);
    assert_eq!(rd.le_u64s(3), Ok(vec![1, 1 << 40, u64::MAX]));
    assert_eq!(rd.rest(), &[9]);
    let mut rd = Reader::new(&bytes, Context::Dataspace);
    assert_eq!(
        rd.le_u64s(4),
        Err(ParseError::Truncated { context: Context::Dataspace, need: 8 })
    );
}

#[test]
fn fixed_bytes_match_or_say_what_stands_there() {
    let bytes = b"SNOD\x01\x00rest";
    let mut rd = Reader::new(bytes, Context::SymbolTable);
    assert_eq!(rd.magic(b"SNOD"), Ok(()));
    assert_eq!(rd.tag(&[1, 0]), Ok(()));
    assert_eq!(rd.rest(), b"rest");
    assert_eq!(
        rd.tag(b"rent"),
        Err(ParseError::ExpectedTag {
            context: Context::SymbolTable,
            want: b"rent".to_vec(),
            got: b"rest".to_vec(),
        })
    );
    assert_eq!(
        rd.magic(b"rust!"),
        Err(ParseError::BadMagic { context: Context::SymbolTable, found: b"rest".to_vec() })
    );
    assert_eq!(
        rd.tag(b"rest and more"),
        Err(ParseError::Truncated { context: Context::SymbolTable, need: 13 })
    );
    assert_eq!(
        rd.magic(b"rest!"),
        Err(ParseError::Truncated { context: Context::SymbolTable, need: 5 })
    );
    assert_eq!(rd.tag(&[]), Ok(()));
    assert_eq!(rd.rest(), b"rest");
}

#[test]
fn addresses_of_every_width() {
    let bytes = [0x11, 0x22, 0x33, 0x44, 0x55, 0x66, 0x77, 0x88];
    let read = |width| Reader::new(&bytes, Context::LocalHeap).address(width);
    assert_eq!(read(1), Ok(0x11));
    assert_eq!(read(2), Ok(0x2211));
    assert_eq!(read(4), Ok(0x44332211));
    assert_eq!(read(8), Ok(0x8877665544332211));
    for width in [0u8, 3, 5, 6, 7, 9, 16, 255] {
        assert_eq!(
            read(width),
            Err(ParseError::UnsupportedVariant {
                context: Context::AddressWidth,
                value: width as u64,
            })
        );
    }
    let mut rd = Reader::new(&bytes[..3], Context::LocalHeap);
    assert_eq!(rd.address(2), Ok(0x2211));
    assert_eq!(
        rd.address(4),
        Err(ParseError::Truncated { context: Context::LocalHeap, need: 4 })
    );
}

#[test]
fn names_end_at_the_first_zero_byte() {
    assert_eq!(c_string(b"name\0and more\0"), b"name");
    assert_eq!(c_string(b"no zero"), b"no zero");
    assert_eq!(c_string(b"\0x"), b"");
    assert_eq!(c_string(b""), b"");
    assert_eq!(name(b"dataset\0\xff\xfe"), "dataset");
    assert_eq!(name(b"dataset\0"), name(b"dataset\0trailing bytes"));
    assert_eq!(name("Gr\u{fc}\u{df}e\0".as_bytes()), "Gr\u{fc}\u{df}e");
    assert_eq!(name(b"a\xffb\0"), "a\u{fffd}b");
}

#[test]
fn values_are_kept_under_names_in_their_order() {
    let mut entries: Vec<(String, u32)> = Vec::new();
    put(&mut entries, "b".to_string(), 1);
    put(&mut entries, "a".to_string(), 2);
    put(&mut entries, "c".to_string(), 3);
    put(&mut entries, "a".to_string(), 4);
    assert_eq!(
        entries,
        vec![("b".to_string(), 1), ("a".to_string(), 4), ("c".to_string(), 3)]
    );
    assert_eq!(find(&entries, &"b".to_string()), 0);
    assert_eq!(find(&entries, &"a".to_string()), 1);
    assert_eq!(find(&entries, &"c".to_string()), 2);
    assert_eq!(find(&entries, &"d".to_string()), 3);
    assert_eq!(find(&Vec::<(String, u32)>::new(), &"a".to_string()), 0);
}
