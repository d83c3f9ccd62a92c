use schnauzer::{Endian, Error, LcStr, Nlist, Nvalue, Reader, ReaderBuildOption};

#[test]
fn short_fixed_read_is_bad_buffer_length() {
    let mut reader = Reader::from_bytes(vec![1, 2, 3]);
    assert!(matches!(reader.read_u32(Endian::Little), Err(Error::BadBufferLength)));
    assert!(matches!(reader.read_u64(Endian::Big), Err(Error::BadBufferLength)));
    assert_eq!(reader.read_u16(Endian::Little).unwrap(), 0x0201);
    assert!(matches!(reader.read_u16(Endian::Little), Err(Error::BadBufferLength)));
    assert_eq!(reader.read_u8(Endian::Little).unwrap(), 3);
    assert!(matches!(reader.read_u8(Endian::Little), Err(Error::BadBufferLength)));
}

#[test]
fn fixed_reads_follow_byte_order() {
    let bytes = vec![0x12, 0x34, 0x56, 0x78, 0x9a, 0xbc, 0xde, 0xf0];
    let mut reader = Reader::from_bytes(bytes);
    assert_eq!(reader.read_u32(Endian::Little).unwrap(), 0x7856_3412);
    assert_eq!(reader.read_u32(Endian::Big).unwrap(), 0x9abc_def0);
    reader.seek(0).unwrap();
    assert_eq!(reader.read_u64(Endian::Big).unwrap(), 0x1234_5678_9abc_def0);
    reader.seek(0).unwrap();
    assert_eq!(reader.read_u64(Endian::Little).unwrap(), 0xf0de_bc9a_7856_3412);
}

#[test]
fn missing_file_fails_at_build() {
    let r = Reader::build(ReaderBuildOption::File(Err("No such file or directory".to_string())));
    match r {
        Err(Error::Other(msg)) => assert_eq!(msg, "No such file or directory"),
        _ => panic!("expected a failure"),
    }
}

#[test]
fn build_over_memory_and_file_contents() {
    let data = [5u8, 6, 7];
    let mut reader = Reader::build(ReaderBuildOption::Memory(&data)).unwrap();
    assert_eq!(reader.len(), 3);
    assert_eq!(reader.read_u8(Endian::Big).unwrap(), 5);
    let mut reader = Reader::build(ReaderBuildOption::File(Ok(vec![9, 8]))).unwrap();
    assert_eq!(reader.read_u16(Endian::Big).unwrap(), 0x0908);
}

#[test]
fn seek_past_end_fails() {
    let mut reader = Reader::from_bytes(vec![1, 2, 3]);
    assert_eq!(reader.seek(3).unwrap(), 3);
    assert!(matches!(reader.seek(4), Err(Error::BadBufferLength)));
}

#[test]
fn read_fills_what_is_left() {
    let mut reader = Reader::from_bytes(vec![1, 2, 3, 4, 5]);
    reader.seek(2).unwrap();
    let mut buf = vec![0u8; 4];
    assert_eq!(reader.read(&mut buf), 3);
    assert_eq!(buf, vec![3, 4, 5, 0]);
    assert_eq!(reader.read(&mut buf), 0);
}

#[test]
fn zero_terminated_strings() {
    let mut reader = Reader::from_bytes(b"ab\x01c\0tail".to_vec());
    assert_eq!(reader.read_zero_terminated_string().unwrap(), "ab.c");
    assert_eq!(reader.read_zero_terminated_string().unwrap(), "tail");
    assert_eq!(reader.read_zero_terminated_string().unwrap(), "");
}

fn symbol_bytes(is_64: bool) -> Vec<u8> {
    let mut b = Vec::new();
    b.extend_from_slice(&4u32.to_le_bytes());
    b.push(0x0f);
    b.push(1);
    b.extend_from_slice(&0x0010u16.to_le_bytes());
    if is_64 {
        b.extend_from_slice(&0x1_0000_3f40u64.to_le_bytes());
    } else {
        b.extend_from_slice(&0x3f40u32.to_le_bytes());
    }
    b
}

#[test]
fn symbol_name_is_resolved_lazily() {
    let mut bytes = symbol_bytes(true);
    let stroff = bytes.len() as u64;
    bytes.extend_from_slice(b"\0\0\0\0_main\0_other\0");
    let mut reader = Reader::from_bytes(bytes);
    let entry = Nlist::parse(&mut reader, stroff, true, Endian::Little).unwrap();
    assert_eq!(entry.n_strx, 4);
    assert_eq!(entry.n_type, 0x0f);
    assert_eq!(entry.n_sect, 1);
    assert_eq!(entry.n_desc, 0x10);
    assert!(matches!(entry.n_value, Nvalue::U64(0x1_0000_3f40)));
    assert_eq!(entry.name.file_offset, stroff + 4);
    let first = entry.name.resolve(&mut reader).unwrap();
    let second = entry.name.resolve(&mut reader).unwrap();
    assert_eq!(first, "_main");
    assert_eq!(first, second);
}

#[test]
fn symbol_entry_of_a_32_bit_image() {
    let mut reader = Reader::from_bytes(symbol_bytes(false));
    let entry = Nlist::parse(&mut reader, 0, false, Endian::Little).unwrap();
    assert!(matches!(entry.n_value, Nvalue::U32(0x3f40)));
    let fields = entry.n_value.all_fields();
    assert_eq!((fields[0].name, fields[0].value), ("u32", 0x3f40));
    let mut short = Reader::from_bytes(symbol_bytes(false));
    assert!(matches!(Nlist::parse(&mut short, 0, true, Endian::Little), Err(Error::BadBufferLength)));
}

#[test]
fn name_past_the_end_fails() {
    let mut reader = Reader::from_bytes(vec![1, 2]);
    let name = LcStr { file_offset: 3 };
    assert!(matches!(name.resolve(&mut reader), Err(Error::BadBufferLength)));
}

#[test]
fn string_offset_overflow_is_rejected() {
    let mut reader = Reader::from_bytes(symbol_bytes(false));
    let r = Nlist::parse(&mut reader, u64::MAX, false, Endian::Little);
    assert!(matches!(r, Err(Error::BadBufferLength)));
}

#[test]
fn error_descriptions() {
    assert_eq!(Error::BadMagic(305419896).description(), "Unknown magic: 305419896");
    assert_eq!(Error::BadMagic(0).description(), "Unknown magic: 0");
    assert_eq!(Error::BadBufferLength.description(), "Invalid buffer length");
    assert_eq!(Error::Other("disk".to_string()).description(), "Internal error: disk");
}
