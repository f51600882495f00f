use movparse::{AttrRead, ParseError, Reader, U32Tag};

#[test]
fn test_read_u8_array() {
    let src = vec![0u8, 1, 2, 3, 4];
    let limit = src.len() as u64;
    let mut reader = Reader::new(&src, limit);
    let target: [u8; 3] = AttrRead::read_attr(&mut reader).unwrap();
    assert_eq!(target, [0, 1, 2]);
    assert_eq!(reader.pos(), 3);
    assert_eq!(reader.limit(), Some(5));
    let target: [u8; 2] = AttrRead::read_attr(&mut reader).unwrap();
    assert_eq!(target, [3, 4]);
    assert_eq!(reader.pos(), 5);
    assert_eq!(reader.limit(), Some(5));
}

#[test]
fn test_read_limit() {
    let src = vec![0u8, 1, 2, 3, 4];
    let limit = src.len() as u64;
    let mut reader = Reader::new(&src, limit);
    reader.set_limit(2);
    assert!(<[u8; 3]>::read_attr(&mut reader).is_err());
    assert_eq!(<[u8; 2]>::read_attr(&mut reader).unwrap(), [0, 1]);
    reader.clear_limit();
    assert_eq!(<[u8; 2]>::read_attr(&mut reader).unwrap(), [2, 3]);
}

#[test]
fn test_seek() {
    let src = vec![0u8, 1, 2, 3, 4];
    let limit = src.len() as u64;
    let mut reader = Reader::new(&src, limit);
    assert_eq!(<[u8; 2]>::read_attr(&mut reader).unwrap(), [0, 1]);
    assert_eq!(<[u8; 2]>::read_attr(&mut reader).unwrap(), [2, 3]);
}

#[test]
fn test_shared_reader() {
    let src = vec![0u8, 1, 2, 3, 4];
    let limit = src.len() as u64;
    let mut reader = Reader::new(&src, limit);
    assert_eq!(<[u8; 2]>::read_attr(&mut reader).unwrap(), [0, 1]);
    let mut reader2 = reader.clone();
    assert_eq!(<[u8; 2]>::read_attr(&mut reader).unwrap(), [2, 3]);
    assert_eq!(<[u8; 3]>::read_attr(&mut reader2).unwrap(), [2, 3, 4]);
}

#[test]
fn test_vec() {
    let src = vec![0u8, 1, 2, 3, 4];
    let limit = src.len() as u64;
    let mut reader = Reader::new(&src, limit);
    reader.set_limit(4);
    assert_eq!(Vec::<[u8; 2]>::read_attr(&mut reader).unwrap(), vec![[0, 1], [2, 3]]);
}

#[test]
fn read_past_limit_is_out_of_bounds() {
    let src = vec![0u8, 1, 2, 3, 4];
    let mut reader = Reader::new(&src, 5);
    reader.set_limit(2);
    assert_eq!(<[u8; 3]>::read_attr(&mut reader), Err(ParseError::OutOfBounds));
    assert_eq!(reader.pos(), 0);
}

#[test]
fn reads_past_the_end_of_the_stream() {
    let src = vec![0u8, 1, 2];
    let mut reader = Reader::new(&src, 10);
    assert_eq!(<[u8; 4]>::read_attr(&mut reader), Err(ParseError::UnexpectedEof));
    assert_eq!(reader.pos(), 0);
    reader.set_limit(2);
    assert_eq!(<[u8; 4]>::read_attr(&mut reader), Err(ParseError::OutOfBounds));
    let mut buf = [9u8; 4];
    assert_eq!(reader.read_exact(&mut buf), Err(ParseError::OutOfBounds));
    assert_eq!(buf, [9; 4]);
    assert_eq!(reader.read_vec(3), Err(ParseError::OutOfBounds));
    assert_eq!(reader.read_vec(2), Ok(vec![0, 1]));
    assert_eq!(reader.pos(), 2);
}

#[test]
fn numbers_are_big_endian() {
    let src = vec![0x12u8, 0x34, 0x56, 0x78, 0x9A, 0xBC, 0xDE, 0xF0];
    let mut reader = Reader::new(&src, 8);
    assert_eq!(u8::read_attr(&mut reader), Ok(0x12));
    reader.seek_from_start(0).unwrap();
    assert_eq!(u16::read_attr(&mut reader), Ok(0x1234));
    reader.seek_from_start(0).unwrap();
    assert_eq!(u32::read_attr(&mut reader), Ok(0x1234_5678));
    assert_eq!(reader.pos(), 4);
    reader.seek_from_start(0).unwrap();
    assert_eq!(u64::read_attr(&mut reader), Ok(0x1234_5678_9ABC_DEF0));
    assert_eq!(reader.pos(), 8);
    assert_eq!(movparse::bytes::u16_at(&src, 6), 0xDEF0);
    assert_eq!(movparse::bytes::u32_at(&src, 1), 0x3456_789A);
    assert_eq!(movparse::bytes::u64_at(&src, 0), 0x1234_5678_9ABC_DEF0);
    assert_eq!(movparse::bytes::array_at::<3>(&src, 5), [0xBC, 0xDE, 0xF0]);
}

#[test]
fn seeks_move_without_regard_to_the_limit() {
    let src = vec![0u8, 1, 2, 3, 4];
    let mut reader = Reader::new(&src, 2);
    assert_eq!(reader.seek_from_current(4), Ok(()));
    assert_eq!(reader.pos(), 4);
    assert_eq!(reader.remain(), -2);
    assert_eq!(reader.seek_from_current(-3), Ok(()));
    assert_eq!(reader.pos(), 1);
    assert_eq!(reader.remain(), 1);
    assert_eq!(reader.seek_from_current(-2), Err(ParseError::InvalidSeek));
    assert_eq!(reader.pos(), 1);
    assert_eq!(reader.seek_from_start(u64::MAX), Ok(()));
    assert_eq!(reader.seek_from_current(1), Err(ParseError::InvalidSeek));
    assert_eq!(reader.pos(), u64::MAX);
    assert_eq!(reader.remain(), i64::MIN);
    reader.clear_limit();
    assert_eq!(reader.remain(), i64::MAX);
    assert_eq!(reader.limit(), None);
}

#[test]
fn limit_is_absolute_once_set() {
    let src = vec![0u8, 1, 2, 3, 4, 5, 6, 7];
    let mut reader = Reader::new(&src, 8);
    reader.seek_from_start(2).unwrap();
    reader.set_limit(3);
    assert_eq!(reader.limit(), Some(5));
    assert_eq!(u8::read_attr(&mut reader), Ok(2));
    assert_eq!(reader.limit(), Some(5));
    assert_eq!(reader.remain(), 2);
    assert_eq!(<[u8; 3]>::read_attr(&mut reader), Err(ParseError::OutOfBounds));
    assert_eq!(<[u8; 2]>::read_attr(&mut reader), Ok([3, 4]));
    assert_eq!(reader.remain(), 0);
}

#[test]
fn clones_keep_their_own_position() {
    let src = vec![10u8, 11, 12, 13, 14, 15];
    let mut first = Reader::new(&src, 6);
    let mut second = first.clone();
    assert_eq!(<[u8; 4]>::read_attr(&mut first), Ok([10, 11, 12, 13]));
    assert_eq!(second.pos(), 0);
    second.set_limit(2);
    assert_eq!(<[u8; 2]>::read_attr(&mut second), Ok([10, 11]));
    assert_eq!(first.pos(), 4);
    assert_eq!(first.limit(), Some(6));
    assert_eq!(<[u8; 2]>::read_attr(&mut first), Ok([14, 15]));
    assert_eq!(second.pos(), 2);
}

#[test]
fn list_of_whole_values() {
    let src = vec![0u8, 1, 0, 2, 0, 3, 9, 9];
    let mut reader = Reader::new(&src, 8);
    reader.set_limit(6);
    assert_eq!(Vec::<u16>::read_attr(&mut reader), Ok(vec![1, 2, 3]));
    assert_eq!(reader.remain(), 0);
    assert_eq!(Vec::<u16>::read_attr(&mut reader), Ok(vec![]));
}

#[test]
fn fields_are_read_one_after_another() {
    let src = vec![1u8, 2, 3, 4, 5, 6];
    let mut reader = Reader::new(&src, 6);
    assert_eq!(movparse::record::read_fields(&mut reader, &[1, 2, 3]), Ok(vec![1, 2, 3, 4, 5, 6]));
    assert_eq!(reader.pos(), 6);
    let mut reader = Reader::new(&src, 5);
    assert_eq!(
        movparse::record::read_fields(&mut reader, &[1, 2, 3]),
        Err(ParseError::OutOfBounds)
    );
    assert_eq!(reader.pos(), 3);
}

#[test]
fn fields_that_use_up_the_body_leave_nothing() {
    let src = vec![1u8, 2, 3, 4, 5, 6, 7, 8];
    let mut reader = Reader::new(&src, 8);
    reader.set_limit(6);
    assert_eq!(movparse::record::read_fields(&mut reader, &[2, 4]), Ok(vec![1, 2, 3, 4, 5, 6]));
    assert_eq!(reader.remain(), 0);
}

#[test]
fn tags_are_described_as_text_and_hex() {
    assert_eq!(U32Tag { raw: *b"ftyp" }.describe(), "<\"ftyp\": 0x70797466>");
    assert_eq!(U32Tag { raw: [0, 0x0A, 0xFF, b'z'] }.describe(), "<\"\0\n\u{FFFD}z\": 0x7aff0a00>");
}
