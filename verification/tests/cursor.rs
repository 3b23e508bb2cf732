use ism2::error::{ISM2ImportError, WrongMagicNumber};
use ism2::reader::Reader;

#[test]
fn reads_are_little_endian_and_move_the_cursor() {
    let mut reader = Reader::new(vec![0x78, 0x56, 0x34, 0x12, 0xCD, 0xAB, 0xEF]);
    assert_eq!(reader.len(), 7);
    assert_eq!(reader.peek_le_to_u32(), Ok(0x1234_5678));
    assert_eq!(reader.position(), 0);
    assert_eq!(reader.read_le_to_u32(), Ok(0x1234_5678));
    assert_eq!(reader.position(), 4);
    assert_eq!(reader.read_le_to_u16(), Ok(0xABCD));
    assert_eq!(reader.read_to_u8(), Ok(0xEF));
    assert_eq!(reader.position(), 7);
    assert_eq!(reader.read_to_u8(), Err(ISM2ImportError::IO));
    assert_eq!(reader.le_u32_at(1), 0xCD12_3456);
    assert_eq!(reader.le_u16_at(5), 0xEFAB);
    assert_eq!(reader.u8_at(6), 0xEF);
}

#[test]
fn a_read_that_leaves_the_file_fails_and_moves_nothing() {
    let mut reader = Reader::new(vec![1, 2, 3]);
    assert_eq!(reader.read_le_to_u32(), Err(ISM2ImportError::IO));
    assert_eq!(reader.peek_le_to_u32(), Err(ISM2ImportError::IO));
    assert_eq!(reader.position(), 0);
    assert_eq!(reader.take(4), Err(ISM2ImportError::IO));
    assert_eq!(reader.take(3), Ok(0));
    assert_eq!(reader.position(), 3);
    assert_eq!(reader.take(0), Ok(3));
    assert_eq!(reader.read_le_to_u16(), Err(ISM2ImportError::IO));
}

#[test]
fn a_seek_stays_inside_the_file() {
    let mut reader = Reader::new(vec![0; 10]);
    assert_eq!(reader.seek(10), Ok(()));
    assert_eq!(reader.position(), 10);
    assert_eq!(reader.seek(11), Err(ISM2ImportError::IO));
    assert_eq!(reader.position(), 10);
    assert_eq!(reader.seek(0), Ok(()));
    assert_eq!(reader.position(), 0);
    assert_eq!(reader.seek(0xFFFF_FFFF), Err(ISM2ImportError::IO));
}

#[test]
fn a_chunk_header_is_checked_word_by_word() {
    let mut bytes = Vec::new();
    for value in [0x46u32, 0x1C, 2, 0, 0, 0, 7, 0x100, 0x200] {
        bytes.extend_from_slice(&value.to_le_bytes());
    }
    let mut reader = Reader::new(bytes.clone());
    let chunk = reader.read_chunk(0x46, 0x1C).unwrap();
    assert_eq!(chunk.start, 0);
    assert_eq!(chunk.offsets, vec![0x100, 0x200]);
    assert_eq!(reader.le_u32_at(chunk.start + 24), 7);

    let wrong = |expected: u32, read: u32| {
        ISM2ImportError::MagicNumber(WrongMagicNumber { expected, read })
    };
    assert_eq!(Reader::new(bytes.clone()).read_chunk(0x45, 0x1C).err(), Some(wrong(0x45, 0x46)));
    assert_eq!(Reader::new(bytes.clone()).read_chunk(0x46, 0x14).err(), Some(wrong(0x14, 0x1C)));
    assert_eq!(Reader::new(bytes.clone()).check_magic_number(0x47), Err(wrong(0x47, 0x46)));
    assert_eq!(Reader::new(bytes.clone()).check_word_at(8, 3), Err(wrong(3, 2)));
    assert_eq!(Reader::new(bytes.clone()).check_word_at(8, 2), Ok(()));

    let mut short = bytes.clone();
    short.truncate(bytes.len() - 1);
    assert_eq!(Reader::new(short).read_chunk(0x46, 0x1C).err(), Some(ISM2ImportError::IO));
    let mut header_only = bytes.clone();
    header_only.truncate(0x1B);
    assert_eq!(Reader::new(header_only).read_header(0x46, 0x1C), Err(ISM2ImportError::IO));
    let mut reader = Reader::new(bytes.clone());
    assert_eq!(reader.read_header(0x46, 0x1C), Ok(0));
    assert_eq!(reader.position(), 0x1C);
    assert_eq!(reader.read_offsets(2), Ok(vec![0x100, 0x200]));
    let mut reader = Reader::new(bytes.clone());
    assert_eq!(reader.read_offsets(10), Err(ISM2ImportError::IO));
    assert_eq!(reader.read_offsets(0x4000_0000), Err(ISM2ImportError::IO));
    assert_eq!(reader.read_offsets(0), Ok(Vec::new()));

    let mut reader = Reader::new(bytes.clone());
    assert_eq!(reader.read_tagged(0x46, 12), Ok(0));
    assert_eq!(reader.position(), 12);
    let mut reader = Reader::new(bytes);
    assert_eq!(reader.read_loose_chunk(0x46).unwrap(), vec![0, 0]);
}
