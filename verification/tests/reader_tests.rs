use media_inspector::error::{IoErrorKind, MediaError};
use media_inspector::reader::{to_i16, to_i32, to_i64, Reader, SeekFrom};

fn is_eof<T>(r: Result<T, MediaError>) -> bool {
    matches!(r, Err(MediaError::Io(IoErrorKind::UnexpectedEof)))
}

fn is_invalid_data<T>(r: Result<T, MediaError>) -> bool {
    matches!(r, Err(MediaError::Io(IoErrorKind::InvalidData)))
}

fn is_invalid_input<T>(r: Result<T, MediaError>) -> bool {
    matches!(r, Err(MediaError::Io(IoErrorKind::InvalidInput)))
}

#[test]
fn reads_big_endian_integers() {
    let mut r = Reader::new(vec![0x01, 0x02, 0x03, 0x04, 0x05, 0x06, 0x07, 0x08, 0x09, 0x0a]);
    assert_eq!(r.read_u8().unwrap(), 0x01);
    assert_eq!(r.position(), 1);
    assert_eq!(r.read_u16().unwrap(), 0x0203);
    assert_eq!(r.read_u24().unwrap(), 0x040506);
    assert_eq!(r.read_u32().unwrap(), 0x0708090a);
    assert_eq!(r.position(), 10);
    assert!(is_eof(r.read_u8()));
    assert_eq!(r.position(), 10);
}

#[test]
fn reads_u64_and_signed() {
    let mut r = Reader::new(vec![
        0xff, 0xff, 0xff, 0xff, 0xff, 0xff, 0xff, 0xfe, 0x80, 0x00, 0xff, 0xff, 0xff, 0xff,
    ]);
    assert_eq!(r.read_i64().unwrap(), -2);
    assert_eq!(r.read_i16().unwrap(), i16::MIN);
    assert_eq!(r.read_i32().unwrap(), -1);
    r.seek(SeekFrom::Start(0)).unwrap();
    assert_eq!(r.read_u64().unwrap(), 0xffff_ffff_ffff_fffe);
}

#[test]
fn reinterprets_bits_as_signed() {
    assert_eq!(to_i16(0), 0);
    assert_eq!(to_i16(0x7fff), i16::MAX);
    assert_eq!(to_i16(0x8000), i16::MIN);
    assert_eq!(to_i16(0xffff), -1);
    assert_eq!(to_i32(0x8000_0000), i32::MIN);
    assert_eq!(to_i32(0xffff_fffe), -2);
    assert_eq!(to_i32(0x0001_0000), 65536);
    assert_eq!(to_i64(0x8000_0000_0000_0000), i64::MIN);
    assert_eq!(to_i64(0xffff_ffff_ffff_ffff), -1);
    assert_eq!(to_i64(7), 7);
}

#[test]
fn short_read_fails_and_keeps_position() {
    let mut r = Reader::new(vec![1, 2, 3]);
    assert!(is_eof(r.read_u32()));
    assert_eq!(r.position(), 0);
    assert!(is_eof(r.read_u64()));
    assert_eq!(r.read_u24().unwrap(), 0x010203);
    assert!(is_eof(r.read_u16()));
    assert!(is_eof(r.read_i16()));
    assert!(is_eof(r.read_i32()));
    assert!(is_eof(r.read_i64()));
    assert_eq!(r.position(), 3);
}

#[test]
fn read_exact_fills_buffer() {
    let mut r = Reader::new(vec![9, 8, 7, 6, 5]);
    let mut buf = [0u8; 3];
    r.read_exact(&mut buf).unwrap();
    assert_eq!(buf, [9, 8, 7]);
    assert_eq!(r.position(), 3);
    let mut big = [0u8; 3];
    assert!(is_eof(r.read_exact(&mut big)));
    assert_eq!(r.position(), 3);
    let mut none = [0u8; 0];
    r.skip(100).unwrap();
    r.read_exact(&mut none).unwrap();
    assert_eq!(r.position(), 103);
}

#[test]
fn read_bytes_returns_the_slice() {
    let mut r = Reader::new(vec![1, 2, 3, 4]);
    r.skip(1).unwrap();
    assert_eq!(r.read_bytes(2).unwrap(), vec![2, 3]);
    assert!(is_eof(r.read_bytes(2)));
    assert_eq!(r.read_bytes(0).unwrap(), Vec::<u8>::new());
    assert_eq!(r.position(), 3);
}

#[test]
fn skip_moves_beyond_the_end() {
    let mut r = Reader::new(vec![1, 2]);
    r.skip(10).unwrap();
    assert_eq!(r.position(), 10);
    assert!(is_eof(r.read_u8()));
    assert!(is_invalid_input(r.skip(u64::MAX)));
    assert_eq!(r.position(), 10);
    r.skip(u64::MAX - 10).unwrap();
    assert_eq!(r.position(), u64::MAX);
}

#[test]
fn seek_from_start_end_and_current() {
    let mut r = Reader::new(vec![10, 20, 30, 40]);
    assert_eq!(r.seek(SeekFrom::Start(2)).unwrap(), 2);
    assert_eq!(r.read_u8().unwrap(), 30);
    assert_eq!(r.seek(SeekFrom::Current(-2)).unwrap(), 1);
    assert_eq!(r.read_u8().unwrap(), 20);
    assert_eq!(r.seek(SeekFrom::End(-1)).unwrap(), 3);
    assert_eq!(r.read_u8().unwrap(), 40);
    assert_eq!(r.seek(SeekFrom::End(5)).unwrap(), 9);
    assert!(is_invalid_input(r.seek(SeekFrom::Current(-10))));
    assert_eq!(r.position(), 9);
    assert!(is_invalid_input(r.seek(SeekFrom::End(-5))));
    assert_eq!(r.seek(SeekFrom::Start(u64::MAX)).unwrap(), u64::MAX);
    assert!(is_invalid_input(r.seek(SeekFrom::Current(1))));
    assert_eq!(r.seek(SeekFrom::Current(i64::MIN)).unwrap(), u64::MAX - (1u64 << 63));
}

#[test]
fn file_size_is_the_length() {
    let mut r = Reader::new(vec![0; 17]);
    r.skip(5).unwrap();
    assert_eq!(r.get_file_size().unwrap(), 17);
    assert_eq!(r.position(), 5);
}

#[test]
fn fixed_string_decodes_text() {
    let mut r = Reader::new(b"isomavc1".to_vec());
    assert_eq!(r.read_fixed_string(4).unwrap(), "isom");
    assert_eq!(r.read_fixed_string(4).unwrap(), "avc1");
    assert!(is_eof(r.read_fixed_string(1)));
    assert_eq!(r.read_fixed_string(0).unwrap(), "");
}

#[test]
fn fixed_string_replaces_invalid_bytes() {
    let mut r = Reader::new(vec![0xa9, b'n', b'a', b'm']);
    assert_eq!(r.read_fixed_string(4).unwrap(), "\u{fffd}nam");
    let mut r = Reader::new(vec![0xc3, 0xa9, b'x']);
    assert_eq!(r.read_fixed_string(3).unwrap(), "\u{e9}x");
}

#[test]
fn read_string_strips_trailing_nuls() {
    let mut r = Reader::new(b"Test\0\0next".to_vec());
    assert_eq!(r.read_string(6).unwrap(), "Test");
    assert_eq!(r.position(), 6);
    assert_eq!(r.read_string(4).unwrap(), "next");
    assert_eq!(r.read_string(0).unwrap(), "");
    let mut r = Reader::new(b"a\0b\0".to_vec());
    assert_eq!(r.read_string(4).unwrap(), "a\0b");
    let mut r = Reader::new(vec![0, 0, 0]);
    assert_eq!(r.read_string(3).unwrap(), "");
}

#[test]
fn read_string_rejects_invalid_utf8() {
    let mut r = Reader::new(vec![b'a', 0xff, b'b', 0]);
    assert!(is_invalid_data(r.read_string(4)));
    assert_eq!(r.position(), 4);
    let mut r = Reader::new(vec![b'a']);
    assert!(is_eof(r.read_string(2)));
    assert_eq!(r.position(), 0);
    let mut r = Reader::new(vec![0xe4, 0xb8, 0xad, 0]);
    assert_eq!(r.read_string(4).unwrap(), "\u{4e2d}");
}

#[test]
fn read_string_until_null_stops_at_the_nul() {
    let mut r = Reader::new(b"name\0place\0rest".to_vec());
    assert_eq!(r.read_string_until_null().unwrap(), "name");
    assert_eq!(r.position(), 5);
    assert_eq!(r.read_string_until_null().unwrap(), "place");
    assert_eq!(r.position(), 11);
    assert!(is_eof(r.read_string_until_null()));
    assert_eq!(r.position(), 15);
    let mut r = Reader::new(vec![0, 0xff, 0]);
    assert_eq!(r.read_string_until_null().unwrap(), "");
    assert!(is_invalid_data(r.read_string_until_null()));
    assert_eq!(r.position(), 3);
}
