//! Tests for the in-memory cursor: reading, writing, seeking, and the
//! round-trip behavior of writes at increasing positions.

use io_core::Cursor;
use io_core::ErrorKind;
use io_core::Read;
use io_core::Seek;
use io_core::SeekFrom;
use io_core::Write;

#[test]
fn new_cursor_starts_at_zero() {
    let c = Cursor::new(vec![1u8, 2, 3, 4, 5]);
    assert_eq!(c.position(), 0);
    assert_eq!(c.get_ref().as_slice(), &[1, 2, 3, 4, 5]);
    assert!(!c.is_empty());
}

#[test]
fn set_position_and_remaining_slice() {
    let mut c = Cursor::new(vec![1u8, 2, 3, 4, 5]);
    assert_eq!(c.remaining_slice(), &[1, 2, 3, 4, 5]);
    c.set_position(2);
    assert_eq!(c.remaining_slice(), &[3, 4, 5]);
    c.set_position(4);
    assert_eq!(c.remaining_slice(), &[5]);
    c.set_position(6);
    assert_eq!(c.remaining_slice(), &[] as &[u8]);
    assert!(c.is_empty());
}

#[test]
fn is_empty_at_and_past_end() {
    let mut c = Cursor::new(vec![1u8, 2, 3, 4, 5]);
    c.set_position(2);
    assert!(!c.is_empty());
    c.set_position(5);
    assert!(c.is_empty());
    c.set_position(10);
    assert!(c.is_empty());
}

#[test]
fn read_fills_prefix_and_advances() {
    let mut c = Cursor::new(vec![1u8, 2, 3, 4, 5, 6, 7, 8]);
    let mut dst = vec![0u8; 3];
    let n = c.read(&mut dst).unwrap();
    assert_eq!(n, 3);
    assert_eq!(dst, vec![1, 2, 3]);
    assert_eq!(c.position(), 3);
    let n = c.read(&mut dst).unwrap();
    assert_eq!(n, 3);
    assert_eq!(dst, vec![4, 5, 6]);
}

#[test]
fn read_short_at_end_then_zero() {
    let mut c = Cursor::new(vec![9u8, 8]);
    let mut dst = vec![0u8; 4];
    assert_eq!(c.read(&mut dst).unwrap(), 2);
    assert_eq!(&dst[..2], &[9, 8]);
    assert_eq!(c.read(&mut dst).unwrap(), 0);
}

#[test]
fn read_past_end_position_yields_zero_bytes() {
    let mut c = Cursor::new(vec![1u8, 2, 3]);
    c.set_position(100);
    let mut dst = vec![0u8; 4];
    assert_eq!(c.read(&mut dst).unwrap(), 0);
    assert_eq!(dst, vec![0, 0, 0, 0]);
    assert_eq!(c.position(), 100);
}

#[test]
fn read_exact_succeeds_and_fails_cleanly() {
    let mut c = Cursor::new(vec![1u8, 2, 3, 4, 5]);
    let mut dst = vec![0u8; 3];
    c.read_exact(&mut dst).unwrap();
    assert_eq!(dst, vec![1, 2, 3]);
    assert_eq!(c.position(), 3);

    let mut big = vec![7u8; 4];
    let e = c.read_exact(&mut big).unwrap_err();
    assert_eq!(e.kind(), ErrorKind::UnexpectedEof);
    // The cursor and the buffer are untouched on failure.
    assert_eq!(c.position(), 3);
    assert_eq!(big, vec![7, 7, 7, 7]);
}

#[test]
fn write_overwrites_in_place_and_truncates() {
    let mut c = Cursor::new(vec![0u8; 4]);
    assert_eq!(c.write(&[1, 2]).unwrap(), 2);
    assert_eq!(c.position(), 2);
    // A bare write truncates silently at capacity.
    assert_eq!(c.write(&[3, 4, 5, 6]).unwrap(), 2);
    assert_eq!(c.position(), 4);
    assert_eq!(c.get_ref().as_slice(), &[1, 2, 3, 4]);
    // At the end, a write accepts zero bytes without error.
    assert_eq!(c.write(&[9]).unwrap(), 0);
    c.set_position(50);
    assert_eq!(c.write(&[9]).unwrap(), 0);
    assert_eq!(c.position(), 50);
}

#[test]
fn write_all_within_capacity() {
    let mut c = Cursor::new(vec![0u8; 10]);
    c.write_all(b"some bytes").unwrap();
    assert_eq!(c.get_ref().as_slice(), b"some bytes");
    assert_eq!(c.position(), 10);
    c.flush().unwrap();
}

#[test]
fn write_all_past_capacity_reports_write_zero() {
    let mut c = Cursor::new(vec![0u8; 4]);
    let e = c.write_all(b"some bytes").unwrap_err();
    assert_eq!(e.kind(), ErrorKind::WriteZero);
    // The part that fits was written; nothing wrapped around.
    assert_eq!(c.get_ref().as_slice(), b"some");
    assert_eq!(c.position(), 4);
}

#[test]
fn seek_start_needs_no_validation() {
    let mut c = Cursor::new(vec![1u8, 2, 3]);
    assert_eq!(c.seek(SeekFrom::Start(100)).unwrap(), 100);
    assert_eq!(c.position(), 100);
    let mut dst = vec![0u8; 1];
    assert_eq!(c.read(&mut dst).unwrap(), 0);
}

#[test]
fn seek_current_minus_one_at_start_is_invalid_input() {
    let mut c = Cursor::new(vec![1u8, 2, 3, 4, 5]);
    let e = c.seek(SeekFrom::Current(-1)).unwrap_err();
    assert_eq!(e.kind(), ErrorKind::InvalidInput);
    assert_eq!(c.position(), 0);
}

#[test]
fn seek_end_zero_returns_length_from_any_position() {
    for start in [0u64, 2, 5, 9] {
        let mut c = Cursor::new(vec![1u8, 2, 3, 4, 5]);
        c.set_position(start);
        assert_eq!(c.seek(SeekFrom::End(0)).unwrap(), 5);
        assert_eq!(c.position(), 5);
    }
}

#[test]
fn seek_arithmetic_within_bounds() {
    let mut c = Cursor::new(vec![1u8, 2, 3, 4, 5]);
    assert_eq!(c.seek(SeekFrom::Current(2)).unwrap(), 2);
    assert_eq!(c.position(), 2);
    assert_eq!(c.seek(SeekFrom::Current(-1)).unwrap(), 1);
    assert_eq!(c.position(), 1);
    assert_eq!(c.seek(SeekFrom::End(-3)).unwrap(), 2);
    assert_eq!(c.position(), 2);
}

#[test]
fn seek_overflow_is_invalid_input() {
    let mut c = Cursor::new(vec![1u8, 2, 3]);
    c.set_position(u64::MAX);
    let e = c.seek(SeekFrom::Current(1)).unwrap_err();
    assert_eq!(e.kind(), ErrorKind::InvalidInput);
    assert_eq!(c.position(), u64::MAX);
    let e = c.seek(SeekFrom::End(-4)).unwrap_err();
    assert_eq!(e.kind(), ErrorKind::InvalidInput);
}

#[test]
fn seek_current_minimum_offset() {
    let mut c = Cursor::new(vec![0u8; 3]);
    c.set_position(42);
    let e = c.seek(SeekFrom::Current(i64::MIN)).unwrap_err();
    assert_eq!(e.kind(), ErrorKind::InvalidInput);
    assert_eq!(c.position(), 42);
}

#[test]
fn stream_len_and_position() {
    let mut c = Cursor::new(vec![1u8, 2, 3, 4, 5, 6, 7]);
    c.set_position(3);
    assert_eq!(c.stream_len().unwrap(), 7);
    assert_eq!(c.position(), 3);
    assert_eq!(c.stream_position().unwrap(), 3);
    c.rewind().unwrap();
    assert_eq!(c.position(), 0);
}

#[test]
fn write_round_trip_zero_padded() {
    // Writes at increasing positions inside a zeroed fixed-size buffer, then
    // a rewind and a full read reproduce the bytes, zero-padded elsewhere.
    let mut c = Cursor::new(vec![0u8; 15]);
    c.seek(SeekFrom::Start(2)).unwrap();
    c.write_all(b"ab").unwrap();
    c.seek(SeekFrom::Start(7)).unwrap();
    c.write_all(b"xyz").unwrap();
    c.seek(SeekFrom::Start(0)).unwrap();
    let mut out = Vec::new();
    let n = c.read_to_end(&mut out).unwrap();
    assert_eq!(n, 15);
    assert_eq!(out, b"\0\0ab\0\0\0xyz\0\0\0\0\0".to_vec());
}

#[test]
fn get_mut_and_into_inner() {
    let mut c = Cursor::new(vec![1u8, 2, 3]);
    c.get_mut()[0] = 9;
    assert_eq!(c.get_ref().as_slice(), &[9, 2, 3]);
    let v = c.into_inner();
    assert_eq!(v, vec![9, 2, 3]);
}

#[test]
fn cursor_size_hint_is_exact() {
    let mut c = Cursor::new(vec![1u8, 2, 3, 4]);
    assert_eq!(c.size_hint(), (4, Some(4)));
    c.set_position(3);
    assert_eq!(c.size_hint(), (1, Some(1)));
    c.set_position(9);
    assert_eq!(c.size_hint(), (0, Some(0)));
}
