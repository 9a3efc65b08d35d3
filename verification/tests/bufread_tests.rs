//! Tests for the fill/consume protocol and the delimiter- and line-scanning
//! algorithms, including UTF-8 handling and the error taxonomy.

use io_core::BufRead;
use io_core::Chain;
use io_core::Cursor;
use io_core::Error;
use io_core::ErrorKind;
use io_core::Read;
use io_core::read_line;
use io_core::read_to_string;
use io_core::read_until;

#[test]
fn fill_buf_and_consume_on_a_cursor() {
    let mut c = Cursor::new(b"abcdef".to_vec());
    {
        let region = c.fill_buf().unwrap();
        assert_eq!(region, b"abcdef");
    }
    c.consume(2);
    {
        let region = c.fill_buf().unwrap();
        assert_eq!(region, b"cdef");
    }
    c.consume(4);
    assert_eq!(c.fill_buf().unwrap(), b"");
}

#[test]
fn fill_buf_on_take_is_capped() {
    let c = Cursor::new(b"abcdef".to_vec());
    let mut handle = c.take(3);
    {
        let region = handle.fill_buf().unwrap();
        assert_eq!(region, b"abc");
    }
    handle.consume(3);
    assert_eq!(handle.fill_buf().unwrap(), b"");
    assert_eq!(handle.limit(), 0);
}

#[test]
fn fill_buf_on_chain_switches_once() {
    let a = Cursor::new(b"ab".to_vec());
    let b = Cursor::new(b"cd".to_vec());
    let mut chain = Chain::new(a, b);
    {
        let region = chain.fill_buf().unwrap();
        assert_eq!(region, b"ab");
    }
    chain.consume(2);
    {
        let region = chain.fill_buf().unwrap();
        assert_eq!(region, b"cd");
    }
    chain.consume(2);
    assert_eq!(chain.fill_buf().unwrap(), b"");
}

#[test]
fn read_until_scans_hyphen_delimited_segments() {
    let mut c = Cursor::new(b"lorem-ipsum-dolor".to_vec());
    let mut buf = Vec::new();

    let n = read_until(&mut c, b'-', &mut buf).unwrap();
    assert_eq!(n, 6);
    assert_eq!(buf, b"lorem-".to_vec());
    buf.clear();

    let n = read_until(&mut c, b'-', &mut buf).unwrap();
    assert_eq!(n, 6);
    assert_eq!(buf, b"ipsum-".to_vec());
    buf.clear();

    let n = read_until(&mut c, b'-', &mut buf).unwrap();
    assert_eq!(n, 5);
    assert_eq!(buf, b"dolor".to_vec());
    buf.clear();

    let n = read_until(&mut c, b'-', &mut buf).unwrap();
    assert_eq!(n, 0);
    assert_eq!(buf, b"".to_vec());
}

#[test]
fn read_until_returns_the_count_appended() {
    // Without clearing in between, every return value equals the number of
    // bytes appended by that call.
    let mut c = Cursor::new(b"lorem-ipsum-dolor".to_vec());
    let mut buf = Vec::new();
    let mut counts = Vec::new();
    loop {
        let before = buf.len();
        let n = read_until(&mut c, b'-', &mut buf).unwrap();
        assert_eq!(n, buf.len() - before);
        if n == 0 {
            break;
        }
        counts.push(n);
    }
    assert_eq!(counts, vec![6, 6, 5]);
    assert_eq!(buf, b"lorem-ipsum-dolor".to_vec());
}

#[test]
fn read_until_across_a_chain_boundary() {
    let a = Cursor::new(b"lo".to_vec());
    let b = Cursor::new(b"rem-rest".to_vec());
    let mut chain = Chain::new(a, b);
    let mut buf = Vec::new();
    let n = read_until(&mut chain, b'-', &mut buf).unwrap();
    assert_eq!(n, 6);
    assert_eq!(buf, b"lorem-".to_vec());
}

#[test]
fn read_line_scans_lines() {
    let mut c = Cursor::new(b"foo\nbar".to_vec());
    let mut line = String::new();

    let n = read_line(&mut c, &mut line).unwrap();
    assert_eq!(n, 4);
    assert_eq!(line, "foo\n");
    line.clear();

    let n = read_line(&mut c, &mut line).unwrap();
    assert_eq!(n, 3);
    assert_eq!(line, "bar");
    line.clear();

    let n = read_line(&mut c, &mut line).unwrap();
    assert_eq!(n, 0);
    assert_eq!(line, "");
}

#[test]
fn read_line_decodes_multi_byte_text() {
    let text = "héllo wörld\n";
    let mut c = Cursor::new(text.as_bytes().to_vec());
    let mut line = String::new();
    let n = read_line(&mut c, &mut line).unwrap();
    assert_eq!(n, text.len());
    assert_eq!(line, text);
}

#[test]
fn read_line_rejects_malformed_utf8_without_corrupting() {
    let mut c = Cursor::new(vec![b'o', b'k', b'\n', 0xff, 0xfe, b'\n']);
    let mut line = String::from("kept:");
    read_line(&mut c, &mut line).unwrap();
    assert_eq!(line, "kept:ok\n");
    let e = read_line(&mut c, &mut line).unwrap_err();
    assert_eq!(e.kind(), ErrorKind::InvalidData);
    // The previously accumulated text is intact.
    assert_eq!(line, "kept:ok\n");
}

#[test]
fn read_to_string_reads_everything() {
    let mut c = Cursor::new(b"Some valid UTF-8".to_vec());
    let mut s = String::new();
    let n = read_to_string(&mut c, &mut s).unwrap();
    assert_eq!(n, 16);
    assert_eq!(s, "Some valid UTF-8");
}

#[test]
fn read_to_string_rejects_malformed_utf8_unchanged() {
    let mut c = Cursor::new(vec![0xff, 0xff, 0xff, 0xff]);
    let mut s = String::from("before");
    let e = read_to_string(&mut c, &mut s).unwrap_err();
    assert_eq!(e.kind(), ErrorKind::InvalidData);
    assert_eq!(s, "before");
}

#[test]
fn chained_readers_concatenate_as_text() {
    let a = Cursor::new(b"Hello, ".to_vec());
    let b = Cursor::new(b"world!".to_vec());
    let mut chain = Chain::new(a, b);
    let mut s = String::new();
    read_to_string(&mut chain, &mut s).unwrap();
    assert_eq!(s, "Hello, world!");
}

#[test]
fn error_values_carry_kind_and_message() {
    let e = Error::new(ErrorKind::WriteZero, "failed to write whole buffer");
    assert_eq!(e.kind(), ErrorKind::WriteZero);
    assert_eq!(e.message(), "failed to write whole buffer");
    assert_ne!(e.kind(), ErrorKind::Interrupted);
}

#[test]
fn take_read_until_respects_the_budget() {
    let c = Cursor::new(b"lorem-ipsum".to_vec());
    let mut handle = c.take(4);
    let mut buf = Vec::new();
    // The budget ends before the delimiter: the scan stops at end-of-data.
    let n = read_until(&mut handle, b'-', &mut buf).unwrap();
    assert_eq!(n, 4);
    assert_eq!(buf, b"lore".to_vec());
}
