//! Tests for the bounded and sequential adapters, the byte iterator, and the
//! generic derived read operations driven by scripted sources.

use io_core::Chain;
use io_core::Cursor;
use io_core::Error;
use io_core::ErrorKind;
use io_core::Read;

/// A source whose `read` results are scripted in advance: each step hands out
/// some bytes, reports end-of-data, or fails.  After the script runs out it
/// reports end-of-data.  Used to drive the generic retry loops from outside
/// the library.
struct ScriptedReader {
    steps: Vec<Result<Vec<u8>, ErrorKind>>,
    next: usize,
    calls: usize,
}

impl ScriptedReader {
    fn new(steps: Vec<Result<Vec<u8>, ErrorKind>>) -> ScriptedReader {
        ScriptedReader { steps, next: 0, calls: 0 }
    }
}

impl Read for ScriptedReader {
    // The two specification members exist only for the verifier; nothing at
    // run time ever calls them.
    fn data(&self) -> vstd::prelude::Seq<u8> {
        panic!("specification-only member");
    }

    fn read_budget(&self) -> vstd::prelude::nat {
        panic!("specification-only member");
    }

    fn reliable(&self) -> bool {
        panic!("specification-only member");
    }

    fn read(&mut self, dst: &mut Vec<u8>) -> Result<usize, Error> {
        self.calls += 1;
        if self.next >= self.steps.len() {
            return Ok(0);
        }
        let step = self.steps[self.next].clone();
        self.next += 1;
        match step {
            Ok(bytes) => {
                let n = bytes.len().min(dst.len());
                dst[..n].copy_from_slice(&bytes[..n]);
                Ok(n)
            }
            Err(kind) => Err(Error::new(kind, "scripted failure")),
        }
    }
}

#[test]
fn take_limit_and_set_limit() {
    let c = Cursor::new(b"some bytes".to_vec());
    let mut handle = c.take(5);
    assert_eq!(handle.limit(), 5);
    handle.set_limit(10);
    assert_eq!(handle.limit(), 10);
    let inner = handle.into_inner();
    assert_eq!(inner.position(), 0);
}

#[test]
fn take_caps_total_bytes_delivered() {
    let c = Cursor::new(b"Bytes and more bytes".to_vec());
    let mut handle = c.take(5);
    let mut out = Vec::new();
    let n = handle.read_to_end(&mut out).unwrap();
    assert_eq!(n, 5);
    assert_eq!(out, b"Bytes".to_vec());
    // Exhausted: further reads return zero bytes without touching the source.
    let mut dst = vec![0u8; 4];
    assert_eq!(handle.read(&mut dst).unwrap(), 0);
    assert_eq!(handle.limit(), 0);
    assert_eq!(handle.get_ref().position(), 5);
}

#[test]
fn take_exhaustion_never_probes_the_source() {
    let src = ScriptedReader::new(vec![Ok(b"abc".to_vec())]);
    let mut handle = src.take(0);
    let mut dst = vec![0u8; 4];
    assert_eq!(handle.read(&mut dst).unwrap(), 0);
    assert_eq!(handle.read(&mut dst).unwrap(), 0);
    assert_eq!(handle.get_ref().calls, 0);
}

#[test]
fn take_short_source_ends_early() {
    let c = Cursor::new(b"ab".to_vec());
    let mut handle = c.take(100);
    let mut out = Vec::new();
    assert_eq!(handle.read_to_end(&mut out).unwrap(), 2);
    assert_eq!(out, b"ab".to_vec());
    assert_eq!(handle.limit(), 98);
}

#[test]
fn take_get_mut_reaches_the_source() {
    let c = Cursor::new(b"abcdef".to_vec());
    let mut handle = c.take(4);
    handle.get_mut().set_position(2);
    let mut out = Vec::new();
    assert_eq!(handle.read_to_end(&mut out).unwrap(), 4);
    assert_eq!(out, b"cdef".to_vec());
}

#[test]
fn take_size_hint_is_capped() {
    let c = Cursor::new(b"abcdef".to_vec());
    let handle = c.take(4);
    assert_eq!(handle.size_hint(), (4, Some(4)));
    let c2 = Cursor::new(b"ab".to_vec());
    let handle2 = c2.take(100);
    assert_eq!(handle2.size_hint(), (2, Some(2)));
}

#[test]
fn chain_delivers_first_then_second() {
    let a = Cursor::new(b"Hello, ".to_vec());
    let b = Cursor::new(b"world!".to_vec());
    let mut chain = Chain::new(a, b);
    let mut out = Vec::new();
    let n = chain.read_to_end(&mut out).unwrap();
    assert_eq!(n, 13);
    assert_eq!(out, b"Hello, world!".to_vec());
}

#[test]
fn chain_in_small_steps_keeps_order() {
    let a = Cursor::new(b"Hello, ".to_vec());
    let b = Cursor::new(b"world!".to_vec());
    let mut chain = Chain::new(a, b);
    let mut collected = Vec::new();
    let mut dst = vec![0u8; 3];
    loop {
        let n = chain.read(&mut dst).unwrap();
        if n == 0 {
            break;
        }
        collected.extend_from_slice(&dst[..n]);
    }
    assert_eq!(collected, b"Hello, world!".to_vec());
}

#[test]
fn chain_never_returns_to_an_exhausted_first() {
    // A first source that would produce more bytes after once reporting
    // end-of-data: the chain must never show them.
    let first = ScriptedReader::new(vec![
        Ok(b"one".to_vec()),
        Ok(vec![]),
        Ok(b"LATE".to_vec()),
    ]);
    let second = Cursor::new(b"two".to_vec());
    let mut chain = Chain::new(first, second);
    let mut out = Vec::new();
    chain.read_to_end(&mut out).unwrap();
    assert_eq!(out, b"onetwo".to_vec());
    let (first, _) = chain.into_inner();
    // Only the two calls before the switch reached the first source.
    assert_eq!(first.calls, 2);
}

#[test]
fn chain_accessors() {
    let a = Cursor::new(b"x".to_vec());
    let b = Cursor::new(b"y".to_vec());
    let mut chain = Chain::new(a, b);
    assert_eq!(chain.get_ref().0.get_ref().as_slice(), b"x");
    chain.get_mut().1.set_position(1);
    let (a, b) = chain.into_inner();
    assert_eq!(a.position(), 0);
    assert_eq!(b.position(), 1);
}

#[test]
fn chain_size_hint_adds_both() {
    let a = Cursor::new(b"abc".to_vec());
    let b = Cursor::new(b"de".to_vec());
    let chain = Chain::new(a, b);
    assert_eq!(chain.size_hint(), (5, Some(5)));
}

#[test]
fn bytes_delivers_one_at_a_time() {
    let c = Cursor::new(b"Hi!".to_vec());
    let mut it = c.bytes();
    assert_eq!(it.next().unwrap().unwrap(), b'H');
    assert_eq!(it.next().unwrap().unwrap(), b'i');
    assert_eq!(it.next().unwrap().unwrap(), b'!');
    assert!(it.next().is_none());
    assert!(it.next().is_none());
}

#[test]
fn bytes_retries_interruptions_and_surfaces_errors() {
    let src = ScriptedReader::new(vec![
        Err(ErrorKind::Interrupted),
        Ok(b"a".to_vec()),
        Err(ErrorKind::Uncategorized),
        Ok(b"b".to_vec()),
    ]);
    let mut it = src.bytes();
    assert_eq!(it.next().unwrap().unwrap(), b'a');
    let e = it.next().unwrap().unwrap_err();
    assert_eq!(e.kind(), ErrorKind::Uncategorized);
    assert_eq!(it.next().unwrap().unwrap(), b'b');
    assert!(it.next().is_none());
}

#[test]
fn read_exact_loops_through_short_reads() {
    // Short reads, an interruption, then enough bytes: read_exact fills the
    // whole buffer.
    let src = ScriptedReader::new(vec![
        Ok(b"ab".to_vec()),
        Err(ErrorKind::Interrupted),
        Ok(b"cd".to_vec()),
        Ok(b"e".to_vec()),
    ]);
    let mut src = src;
    let mut dst = vec![0u8; 5];
    src.read_exact(&mut dst).unwrap();
    assert_eq!(dst, b"abcde".to_vec());
}

#[test]
fn read_exact_reports_unexpected_eof_on_short_supply() {
    let src = ScriptedReader::new(vec![Ok(b"ab".to_vec()), Ok(vec![])]);
    let mut src = src;
    let mut dst = vec![9u8; 5];
    let e = src.read_exact(&mut dst).unwrap_err();
    assert_eq!(e.kind(), ErrorKind::UnexpectedEof);
    // Only the bytes actually supplied were used; the rest is untouched.
    assert_eq!(dst, b"ab\x09\x09\x09".to_vec());
}

#[test]
fn read_to_end_retries_interruptions_and_keeps_partial_bytes() {
    let src = ScriptedReader::new(vec![
        Ok(b"abc".to_vec()),
        Err(ErrorKind::Interrupted),
        Ok(b"def".to_vec()),
    ]);
    let mut src = src;
    let mut out = Vec::new();
    assert_eq!(src.read_to_end(&mut out).unwrap(), 6);
    assert_eq!(out, b"abcdef".to_vec());

    let failing = ScriptedReader::new(vec![
        Ok(b"xy".to_vec()),
        Err(ErrorKind::Uncategorized),
    ]);
    let mut failing = failing;
    let mut out = Vec::new();
    let e = failing.read_to_end(&mut out).unwrap_err();
    assert_eq!(e.kind(), ErrorKind::Uncategorized);
    assert_eq!(out, b"xy".to_vec());
}
