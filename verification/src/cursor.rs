//! An in-memory byte buffer with a position, implementing the full set of
//! stream capabilities in terms of plain buffer arithmetic.

use vstd::prelude::*;
use vstd::slice::slice_subrange;

use crate::buffer::copy_bytes;
use crate::bufread::BufRead;
use crate::error::Error;
use crate::error::ErrorKind;
use crate::read::Read;
use crate::seek::Seek;
use crate::seek::SeekFrom;
use crate::seek::seek_target;
use crate::write::Write;

verus! {

/// The buffer contents after one write of `src` at index `p`: bytes before
/// `p` and from `p + src.len()` on are untouched.
pub open spec fn write_at(content: Seq<u8>, p: int, src: Seq<u8>) -> Seq<u8> {
    content.take(p) + src + content.skip(p + src.len())
}

/// The buffer contents after a sequence of writes, each given as a position
/// and the bytes written there, applied in order.
pub open spec fn apply_writes(content: Seq<u8>, ws: Seq<(int, Seq<u8>)>) -> Seq<u8>
    decreases ws.len(),
{
    if ws.len() == 0 {
        content
    } else {
        apply_writes(write_at(content, ws[0].0, ws[0].1), ws.skip(1))
    }
}

/// Whether a sequence of writes lands at increasing positions, without
/// overlap, inside a buffer of length `len`.
pub open spec fn writes_fit(ws: Seq<(int, Seq<u8>)>, len: int) -> bool {
    forall|j: int| 0 <= j < ws.len() ==> {
        &&& 0 <= (#[trigger] ws[j]).0
        &&& ws[j].0 + ws[j].1.len() <= len
        &&& (j + 1 < ws.len() ==> ws[j].0 + ws[j].1.len() <= ws[j + 1].0)
    }
}

/// The byte a sequence of non-overlapping writes leaves at index `i`: the
/// byte some write put there, or `fallback` when no write covers `i`.
pub open spec fn written_byte(ws: Seq<(int, Seq<u8>)>, i: int, fallback: u8) -> u8
    decreases ws.len(),
{
    if ws.len() == 0 {
        fallback
    } else if ws[0].0 <= i < ws[0].0 + ws[0].1.len() {
        ws[0].1[i - ws[0].0]
    } else {
        written_byte(ws.skip(1), i, fallback)
    }
}

/// Writes at or above a given index leave every byte below it alone.
proof fn lemma_written_byte_untouched(ws: Seq<(int, Seq<u8>)>, len: int, i: int, fallback: u8)
    requires
        writes_fit(ws, len),
        ws.len() > 0 ==> i < ws[0].0,
    ensures
        written_byte(ws, i, fallback) == fallback,
    decreases ws.len(),
{
    if ws.len() > 0 {
        assert(ws.skip(1) =~= ws.subrange(1, ws.len() as int));
        assert forall|j: int| 0 <= j < ws.skip(1).len() implies {
            &&& 0 <= (#[trigger] ws.skip(1)[j]).0
            &&& ws.skip(1)[j].0 + ws.skip(1)[j].1.len() <= len
            &&& (j + 1 < ws.skip(1).len()
                ==> ws.skip(1)[j].0 + ws.skip(1)[j].1.len() <= ws.skip(1)[j + 1].0)
        } by {
            assert(ws.skip(1)[j] == ws[j + 1]);
            if j + 1 < ws.skip(1).len() {
                assert(ws.skip(1)[j + 1] == ws[j + 2]);
            }
        }
        lemma_written_byte_untouched(ws.skip(1), len, i, fallback);
    }
}

/// The round-trip law for in-memory buffers: after any sequence of writes at
/// increasing positions within capacity, the buffer's length is unchanged and
/// every index holds exactly the byte written there — or the original byte,
/// such as the zero padding of a fresh buffer, where no write landed.  A
/// [`Cursor`] rewound to the start then reads back precisely this content.
pub proof fn lemma_write_round_trip(content: Seq<u8>, ws: Seq<(int, Seq<u8>)>)
    requires
        writes_fit(ws, content.len() as int),
    ensures
        apply_writes(content, ws).len() == content.len(),
        forall|i: int| 0 <= i < content.len()
            ==> #[trigger] apply_writes(content, ws)[i] == written_byte(ws, i, content[i]),
    decreases ws.len(),
{
    if ws.len() > 0 {
        let p0 = ws[0].0;
        let s0 = ws[0].1;
        let c1 = write_at(content, p0, s0);
        assert(c1.len() == content.len());
        let rest = ws.skip(1);
        assert forall|j: int| 0 <= j < rest.len() implies {
            &&& 0 <= (#[trigger] rest[j]).0
            &&& rest[j].0 + rest[j].1.len() <= content.len()
            &&& (j + 1 < rest.len() ==> rest[j].0 + rest[j].1.len() <= rest[j + 1].0)
        } by {
            assert(rest[j] == ws[j + 1]);
            if j + 1 < rest.len() {
                assert(rest[j + 1] == ws[j + 2]);
            }
        }
        lemma_write_round_trip(c1, rest);
        assert forall|i: int| 0 <= i < content.len() implies
            #[trigger] apply_writes(content, ws)[i] == written_byte(ws, i, content[i]) by {
            if p0 <= i < p0 + s0.len() {
                assert(c1[i] == s0[i - p0]);
                if rest.len() > 0 {
                    assert(rest[0] == ws[1]);
                    lemma_written_byte_untouched(rest, content.len() as int, i, c1[i]);
                } else {
                    assert(written_byte(rest, i, c1[i]) == c1[i]);
                }
            } else {
                assert(c1[i] == content[i]);
            }
        }
    }
}

/// A `Cursor` wraps an in-memory byte buffer and provides it with stream
/// capabilities: reading, writing, seeking, and buffered reading.
///
/// The position may legally exceed the buffer's length: reads there deliver
/// zero bytes, and writes there accept zero bytes.  Writing never grows the
/// buffer; it overwrites bytes at the current position and truncates at the
/// buffer's capacity.
#[derive(Debug, Default, PartialEq, Eq)]
pub struct Cursor {
    inner: Vec<u8>,
    pos: u64,
}

impl Cursor {
    /// The wrapped buffer's contents, for use in specifications.
    pub closed spec fn buf(&self) -> Seq<u8> {
        self.inner@
    }

    /// The current position, for use in specifications.
    pub closed spec fn posn(&self) -> u64 {
        self.pos
    }

    /// The index the next read or write acts at: the position, clamped to the
    /// buffer's length.
    pub open spec fn start_index(&self) -> int {
        if self.posn() <= self.buf().len() {
            self.posn() as int
        } else {
            self.buf().len() as int
        }
    }

    /// The bytes between the current position and the end of the buffer.
    pub open spec fn remaining(&self) -> Seq<u8> {
        self.buf().skip(self.start_index())
    }

    /// Creates a cursor wrapping the given buffer, positioned at `0`.
    pub fn new(inner: Vec<u8>) -> (c: Cursor)
        ensures
            c.buf() == inner@,
            c.posn() == 0,
    {
        Cursor { inner, pos: 0 }
    }

    /// Consumes this cursor, returning the underlying buffer.
    pub fn into_inner(self) -> (r: Vec<u8>)
        ensures
            r@ == self.buf(),
    {
        self.inner
    }

    /// Gets a reference to the underlying buffer.
    pub fn get_ref(&self) -> (r: &Vec<u8>)
        ensures
            r@ == self.buf(),
    {
        &self.inner
    }

    /// Gets a mutable reference to the underlying buffer.
    ///
    /// Changing the buffer's length through this reference moves the point at
    /// which this cursor reports end-of-data.
    pub fn get_mut(&mut self) -> (r: &mut Vec<u8>)
        ensures
            r@ == old(self).buf(),
            final(self).buf() == final(r)@,
            final(self).posn() == old(self).posn(),
    {
        &mut self.inner
    }

    /// Returns the current position of this cursor.
    pub fn position(&self) -> (p: u64)
        ensures
            p == self.posn(),
    {
        self.pos
    }

    /// Sets the position of this cursor; positions past the end of the buffer
    /// are legal.
    pub fn set_position(&mut self, pos: u64)
        ensures
            final(self).posn() == pos,
            final(self).buf() == old(self).buf(),
    {
        self.pos = pos;
    }

    /// Returns the bytes between the current position and the end of the
    /// buffer.
    pub fn remaining_slice(&self) -> (r: &[u8])
        ensures
            r@ == self.remaining(),
    {
        let len = self.inner.len();
        let start: usize = if self.pos < len as u64 {
            self.pos as usize
        } else {
            len
        };
        slice_subrange(self.inner.as_slice(), start, len)
    }

    /// Returns `true` if no bytes remain between the position and the end of
    /// the buffer.
    pub fn is_empty(&self) -> (r: bool)
        ensures
            r == (self.remaining().len() == 0),
    {
        self.pos >= self.inner.len() as u64
    }
}

impl Read for Cursor {
    /// The bytes between the current position and the end of the buffer.
    open spec fn data(&self) -> Seq<u8> {
        self.remaining()
    }

    /// A cursor never reports an interrupted read.
    open spec fn read_budget(&self) -> nat {
        0
    }

    /// A cursor never fails to read.
    open spec fn reliable(&self) -> bool {
        true
    }

    fn read(&mut self, dst: &mut Vec<u8>) -> (r: Result<usize, Error>)
        ensures
            ({
                let m = vstd::math::min(
                    old(dst)@.len() as int,
                    old(self).remaining().len() as int,
                );
                &&& r == Ok::<usize, Error>(m as usize)
                &&& final(self).buf() == old(self).buf()
                &&& final(self).posn() == old(self).posn() + m
            }),
    {
        let len = self.inner.len();
        let start: usize = if self.pos < len as u64 {
            self.pos as usize
        } else {
            len
        };
        let avail: usize = len - start;
        let n: usize = if dst.len() < avail {
            dst.len()
        } else {
            avail
        };
        copy_bytes(dst, 0, self.inner.as_slice(), start, n);
        proof {
            assert(dst@ =~= old(self).remaining().take(n as int) + old(dst)@.skip(n as int));
        }
        self.pos = self.pos + n as u64;
        proof {
            assert(self.remaining() =~= old(self).remaining().skip(n as int));
            assert(self.reliable());
        }
        Ok(n)
    }

    /// Reads exactly `dst.len()` bytes if that many remain, and otherwise
    /// fails with [`ErrorKind::UnexpectedEof`] leaving cursor and buffer
    /// untouched.
    fn read_exact(&mut self, dst: &mut Vec<u8>) -> (r: Result<(), Error>)
        ensures
            r is Ok <==> old(dst)@.len() <= old(self).remaining().len(),
            final(self).buf() == old(self).buf(),
            match r {
                Ok(()) => final(self).posn() == old(self).posn() + old(dst)@.len(),
                Err(e) => {
                    &&& e.kind() == ErrorKind::UnexpectedEof
                    &&& final(self).posn() == old(self).posn()
                    &&& final(dst)@ == old(dst)@
                },
            },
    {
        let len = self.inner.len();
        let start: usize = if self.pos < len as u64 {
            self.pos as usize
        } else {
            len
        };
        let avail: usize = len - start;
        if dst.len() <= avail {
            let n = dst.len();
            copy_bytes(dst, 0, self.inner.as_slice(), start, n);
            proof {
                assert(dst@ =~= old(self).remaining().take(n as int) + old(dst)@.skip(n as int));
            }
            self.pos = self.pos + n as u64;
            proof {
                assert(self.remaining() =~= old(self).remaining().skip(n as int));
            }
            Ok(())
        } else {
            proof {
                assert(self.data() == old(self).data().skip(0));
                assert(dst@ =~= old(self).data().take(0) + old(dst)@.skip(0));
            }
            Err(Error::new(ErrorKind::UnexpectedEof, "failed to fill whole buffer"))
        }
    }

    /// An exact byte count: the bytes remaining in the buffer.
    fn size_hint(&self) -> (r: (usize, Option<usize>))
        ensures
            r.0 == self.remaining().len(),
            r.1 == Some(r.0),
    {
        let len = self.inner.len();
        let start: usize = if self.pos < len as u64 {
            self.pos as usize
        } else {
            len
        };
        let avail: usize = len - start;
        (avail, Some(avail))
    }
}

impl BufRead for Cursor {
    /// The whole remaining region is exposed at once.
    open spec fn avail(&self) -> nat {
        self.remaining().len()
    }

    proof fn avail_le_data(&self) {
    }

    /// Exposes the whole remaining region — the bytes between the position
    /// and the end of the buffer; a cursor needs no filling and never fails.
    fn fill_buf(&mut self) -> (r: Result<&[u8], Error>)
        ensures
            r is Ok,
            *final(self) == *old(self),
            r matches Ok(b) ==> b@ == old(self).remaining(),
    {
        Ok(self.remaining_slice())
    }

    /// Advances the position by `amt` bytes.
    fn consume(&mut self, amt: usize)
        ensures
            final(self).buf() == old(self).buf(),
            final(self).posn() == old(self).posn() + amt,
    {
        let len = self.inner.len();
        proof {
            if self.posn() <= self.buf().len() {
                assert(amt <= len - self.posn());
            } else {
                assert(self.remaining().len() == 0);
                assert(amt == 0);
            }
        }
        self.pos = self.pos + amt as u64;
        proof {
            assert(self.remaining() =~= old(self).remaining().skip(amt as int));
        }
    }
}

impl Write for Cursor {
    /// The bytes before the clamped position count as accepted by this sink.
    open spec fn sink(&self) -> Seq<u8> {
        self.buf().take(self.start_index())
    }

    /// A cursor never reports an interrupted write.
    open spec fn write_budget(&self) -> nat {
        0
    }

    /// Overwrites bytes at the current position, truncating at the buffer's
    /// capacity: the buffer never grows, and a write at or past the end
    /// accepts zero bytes without error.
    fn write(&mut self, src: &[u8]) -> (r: Result<usize, Error>)
        ensures
            ({
                let p = old(self).start_index();
                let m = vstd::math::min(src@.len() as int, old(self).buf().len() - p);
                &&& r == Ok::<usize, Error>(m as usize)
                &&& final(self).buf() == write_at(old(self).buf(), p, src@.take(m))
                &&& final(self).posn() == old(self).posn() + m
            }),
    {
        let len = self.inner.len();
        let start: usize = if self.pos < len as u64 {
            self.pos as usize
        } else {
            len
        };
        let room: usize = len - start;
        let n: usize = if src.len() < room {
            src.len()
        } else {
            room
        };
        copy_bytes(&mut self.inner, start, src, 0, n);
        proof {
            assert(self.inner@ =~= old(self).buf().take(start as int)
                + src@.take(n as int) + old(self).buf().skip(start + n));
        }
        self.pos = self.pos + n as u64;
        proof {
            assert(self.sink() =~= old(self).sink() + src@.take(n as int));
        }
        Ok(n)
    }

    /// Flushing is a no-op: the buffer is the final destination.
    fn flush(&mut self) -> (r: Result<(), Error>)
        ensures
            r is Ok,
            *final(self) == *old(self),
    {
        Ok(())
    }

    /// Writes all of `src` if it fits between the position and the end of the
    /// buffer.  Otherwise the part that fits is written, the position moves
    /// to the end, and the call fails with [`ErrorKind::WriteZero`] rather
    /// than silently truncating.
    fn write_all(&mut self, src: &[u8]) -> (r: Result<(), Error>)
        ensures
            ({
                let p = old(self).start_index();
                let room = old(self).buf().len() - p;
                if src@.len() <= room {
                    &&& r is Ok
                    &&& final(self).buf() == write_at(old(self).buf(), p, src@)
                    &&& final(self).posn() == old(self).posn() + src@.len()
                } else {
                    &&& r matches Err(e) && e.kind() == ErrorKind::WriteZero
                    &&& final(self).buf() == old(self).buf().take(p) + src@.take(room)
                    &&& final(self).posn() == old(self).posn() + room
                }
            }),
    {
        let len = self.inner.len();
        let start: usize = if self.pos < len as u64 {
            self.pos as usize
        } else {
            len
        };
        let room: usize = len - start;
        if src.len() <= room {
            let n = src.len();
            copy_bytes(&mut self.inner, start, src, 0, n);
            proof {
                assert(self.inner@ =~= old(self).buf().take(start as int)
                    + src@ + old(self).buf().skip(start + n));
            }
            self.pos = self.pos + n as u64;
            proof {
                assert(self.sink() =~= old(self).sink() + src@);
            }
            Ok(())
        } else {
            copy_bytes(&mut self.inner, start, src, 0, room);
            proof {
                assert(self.inner@ =~= old(self).buf().take(start as int)
                    + src@.take(room as int) + old(self).buf().skip(start + room));
                assert(self.inner@ =~= old(self).buf().take(start as int)
                    + src@.take(room as int));
            }
            self.pos = self.pos + room as u64;
            proof {
                assert(self.sink() =~= old(self).sink() + src@.take(room as int));
            }
            Err(Error::new(ErrorKind::WriteZero, "failed to write whole buffer"))
        }
    }
}

impl Seek for Cursor {
    open spec fn spos(&self) -> u64 {
        self.posn()
    }

    open spec fn slen(&self) -> nat {
        self.buf().len()
    }

    /// Seeks exactly: from the start without any validation, and relative to
    /// the end or the current position with 64-bit overflow and underflow
    /// detection.  A target before byte 0 or beyond `u64::MAX` fails with
    /// [`ErrorKind::InvalidInput`] and leaves the position unchanged.
    fn seek(&mut self, style: SeekFrom) -> (r: Result<u64, Error>)
        ensures
            final(self).buf() == old(self).buf(),
            ({
                let target = seek_target(
                    style,
                    old(self).posn() as int,
                    old(self).buf().len() as int,
                );
                match r {
                    Ok(p) => {
                        &&& 0 <= target <= u64::MAX
                        &&& p == target
                        &&& final(self).posn() == target
                    },
                    Err(e) => {
                        &&& !(0 <= target <= u64::MAX)
                        &&& e.kind() == ErrorKind::InvalidInput
                        &&& final(self).posn() == old(self).posn()
                    },
                }
            }),
    {
        let (base, offset): (u64, i64) = match style {
            SeekFrom::Start(n) => {
                self.pos = n;
                return Ok(n);
            },
            SeekFrom::End(off) => (self.inner.len() as u64, off),
            SeekFrom::Current(off) => (self.pos, off),
        };
        if offset >= 0 {
            if base <= u64::MAX - (offset as u64) {
                self.pos = base + (offset as u64);
                Ok(self.pos)
            } else {
                Err(Error::new(
                    ErrorKind::InvalidInput,
                    "invalid seek to an overflowing position",
                ))
            }
        } else {
            let mag: u64 = if offset == i64::MIN {
                9223372036854775808u64
            } else {
                (-offset) as u64
            };
            if base >= mag {
                self.pos = base - mag;
                Ok(self.pos)
            } else {
                Err(Error::new(
                    ErrorKind::InvalidInput,
                    "invalid seek to a negative position",
                ))
            }
        }
    }

    /// Returns the buffer's length directly, without moving the position.
    fn stream_len(&mut self) -> (r: Result<u64, Error>)
        ensures
            r == Ok::<u64, Error>(old(self).buf().len() as u64),
            *final(self) == *old(self),
    {
        Ok(self.inner.len() as u64)
    }

    /// Returns the position directly, without any seek arithmetic.
    fn stream_position(&mut self) -> (r: Result<u64, Error>)
        ensures
            r == Ok::<u64, Error>(old(self).posn()),
            *final(self) == *old(self),
    {
        Ok(self.pos)
    }
}

} // verus!
