//! The capability of repositioning a stream.

use vstd::prelude::*;

use crate::error::Error;
use crate::error::ErrorKind;

verus! {

/// Enumeration of possible ways to seek within a stream.
#[derive(Clone, Copy, Debug, PartialEq, Eq, Structural)]
pub enum SeekFrom {
    /// Sets the position to the provided number of bytes from the start.
    Start(u64),
    /// Sets the position to the length of the stream plus the given offset.
    ///
    /// It is possible to seek beyond the end of a stream, but it is an error
    /// to seek before byte 0.
    End(i64),
    /// Sets the position to the current position plus the given offset.
    ///
    /// It is possible to seek beyond the end of a stream, but it is an error
    /// to seek before byte 0.
    Current(i64),
}

/// The absolute position a seek aims at, as an unbounded integer: negative or
/// too large values are rejected by [`Seek::seek`].
pub open spec fn seek_target(style: SeekFrom, cur: int, len: int) -> int {
    match style {
        SeekFrom::Start(n) => n as int,
        SeekFrom::End(off) => len + off as int,
        SeekFrom::Current(off) => cur + off as int,
    }
}

/// The `Seek` trait provides a cursor which can be moved within a stream of
/// bytes.
///
/// A stream is modeled by its length, [`Seek::slen`], and the current
/// position, [`Seek::spos`].  A successful seek returns the new absolute
/// position; a seek whose target lies before byte 0, or beyond what a 64-bit
/// position can hold, must fail, with [`ErrorKind::InvalidInput`].
pub trait Seek {
    /// The current position of this stream.
    spec fn spos(&self) -> u64;

    /// The length of this stream in bytes.
    spec fn slen(&self) -> nat;

    /// Seeks to an offset, in bytes; on success the stream's length is
    /// unchanged and the new absolute position is returned.
    ///
    /// A seek beyond the end of the stream is allowed.  On failure the
    /// position is unspecified.
    fn seek(&mut self, style: SeekFrom) -> (r: Result<u64, Error>)
        ensures
            ({
                let target = seek_target(style, old(self).spos() as int, old(self).slen() as int);
                match r {
                    Ok(p) => {
                        &&& 0 <= target <= u64::MAX
                        &&& p == target
                        &&& final(self).spos() == target
                        &&& final(self).slen() == old(self).slen()
                    },
                    Err(e) => !(0 <= target <= u64::MAX)
                        ==> e.kind() == ErrorKind::InvalidInput,
                }
            }),
    ;

    /// Rewinds to the beginning of the stream.
    fn rewind(&mut self) -> (r: Result<(), Error>)
        ensures
            r is Ok ==> final(self).spos() == 0 && final(self).slen() == old(self).slen(),
    {
        match self.seek(SeekFrom::Start(0)) {
            Ok(_) => Ok(()),
            Err(e) => Err(e),
        }
    }

    /// Returns the length of this stream, using up to three seeks; on success
    /// the position is exactly what it was before the call, on failure it is
    /// unspecified.
    fn stream_len(&mut self) -> (r: Result<u64, Error>)
        ensures
            match r {
                Ok(l) => {
                    &&& l == old(self).slen()
                    &&& final(self).spos() == old(self).spos()
                    &&& final(self).slen() == old(self).slen()
                },
                Err(_) => true,
            },
    {
        let old_pos = match self.stream_position() {
            Ok(p) => p,
            Err(e) => {
                return Err(e);
            },
        };
        let len = match self.seek(SeekFrom::End(0)) {
            Ok(l) => l,
            Err(e) => {
                return Err(e);
            },
        };
        // When the starting position was already the end, the third seek is
        // saved: the position is already restored.
        if old_pos != len {
            match self.seek(SeekFrom::Start(old_pos)) {
                Ok(_) => {},
                Err(e) => {
                    return Err(e);
                },
            }
        }
        Ok(len)
    }

    /// Returns the current position of this stream, without moving it.
    fn stream_position(&mut self) -> (r: Result<u64, Error>)
        ensures
            match r {
                Ok(p) => {
                    &&& p == old(self).spos()
                    &&& final(self).spos() == old(self).spos()
                    &&& final(self).slen() == old(self).slen()
                },
                Err(_) => true,
            },
    {
        self.seek(SeekFrom::Current(0))
    }
}

} // verus!
