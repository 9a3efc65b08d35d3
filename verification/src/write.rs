//! The capability of pushing bytes into a sink.

use vstd::prelude::*;
use vstd::slice::slice_subrange;

use crate::error::Error;
use crate::error::ErrorKind;

verus! {

/// A trait for objects which are byte-oriented sinks.
///
/// A sink is modeled by the sequence of bytes it has accepted so far,
/// [`Write::sink`].  A call to [`Write::write`] appends some prefix of the
/// given buffer to that sequence; accepting zero bytes of a non-empty buffer
/// signals that the sink cannot take more data.  A failed write has accepted
/// nothing, and a bare write never fails with [`ErrorKind::WriteZero`]: that
/// kind is reserved for [`Write::write_all`] reporting a short write.
pub trait Write {
    /// The bytes this sink has accepted so far, in order.
    spec fn sink(&self) -> Seq<u8>;

    /// An upper bound on how many consecutive interrupted failures this sink
    /// may still report; every such failure must strictly decrease it.
    spec fn write_budget(&self) -> nat;

    /// Writes some prefix of `src` into this sink, returning how many bytes
    /// were accepted.
    fn write(&mut self, src: &[u8]) -> (r: Result<usize, Error>)
        ensures
            match r {
                Ok(n) => {
                    &&& n <= src@.len()
                    &&& final(self).sink() == old(self).sink() + src@.take(n as int)
                },
                Err(e) => {
                    &&& final(self).sink() == old(self).sink()
                    &&& e.kind() != ErrorKind::WriteZero
                    &&& (e.kind() == ErrorKind::Interrupted
                        ==> final(self).write_budget() < old(self).write_budget())
                },
            },
    ;

    /// Flushes any internally buffered bytes to their final destination; the
    /// accepted bytes are unchanged either way.
    fn flush(&mut self) -> (r: Result<(), Error>)
        ensures
            final(self).sink() == old(self).sink(),
    ;

    /// Writes all of `src` into this sink, retrying interrupted writes.
    ///
    /// The moment a write accepts zero bytes while data remains, the call
    /// fails with [`ErrorKind::WriteZero`]; a fixed-capacity sink therefore
    /// fails rather than silently truncating.  On any failure, the bytes
    /// accepted so far form a proper prefix of `src`.
    fn write_all(&mut self, src: &[u8]) -> (r: Result<(), Error>)
        ensures
            match r {
                Ok(()) => final(self).sink() == old(self).sink() + src@,
                Err(e) => {
                    &&& e.kind() != ErrorKind::Interrupted
                    &&& exists|k: int|
                        0 <= k < src@.len() && final(self).sink() == old(self).sink()
                            + #[trigger] src@.take(k)
                },
            },
    {
        let ghost sink0 = self.sink();
        let len = src.len();
        let mut written: usize = 0;
        while written < len
            invariant
                sink0 == old(self).sink(),
                written <= len,
                len == src@.len(),
                self.sink() == sink0 + src@.take(written as int),
            decreases len - written, self.write_budget(),
        {
            let piece = slice_subrange(src, written, len);
            match self.write(piece) {
                Ok(n) => {
                    if n == 0 {
                        proof {
                            assert(self.sink() == sink0 + src@.take(written as int));
                        }
                        return Err(Error::new(
                            ErrorKind::WriteZero,
                            "failed to write whole buffer",
                        ));
                    }
                    proof {
                        assert(piece@.take(n as int)
                            =~= src@.subrange(written as int, written + n));
                        assert(self.sink() =~= sink0 + src@.take(written + n));
                    }
                    written = written + n;
                }
                Err(e) => {
                    if !(e.kind() == ErrorKind::Interrupted) {
                        proof {
                            assert(self.sink() == sink0 + src@.take(written as int));
                        }
                        return Err(e);
                    }
                }
            }
        }
        proof {
            assert(self.sink() =~= sink0 + src@);
        }
        Ok(())
    }
}

} // verus!
