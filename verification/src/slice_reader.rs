//! Byte slices as sources: a `&[u8]` is a reader that hands out its leading
//! bytes and shrinks to the remainder.

use vstd::prelude::*;
use vstd::slice::slice_subrange;

use crate::buffer::copy_bytes;
use crate::bufread::BufRead;
use crate::error::Error;
use crate::error::ErrorKind;
use crate::read::Read;

verus! {

impl<'a> Read for &'a [u8] {
    /// A slice offers exactly its own bytes.
    open spec fn data(&self) -> Seq<u8> {
        self@
    }

    /// A slice never reports an interrupted read.
    open spec fn read_budget(&self) -> nat {
        0
    }

    /// A slice never fails to read.
    open spec fn reliable(&self) -> bool {
        true
    }

    fn read(&mut self, dst: &mut Vec<u8>) -> (r: Result<usize, Error>)
        ensures
            ({
                let m = vstd::math::min(old(dst)@.len() as int, old(self)@.len() as int);
                &&& r == Ok::<usize, Error>(m as usize)
                &&& final(self)@ == old(self)@.skip(m)
            }),
    {
        let len = self.len();
        let n: usize = if dst.len() < len {
            dst.len()
        } else {
            len
        };
        copy_bytes(dst, 0, *self, 0, n);
        proof {
            assert(dst@ =~= old(self)@.take(n as int) + old(dst)@.skip(n as int));
        }
        *self = slice_subrange(*self, n, len);
        proof {
            assert(self.reliable());
        }
        Ok(n)
    }

    /// Reads exactly `dst.len()` bytes if the slice holds that many, and
    /// otherwise fails with [`ErrorKind::UnexpectedEof`] leaving slice and
    /// buffer untouched.
    fn read_exact(&mut self, dst: &mut Vec<u8>) -> (r: Result<(), Error>)
        ensures
            r is Ok <==> old(dst)@.len() <= old(self)@.len(),
            match r {
                Ok(()) => final(self)@ == old(self)@.skip(old(dst)@.len() as int),
                Err(e) => {
                    &&& e.kind() == ErrorKind::UnexpectedEof
                    &&& final(self)@ == old(self)@
                    &&& final(dst)@ == old(dst)@
                },
            },
    {
        let len = self.len();
        if dst.len() <= len {
            let n = dst.len();
            copy_bytes(dst, 0, *self, 0, n);
            proof {
                assert(dst@ =~= old(self)@.take(n as int) + old(dst)@.skip(n as int));
                assert(dst@ =~= old(self)@.take(n as int));
            }
            *self = slice_subrange(*self, n, len);
            Ok(())
        } else {
            proof {
                assert(self.data() == old(self).data().skip(0));
                assert(dst@ =~= old(self).data().take(0) + old(dst)@.skip(0));
            }
            Err(Error::new(ErrorKind::UnexpectedEof, "failed to fill whole buffer"))
        }
    }

    /// An exact byte count: the slice's length.
    fn size_hint(&self) -> (r: (usize, Option<usize>))
        ensures
            r.0 == self@.len(),
            r.1 == Some(r.0),
    {
        let len = self.len();
        (len, Some(len))
    }
}

impl<'a> BufRead for &'a [u8] {
    /// The whole slice is exposed at once.
    open spec fn avail(&self) -> nat {
        self@.len()
    }

    proof fn avail_le_data(&self) {
    }

    /// Exposes the whole slice; no filling is needed and nothing can fail.
    fn fill_buf(&mut self) -> (r: Result<&[u8], Error>)
        ensures
            r is Ok,
            *final(self) == *old(self),
            r matches Ok(b) ==> b@ == old(self)@,
    {
        Ok(*self)
    }

    /// Drops `amt` leading bytes from the slice.
    fn consume(&mut self, amt: usize)
    {
        let len = self.len();
        *self = slice_subrange(*self, amt, len);
    }
}

} // verus!
