//! The capability of pulling bytes out of a source.

use vstd::prelude::*;
use vstd::string::StringExecFns;

use crate::error::Error;
use crate::error::ErrorKind;
use crate::take::Take;
use vstd::utf8::decode_utf8;
use vstd::utf8::valid_utf8;

use crate::text::bytes_to_str;

verus! {

/// The `Read` trait allows for reading bytes from a source.
///
/// A source is modeled by the sequence of bytes it still has to offer,
/// [`Read::data`].  A call to [`Read::read`] removes a prefix of that
/// sequence and copies it into the front of a caller-owned buffer.  Reading
/// zero bytes into a non-empty buffer signals end-of-data; an error means no
/// bytes were taken.  An [`ErrorKind::Interrupted`] failure is non-fatal: the
/// multi-step operations retry it, and [`Read::read_budget`] bounds how many
/// such failures may occur in a row, which keeps the retry loops finite.
///
/// In this model end-of-data is permanent: a source that reports it has run
/// out of bytes, and reading never adds any.  A source that can resume after
/// end-of-data lies outside the model.
pub trait Read {
    /// The bytes this source still has to offer, in order.
    spec fn data(&self) -> Seq<u8>;

    /// An upper bound on how many consecutive interrupted failures this
    /// source may still report; every such failure must strictly decrease it.
    spec fn read_budget(&self) -> nat;

    /// Whether this source is known never to report an error.  It holds for
    /// the in-memory sources, is preserved by the adapters, and lets the
    /// derived operations promise success outright.
    spec fn reliable(&self) -> bool;

    /// Pulls some bytes from this source into the front of `dst`, returning
    /// how many bytes were read.
    ///
    /// The length of `dst` is never changed; only a prefix is overwritten.
    /// `Ok(0)` with a non-empty `dst` means the source has reached
    /// end-of-data.  On an error, neither the source nor `dst` has changed.
    fn read(&mut self, dst: &mut Vec<u8>) -> (r: Result<usize, Error>)
        ensures
            final(dst)@.len() == old(dst)@.len(),
            match r {
                Ok(n) => {
                    &&& n <= old(dst)@.len()
                    &&& n <= old(self).data().len()
                    &&& final(self).data() == old(self).data().skip(n as int)
                    &&& final(dst)@ == old(self).data().take(n as int) + old(dst)@.skip(n as int)
                    &&& (n == 0 && old(dst)@.len() > 0 ==> old(self).data().len() == 0)
                },
                Err(e) => {
                    &&& final(self).data() == old(self).data()
                    &&& final(dst)@ == old(dst)@
                    &&& (e.kind() == ErrorKind::Interrupted
                        ==> final(self).read_budget() < old(self).read_budget())
                },
            },
            old(self).reliable() ==> r is Ok && final(self).reliable(),
    ;

    /// Reads exactly `dst.len()` bytes, retrying interrupted reads.
    ///
    /// On success the buffer holds the next `dst.len()` bytes of the source.
    /// If the source ends first, the call fails with
    /// [`ErrorKind::UnexpectedEof`]; on any failure the buffer holds some
    /// correctly filled prefix of the source's bytes — never more bytes than
    /// the source actually supplied — followed by its old contents.  On a
    /// source that never fails the outcome is exact: success precisely when
    /// enough bytes remain, and every failure is the end-of-data report.
    fn read_exact(&mut self, dst: &mut Vec<u8>) -> (r: Result<(), Error>)
        ensures
            final(dst)@.len() == old(dst)@.len(),
            match r {
                Ok(()) => {
                    &&& old(self).data().len() >= old(dst)@.len()
                    &&& final(dst)@ == old(self).data().take(old(dst)@.len() as int)
                    &&& final(self).data() == old(self).data().skip(old(dst)@.len() as int)
                },
                Err(e) => {
                    &&& e.kind() != ErrorKind::Interrupted
                    &&& exists|k: int|
                        {
                            &&& 0 <= k <= old(dst)@.len()
                            &&& k <= old(self).data().len()
                            &&& final(self).data() == #[trigger] old(self).data().skip(k)
                            &&& final(dst)@ == old(self).data().take(k) + old(dst)@.skip(k)
                        }
                },
            },
            old(dst)@.len() == 0 ==> r is Ok,
            old(self).reliable() ==> {
                &&& final(self).reliable()
                &&& (old(self).data().len() >= old(dst)@.len() ==> r is Ok)
                &&& (r matches Err(e) ==> e.kind() == ErrorKind::UnexpectedEof)
            },
    {
        let len = dst.len();
        let ghost data0 = self.data();
        let ghost dst0 = dst@;
        let mut filled: usize = 0;
        while filled < len
            invariant_except_break
                data0 == old(self).data(),
                dst0 == old(dst)@,
                old(self).reliable() ==> self.reliable(),
                filled <= len,
                len == dst@.len(),
                dst0.len() == len,
                dst@ == data0.take(filled as int) + dst0.skip(filled as int),
                filled <= data0.len(),
                self.data() == data0.skip(filled as int),
            ensures
                data0 == old(self).data(),
                dst0 == old(dst)@,
                old(self).reliable() ==> self.reliable(),
                filled <= len,
                len == dst@.len(),
                dst0.len() == len,
                dst@ == data0.take(filled as int) + dst0.skip(filled as int),
                filled <= data0.len(),
                self.data() == data0.skip(filled as int),
                filled < len ==> self.data().len() == 0,
            decreases len - filled, self.read_budget(),
        {
            let want: usize = len - filled;
            let mut tmp: Vec<u8> = vec![0u8; want];
            match self.read(&mut tmp) {
                Ok(n) => {
                    if n == 0 {
                        break;
                    }
                    let mut i: usize = 0;
                    while i < n
                        invariant
                            i <= n,
                            n <= tmp@.len(),
                            filled + n <= len,
                            len == dst@.len(),
                            dst0.len() == len,
                            filled + n <= data0.len(),
                            tmp@.take(n as int) == data0.skip(filled as int).take(n as int),
                            dst@ == data0.take(filled + i) + dst0.skip(filled + i),
                        decreases n - i,
                    {
                        let b = tmp[i];
                        proof {
                            assert(tmp@[i as int] == tmp@.take(n as int)[i as int]);
                            assert(data0.skip(filled as int).take(n as int)[i as int]
                                == data0.skip(filled as int)[i as int]);
                            assert(b == data0[filled + i]);
                        }
                        dst.set(filled + i, b);
                        proof {
                            assert(dst@ =~= data0.take(filled + i + 1) + dst0.skip(filled + i + 1));
                        }
                        i = i + 1;
                    }
                    filled = filled + n;
                }
                Err(e) => {
                    if !(e.kind() == ErrorKind::Interrupted) {
                        proof {
                            assert(self.data() == data0.skip(filled as int));
                            if old(self).reliable() {
                                assert(false);
                            }
                        }
                        return Err(e);
                    }
                }
            }
        }
        if filled < len {
            proof {
                assert(self.data() == data0.skip(filled as int));
            }
            Err(Error::new(ErrorKind::UnexpectedEof, "failed to fill whole buffer"))
        } else {
            Ok(())
        }
    }

    /// Reads all remaining bytes of this source, appending them to `dst` and
    /// returning how many were appended; interrupted reads are retried.
    ///
    /// On any other failure, the bytes read so far have already been appended
    /// to `dst`; on a source that never fails, neither does this.
    fn read_to_end(&mut self, dst: &mut Vec<u8>) -> (r: Result<usize, Error>)
        requires
            old(dst)@.len() + old(self).data().len() <= usize::MAX,
        ensures
            match r {
                Ok(n) => {
                    &&& n == old(self).data().len()
                    &&& final(dst)@ == old(dst)@ + old(self).data()
                    &&& final(self).data().len() == 0
                },
                Err(e) => {
                    &&& e.kind() != ErrorKind::Interrupted
                    &&& exists|k: int|
                        {
                            &&& 0 <= k <= old(self).data().len()
                            &&& final(self).data() == #[trigger] old(self).data().skip(k)
                            &&& final(dst)@ == old(dst)@ + old(self).data().take(k)
                        }
                },
            },
            old(self).reliable() ==> r is Ok && final(self).reliable(),
    {
        let ghost data0 = self.data();
        let ghost dst0 = dst@;
        let mut total: usize = 0;
        loop
            invariant
                data0 == old(self).data(),
                dst0 == old(dst)@,
                old(self).reliable() ==> self.reliable(),
                dst0.len() + data0.len() <= usize::MAX,
                total <= data0.len(),
                dst@ == dst0 + data0.take(total as int),
                self.data() == data0.skip(total as int),
            decreases self.data().len(), self.read_budget(),
        {
            let mut tmp: Vec<u8> = vec![0u8; 32];
            match self.read(&mut tmp) {
                Ok(n) => {
                    if n == 0 {
                        proof {
                            assert(dst@ =~= dst0 + data0);
                        }
                        return Ok(total);
                    }
                    let mut i: usize = 0;
                    while i < n
                        invariant
                            i <= n,
                            n <= tmp@.len(),
                            total + n <= data0.len(),
                            dst0.len() + data0.len() <= usize::MAX,
                            tmp@.take(n as int) == data0.skip(total as int).take(n as int),
                            dst@ == dst0 + data0.take(total + i),
                        decreases n - i,
                    {
                        let b = tmp[i];
                        proof {
                            assert(tmp@[i as int] == tmp@.take(n as int)[i as int]);
                            assert(data0.skip(total as int).take(n as int)[i as int]
                                == data0.skip(total as int)[i as int]);
                            assert(b == data0[total + i]);
                        }
                        dst.push(b);
                        proof {
                            assert(dst@ =~= dst0 + data0.take(total + i + 1));
                        }
                        i = i + 1;
                    }
                    total = total + n;
                }
                Err(e) => {
                    if !(e.kind() == ErrorKind::Interrupted) {
                        proof {
                            assert(self.data() == data0.skip(total as int));
                            if old(self).reliable() {
                                assert(false);
                            }
                        }
                        return Err(e);
                    }
                }
            }
        }
    }

    /// A lower and an optional upper bound on the bytes this source still has
    /// to offer.  The default reports no information.
    fn size_hint(&self) -> (r: (usize, Option<usize>))
        ensures
            r.0 <= self.data().len(),
            r.1 matches Some(m) ==> self.data().len() <= m,
    {
        (0, None)
    }

    /// Turns this source into an adapter which delivers its bytes one at a
    /// time.
    fn bytes(self) -> (r: Bytes<Self>) where Self: Sized
        ensures
            r.spec_inner() == self,
    {
        Bytes { inner: self }
    }

    /// Bounds this source: the returned adapter delivers at most `limit`
    /// bytes and then reports end-of-data without touching this source again.
    fn take(self, limit: u64) -> (r: Take<Self>) where Self: Sized
        ensures
            r.spec_inner() == self,
            r.spec_limit() == limit,
    {
        Take::wrap(self, limit)
    }
}

/// An adapter which delivers the bytes of an underlying reader one at a time.
///
/// This struct is generally created by calling [`bytes`] on a reader.
///
/// [`bytes`]: Read::bytes
pub struct Bytes<R> {
    inner: R,
}

impl<R> Bytes<R> {
    /// The wrapped reader, for use in specifications.
    pub closed spec fn spec_inner(&self) -> R {
        self.inner
    }
}

impl<R: Read> Bytes<R> {
    /// Delivers the next byte of the underlying reader, retrying interrupted
    /// reads.  `None` means the reader has reached end-of-data; a reader that
    /// never fails never yields an error item.
    pub fn next(&mut self) -> (r: Option<Result<u8, Error>>)
        ensures
            match r {
                None => {
                    &&& old(self).spec_inner().data().len() == 0
                    &&& final(self).spec_inner().data() == old(self).spec_inner().data()
                },
                Some(item) => match item {
                    Ok(b) => {
                        &&& old(self).spec_inner().data().len() > 0
                        &&& b == old(self).spec_inner().data()[0]
                        &&& final(self).spec_inner().data()
                            == old(self).spec_inner().data().skip(1)
                    },
                    Err(e) => {
                        &&& e.kind() != ErrorKind::Interrupted
                        &&& final(self).spec_inner().data() == old(self).spec_inner().data()
                    },
                },
            },
            old(self).spec_inner().reliable() ==> final(self).spec_inner().reliable()
                && !(r matches Some(item) && item is Err),
    {
        loop
            invariant
                self.spec_inner().data() == old(self).spec_inner().data(),
                old(self).spec_inner().reliable() ==> self.spec_inner().reliable(),
            decreases self.spec_inner().read_budget(),
        {
            let mut tmp: Vec<u8> = vec![0u8; 1];
            match self.inner.read(&mut tmp) {
                Ok(n) => {
                    if n == 0 {
                        return None;
                    }
                    let b = tmp[0];
                    proof {
                        assert(b == old(self).spec_inner().data()[0]);
                    }
                    return Some(Ok(b));
                }
                Err(e) => {
                    if !(e.kind() == ErrorKind::Interrupted) {
                        proof {
                            if old(self).spec_inner().reliable() {
                                assert(false);
                            }
                        }
                        return Some(Err(e));
                    }
                }
            }
        }
    }

    /// A lower and an optional upper bound on the bytes still to be
    /// delivered, taken from the underlying reader.
    pub fn size_hint(&self) -> (r: (usize, Option<usize>))
        ensures
            r.0 <= self.spec_inner().data().len(),
            r.1 matches Some(m) ==> self.spec_inner().data().len() <= m,
    {
        self.inner.size_hint()
    }
}

/// Reads all remaining bytes of `src`, decodes them as UTF-8, and appends the
/// text to `dst`, returning how many bytes were read.
///
/// When the bytes are not well-formed UTF-8 the call fails with
/// [`ErrorKind::InvalidData`]: the bytes are lost, but `dst` is never left
/// holding partial or corrupt text — on every failure it is exactly as it
/// was.  On a source that never fails, that is the only possible failure.
pub fn read_to_string<R: Read>(src: &mut R, dst: &mut String) -> (r: Result<usize, Error>)
    requires
        old(src).data().len() <= usize::MAX,
    ensures
        match r {
            Ok(n) => {
                &&& n == old(src).data().len()
                &&& valid_utf8(old(src).data())
                &&& final(dst)@ == old(dst)@ + decode_utf8(old(src).data())
                &&& final(src).data().len() == 0
            },
            Err(e) => {
                &&& e.kind() != ErrorKind::Interrupted
                &&& final(dst)@ == old(dst)@
                &&& ({
                    ||| {
                        &&& e.kind() == ErrorKind::InvalidData
                        &&& !valid_utf8(old(src).data())
                        &&& final(src).data().len() == 0
                    }
                    ||| exists|k: int|
                        {
                            &&& 0 <= k <= old(src).data().len()
                            &&& final(src).data() == #[trigger] old(src).data().skip(k)
                        }
                })
            },
        },
        old(src).reliable() ==> {
            &&& final(src).reliable()
            &&& (valid_utf8(old(src).data()) ==> r is Ok)
            &&& (r matches Err(e) ==> e.kind() == ErrorKind::InvalidData)
        },
{
    broadcast use vstd::prelude::Seq::add_empty_left;

    let mut tmp: Vec<u8> = Vec::new();
    match src.read_to_end(&mut tmp) {
        Ok(n) => {
            match bytes_to_str(&tmp) {
                Some(s) => {
                    dst.append(s);
                    Ok(n)
                },
                None => {
                    proof {
                        assert(tmp@ =~= old(src).data());
                    }
                    Err(Error::new(
                        ErrorKind::InvalidData,
                        "stream did not contain valid UTF-8",
                    ))
                },
            }
        },
        Err(e) => Err(e),
    }
}

} // verus!
