//! An adapter which limits the bytes read from an underlying source.

use vstd::prelude::*;

use vstd::slice::slice_subrange;

use crate::buffer::copy_bytes;
use crate::bufread::BufRead;
use crate::error::Error;
use crate::error::ErrorKind;
use crate::read::Read;

verus! {

/// Truncates a byte sequence to at most `n` leading bytes.
pub open spec fn clamp_take(s: Seq<u8>, n: int) -> Seq<u8> {
    if n < 0 {
        Seq::empty()
    } else if n <= s.len() {
        s.take(n)
    } else {
        s
    }
}

/// Reader adapter which limits the bytes read from an underlying reader.
///
/// This struct is generally created by calling [`take`] on a reader.
///
/// [`take`]: Read::take
#[derive(Debug)]
pub struct Take<T> {
    inner: T,
    limit: u64,
}

impl<T> Take<T> {
    /// The wrapped reader, for use in specifications.
    pub closed spec fn spec_inner(&self) -> T {
        self.inner
    }

    /// The remaining byte budget, for use in specifications.
    pub closed spec fn spec_limit(&self) -> u64 {
        self.limit
    }

    /// Wraps `inner`, allowing at most `limit` bytes to be read from it.
    pub(crate) fn wrap(inner: T, limit: u64) -> (t: Take<T>)
        ensures
            t.spec_inner() == inner,
            t.spec_limit() == limit,
    {
        Take { inner, limit }
    }

    /// Returns the number of bytes that can be read before this adapter
    /// reports end-of-data.
    ///
    /// The adapter may reach end-of-data after fewer bytes if the underlying
    /// reader does.
    pub fn limit(&self) -> (l: u64)
        ensures
            l == self.spec_limit(),
    {
        self.limit
    }

    /// Sets the number of bytes that can be read before this adapter reports
    /// end-of-data.  This is the same as constructing a new `Take`: the byte
    /// budget is replaced outright, and bytes already read do not count
    /// against the new value.
    pub fn set_limit(&mut self, limit: u64)
        ensures
            final(self).spec_limit() == limit,
            final(self).spec_inner() == old(self).spec_inner(),
    {
        self.limit = limit;
    }

    /// Consumes the adapter, returning the wrapped reader.
    pub fn into_inner(self) -> (r: T)
        ensures
            r == self.spec_inner(),
    {
        self.inner
    }

    /// Gets a reference to the underlying reader.
    pub fn get_ref(&self) -> (r: &T)
        ensures
            *r == self.spec_inner(),
    {
        &self.inner
    }

    /// Gets a mutable reference to the underlying reader.
    ///
    /// Reading directly from the underlying reader does not count against the
    /// byte budget of this adapter.
    pub fn get_mut(&mut self) -> (r: &mut T)
        ensures
            *r == old(self).spec_inner(),
            final(self).spec_inner() == *final(r),
            final(self).spec_limit() == old(self).spec_limit(),
    {
        &mut self.inner
    }
}

impl<T: Read> Read for Take<T> {
    /// The bytes the wrapped reader still offers, cut off at the byte budget.
    open spec fn data(&self) -> Seq<u8> {
        clamp_take(self.spec_inner().data(), self.spec_limit() as int)
    }

    open spec fn read_budget(&self) -> nat {
        self.spec_inner().read_budget()
    }

    /// A bounded reader fails exactly when the wrapped reader does.
    open spec fn reliable(&self) -> bool {
        self.spec_inner().reliable()
    }

    fn read(&mut self, dst: &mut Vec<u8>) -> (r: Result<usize, Error>)
        ensures
            old(self).spec_limit() == 0 ==> r == Ok::<usize, Error>(0)
                && *final(self) == *old(self),
            match r {
                Ok(n) => final(self).spec_limit() == old(self).spec_limit() - n,
                Err(_) => final(self).spec_limit() == old(self).spec_limit(),
            },
    {
        // Once the budget is exhausted, the wrapped reader is never probed:
        // it might block even though this adapter already knows the answer.
        if self.limit == 0 {
            proof {
                assert(old(self).reliable() ==> self.reliable());
            }
            return Ok(0);
        }
        let cap: usize = if self.limit < dst.len() as u64 {
            self.limit as usize
        } else {
            dst.len()
        };
        let mut tmp: Vec<u8> = vec![0u8; cap];
        match self.inner.read(&mut tmp) {
            Ok(n) => {
                copy_bytes(dst, 0, tmp.as_slice(), 0, n);
                self.limit = self.limit - n as u64;
                proof {
                    assert(dst@ =~= old(self).data().take(n as int) + old(dst)@.skip(n as int));
                    assert(self.data() =~= old(self).data().skip(n as int));
                    assert(old(self).reliable() ==> self.reliable());
                }
                Ok(n)
            }
            Err(e) => {
                proof {
                    if e.kind() == ErrorKind::Interrupted {
                        assert(self.read_budget() < old(self).read_budget());
                    }
                    if old(self).reliable() {
                        assert(false);
                    }
                }
                return Err(e);
            }
        }
    }

    /// Reads all bytes the budget and the wrapped reader allow, appending
    /// them to `dst`; on success the byte budget has shrunk by exactly the
    /// count delivered, so a bounded reader that delivered its whole budget
    /// ends with the budget at zero.
    fn read_to_end(&mut self, dst: &mut Vec<u8>) -> (r: Result<usize, Error>)
        ensures
            r matches Ok(n) ==> final(self).spec_limit() == old(self).spec_limit() - n,
    {
        let ghost data0 = self.data();
        let ghost dst0 = dst@;
        let ghost limit0 = self.spec_limit();
        let mut total: usize = 0;
        loop
            invariant
                data0 == old(self).data(),
                dst0 == old(dst)@,
                limit0 == old(self).spec_limit(),
                old(self).reliable() ==> self.reliable(),
                dst0.len() + data0.len() <= usize::MAX,
                total <= data0.len(),
                dst@ == dst0 + data0.take(total as int),
                self.data() == data0.skip(total as int),
                self.spec_limit() as int == limit0 as int - total,
            decreases self.data().len(), self.read_budget(),
        {
            let mut tmp: Vec<u8> = vec![0u8; 32];
            match self.read(&mut tmp) {
                Ok(n) => {
                    if n == 0 {
                        proof {
                            assert(dst@ =~= dst0 + data0);
                        }
                        return Ok(total);
                    }
                    let mut i: usize = 0;
                    while i < n
                        invariant
                            i <= n,
                            n <= tmp@.len(),
                            total + n <= data0.len(),
                            dst0.len() + data0.len() <= usize::MAX,
                            tmp@.take(n as int) == data0.skip(total as int).take(n as int),
                            dst@ == dst0 + data0.take(total + i),
                        decreases n - i,
                    {
                        let b = tmp[i];
                        proof {
                            assert(tmp@[i as int] == tmp@.take(n as int)[i as int]);
                            assert(data0.skip(total as int).take(n as int)[i as int]
                                == data0.skip(total as int)[i as int]);
                            assert(b == data0[total + i]);
                        }
                        dst.push(b);
                        proof {
                            assert(dst@ =~= dst0 + data0.take(total + i + 1));
                        }
                        i = i + 1;
                    }
                    total = total + n;
                }
                Err(e) => {
                    if !(e.kind() == ErrorKind::Interrupted) {
                        proof {
                            assert(self.data() == data0.skip(total as int));
                            if old(self).reliable() {
                                assert(false);
                            }
                        }
                        return Err(e);
                    }
                }
            }
        }
    }

    /// Bounds from the wrapped reader, cut off at the byte budget; when the
    /// wrapped reader has no upper bound, the budget itself is the bound.
    fn size_hint(&self) -> (r: (usize, Option<usize>))
        ensures
            r.0 <= self.spec_limit(),
            r.1 matches Some(m) ==> m <= self.spec_limit(),
            self.spec_limit() <= usize::MAX ==> r.1 is Some,
    {
        let hint = self.inner.size_hint();
        let lo: usize = if self.limit < hint.0 as u64 {
            self.limit as usize
        } else {
            hint.0
        };
        let hi: Option<usize> = match hint.1 {
            Some(m) => {
                if self.limit < m as u64 {
                    Some(self.limit as usize)
                } else {
                    Some(m)
                }
            },
            None => {
                if self.limit <= usize::MAX as u64 {
                    Some(self.limit as usize)
                } else {
                    None
                }
            },
        };
        (lo, hi)
    }
}

/// The accounting law for bounded readers: across any sequence of reads, a
/// bounded reader delivers exactly the smaller of its byte budget and what
/// the wrapped source holds — and, by [`Read::read`]'s contract, once that
/// many bytes are out every further read returns zero bytes.
pub proof fn lemma_take_accounting<T: Read>(t: &Take<T>)
    ensures
        t.data().len() == vstd::math::min(
            t.spec_limit() as int,
            t.spec_inner().data().len() as int,
        ),
{
}

impl<T: BufRead> BufRead for Take<T> {
    /// The wrapped region, cut off at the byte budget.
    open spec fn avail(&self) -> nat {
        if self.spec_inner().avail() <= self.spec_limit() {
            self.spec_inner().avail()
        } else {
            self.spec_limit() as nat
        }
    }

    proof fn avail_le_data(&self) {
        self.spec_inner().avail_le_data();
    }

    /// Exposes the wrapped reader's region, truncated to the byte budget;
    /// once the budget is exhausted, the wrapped reader is never probed, and
    /// filling never charges the budget — only [`BufRead::consume`] does.
    fn fill_buf(&mut self) -> (r: Result<&[u8], Error>)
        ensures
            final(self).spec_limit() == old(self).spec_limit(),
            old(self).spec_limit() == 0 ==> r is Ok && *final(self) == *old(self),
    {
        if self.limit == 0 {
            let empty: &[u8] = &[];
            return Ok(empty);
        }
        proof {
            self.spec_inner().avail_le_data();
        }
        match self.inner.fill_buf() {
            Ok(b) => {
                let cap: usize = if self.limit < b.len() as u64 {
                    self.limit as usize
                } else {
                    b.len()
                };
                let capped = slice_subrange(b, 0, cap);
                Ok(capped)
            }
            Err(e) => Err(e),
        }
    }

    /// Forwards the consumed count, capped at the byte budget so that a
    /// caller cannot stretch the budget by over-reporting, and charges it
    /// against the budget.
    fn consume(&mut self, amt: usize)
        ensures
            final(self).spec_limit() == old(self).spec_limit() - amt,
    {
        proof {
            self.spec_inner().avail_le_data();
        }
        let capped: usize = if (amt as u64) < self.limit {
            amt
        } else {
            self.limit as usize
        };
        self.limit = self.limit - capped as u64;
        self.inner.consume(capped);
        proof {
            assert(capped == amt);
            assert(self.data() =~= old(self).data().skip(amt as int));
        }
    }
}

} // verus!
