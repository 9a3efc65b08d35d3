//! An adapter which exposes two sources as one logical stream.

use vstd::prelude::*;

use crate::bufread::BufRead;
use crate::error::Error;
use crate::error::ErrorKind;
use crate::read::Read;

verus! {

/// Adapter to chain together two readers, delivering the bytes of the first
/// and then the bytes of the second.
///
/// The `done_first` flag records that the first reader has reported
/// end-of-data; it flips from `false` to `true` exactly once and the first
/// reader is never touched again afterwards.
///
#[derive(Debug)]
pub struct Chain<T, U> {
    first: T,
    second: U,
    done_first: bool,
}

impl<T, U> Chain<T, U> {
    /// The first wrapped reader, for use in specifications.
    pub closed spec fn spec_first(&self) -> T {
        self.first
    }

    /// The second wrapped reader, for use in specifications.
    pub closed spec fn spec_second(&self) -> U {
        self.second
    }

    /// Whether the first reader has already reported end-of-data, for use in
    /// specifications.
    pub closed spec fn spec_done_first(&self) -> bool {
        self.done_first
    }

    /// Chains `first` and `second` into one logical stream which delivers
    /// the bytes of `first` and then the bytes of `second`.
    pub fn new(first: T, second: U) -> (c: Chain<T, U>)
        ensures
            c.spec_first() == first,
            c.spec_second() == second,
            !c.spec_done_first(),
    {
        Chain { first, second, done_first: false }
    }

    /// Consumes the adapter, returning the wrapped readers.
    pub fn into_inner(self) -> (r: (T, U))
        ensures
            r.0 == self.spec_first(),
            r.1 == self.spec_second(),
    {
        (self.first, self.second)
    }

    /// Gets references to the underlying readers.
    pub fn get_ref(&self) -> (r: (&T, &U))
        ensures
            *r.0 == self.spec_first(),
            *r.1 == self.spec_second(),
    {
        (&self.first, &self.second)
    }

    /// Gets mutable references to the underlying readers.
    ///
    /// Reading directly from either underlying reader may desynchronize the
    /// exhaustion bookkeeping of this adapter.
    pub fn get_mut(&mut self) -> (r: (&mut T, &mut U))
        ensures
            *r.0 == old(self).spec_first(),
            *r.1 == old(self).spec_second(),
            final(self).spec_first() == *final(r.0),
            final(self).spec_second() == *final(r.1),
            final(self).spec_done_first() == old(self).spec_done_first(),
    {
        (&mut self.first, &mut self.second)
    }
}

impl<T: Read, U: Read> Read for Chain<T, U> {
    /// The bytes of the first reader, if it is not yet exhausted, followed by
    /// the bytes of the second.
    open spec fn data(&self) -> Seq<u8> {
        if self.spec_done_first() {
            self.spec_second().data()
        } else {
            self.spec_first().data() + self.spec_second().data()
        }
    }

    open spec fn read_budget(&self) -> nat {
        if self.spec_done_first() {
            self.spec_second().read_budget()
        } else {
            self.spec_first().read_budget() + self.spec_second().read_budget() + 1
        }
    }

    /// A chain fails exactly when one of the wrapped readers does.
    open spec fn reliable(&self) -> bool {
        self.spec_first().reliable() && self.spec_second().reliable()
    }

    fn read(&mut self, dst: &mut Vec<u8>) -> (r: Result<usize, Error>)
        ensures
            old(self).spec_done_first() ==> final(self).spec_done_first()
                && final(self).spec_first() == old(self).spec_first(),
            final(self).spec_done_first() ==> old(self).spec_done_first()
                || old(self).spec_first().data().len() == 0,
            !old(self).spec_done_first() && old(self).spec_first().data().len() > 0
                ==> !final(self).spec_done_first()
                    && final(self).spec_second() == old(self).spec_second(),
            r is Ok && !old(self).spec_done_first() && old(dst)@.len() > 0
                && old(self).spec_first().data().len() == 0
                ==> final(self).spec_done_first(),
            r is Err && !final(self).spec_done_first()
                ==> final(self).spec_second() == old(self).spec_second(),
    {
        if !self.done_first {
            match self.first.read(dst) {
                Ok(n) => {
                    if n != 0 || dst.len() == 0 {
                        proof {
                            assert(self.data() =~= old(self).data().skip(n as int));
                            assert(dst@ =~= old(self).data().take(n as int)
                                + old(dst)@.skip(n as int));
                            assert(old(self).reliable() ==> self.reliable());
                        }
                        return Ok(n);
                    }
                    // The first reader reported end-of-data on a non-empty
                    // request: fall through to the second reader in the same
                    // call, and never come back.
                    self.done_first = true;
                }
                Err(e) => {
                    proof {
                        if e.kind() == ErrorKind::Interrupted {
                            assert(self.read_budget() < old(self).read_budget());
                        }
                        if old(self).reliable() {
                            assert(false);
                        }
                    }
                    return Err(e);
                }
            }
        }
        match self.second.read(dst) {
            Ok(n) => {
                proof {
                    assert(self.data() =~= old(self).data().skip(n as int));
                    assert(dst@ =~= old(self).data().take(n as int) + old(dst)@.skip(n as int));
                    assert(old(self).reliable() ==> self.reliable());
                }
                Ok(n)
            }
            Err(e) => {
                proof {
                    if e.kind() == ErrorKind::Interrupted {
                        assert(self.read_budget() < old(self).read_budget());
                    }
                    if old(self).reliable() {
                        assert(false);
                    }
                }
                Err(e)
            }
        }
    }

    /// Bounds from both readers, added together; the lower bound saturates
    /// and the upper bound becomes unknown when the sum cannot be
    /// represented.
    ///
    /// Only the trait-level soundness bounds are part of this method's
    /// contract: the wrapped readers' own hints are not part of the stream
    /// model, so the summing behavior cannot be stated over it.
    fn size_hint(&self) -> (r: (usize, Option<usize>))
    {
        if self.done_first {
            self.second.size_hint()
        } else {
            let first_hint = self.first.size_hint();
            let second_hint = self.second.size_hint();
            let lo: usize = if first_hint.0 > usize::MAX - second_hint.0 {
                usize::MAX
            } else {
                first_hint.0 + second_hint.0
            };
            let hi: Option<usize> = match (first_hint.1, second_hint.1) {
                (Some(a), Some(b)) => {
                    if a <= usize::MAX - b {
                        Some(a + b)
                    } else {
                        None
                    }
                },
                _ => None,
            };
            (lo, hi)
        }
    }
}

/// The ordering law for chained readers: while the first reader is not
/// exhausted the chain offers every byte of the first, in order, and then
/// every byte of the second; afterwards exactly the bytes of the second.
pub proof fn lemma_chain_ordering<T: Read, U: Read>(c: &Chain<T, U>)
    ensures
        !c.spec_done_first() ==> c.data() == c.spec_first().data() + c.spec_second().data(),
        c.spec_done_first() ==> c.data() == c.spec_second().data(),
{
}

impl<T: BufRead, U: BufRead> BufRead for Chain<T, U> {
    /// The exposed region of whichever reader currently feeds the stream.
    open spec fn avail(&self) -> nat {
        if self.spec_done_first() {
            self.spec_second().avail()
        } else {
            self.spec_first().avail()
        }
    }

    proof fn avail_le_data(&self) {
        if self.spec_done_first() {
            self.spec_second().avail_le_data();
        } else {
            self.spec_first().avail_le_data();
        }
    }

    /// Exposes the first reader's region until it comes back empty, then
    /// switches to the second reader — in the same call, and for good.
    fn fill_buf(&mut self) -> (r: Result<&[u8], Error>)
        ensures
            old(self).spec_done_first() ==> final(self).spec_done_first()
                && final(self).spec_first() == old(self).spec_first(),
            final(self).spec_done_first() ==> old(self).spec_done_first()
                || old(self).spec_first().data().len() == 0,
            !old(self).spec_done_first() && old(self).spec_first().data().len() > 0
                ==> !final(self).spec_done_first()
                    && final(self).spec_second() == old(self).spec_second(),
            r is Ok && !old(self).spec_done_first()
                && old(self).spec_first().data().len() == 0
                ==> final(self).spec_done_first(),
            r is Err && !final(self).spec_done_first()
                ==> final(self).spec_second() == old(self).spec_second(),
    {
        broadcast use vstd::prelude::Seq::add_empty_left;

        if !self.done_first {
            match self.first.fill_buf() {
                Ok(b) => {
                    if b.len() > 0 {
                        return Ok(b);
                    }
                },
                Err(e) => {
                    return Err(e);
                },
            }
            self.done_first = true;
        }
        match self.second.fill_buf() {
            Ok(b) => Ok(b),
            Err(e) => Err(e),
        }
    }

    /// Forwards the consumed count to whichever reader currently feeds the
    /// stream; the other reader is untouched.
    fn consume(&mut self, amt: usize)
        ensures
            final(self).spec_done_first() == old(self).spec_done_first(),
            !old(self).spec_done_first()
                ==> final(self).spec_second() == old(self).spec_second(),
            old(self).spec_done_first()
                ==> final(self).spec_first() == old(self).spec_first(),
    {
        if !self.done_first {
            proof {
                self.spec_first().avail_le_data();
            }
            self.first.consume(amt);
            proof {
                assert(self.data() =~= old(self).data().skip(amt as int));
            }
        } else {
            self.second.consume(amt);
        }
    }
}

} // verus!
