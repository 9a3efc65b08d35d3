//! The single-buffer fallback for scatter/gather I/O: a list of buffers is
//! served by one plain read or write on its first non-empty entry, so the
//! result is observably one ordinary call.

use vstd::prelude::*;

use crate::error::Error;
use crate::error::ErrorKind;
use crate::read::Read;
use crate::write::Write;

verus! {

/// The index of the first non-empty buffer in the list, or `-1` when every
/// buffer is empty.
pub open spec fn first_nonempty(bufs: Seq<Vec<u8>>) -> int
    decreases bufs.len(),
{
    if bufs.len() == 0 {
        -1
    } else if bufs[0]@.len() > 0 {
        0
    } else {
        let rest = first_nonempty(bufs.skip(1));
        if rest < 0 {
            -1
        } else {
            rest + 1
        }
    }
}

/// A linear search that stopped at `i` found the first non-empty buffer.
proof fn lemma_first_nonempty_at(bufs: Seq<Vec<u8>>, i: int)
    requires
        0 <= i <= bufs.len(),
        forall|j: int| 0 <= j < i ==> bufs[j]@.len() == 0,
        i < bufs.len() ==> bufs[i]@.len() > 0,
    ensures
        first_nonempty(bufs) == if i == bufs.len() { -1int } else { i },
    decreases i,
{
    if i == 0 {
        if bufs.len() > 0 {
            assert(bufs[0]@.len() > 0);
        }
    } else {
        assert(bufs[0]@.len() == 0);
        assert forall|j: int| 0 <= j < i - 1 implies bufs.skip(1)[j]@.len() == 0 by {
            assert(bufs.skip(1)[j] == bufs[j + 1]);
        }
        if i - 1 < bufs.len() - 1 {
            assert(bufs.skip(1)[i - 1] == bufs[i]);
        }
        lemma_first_nonempty_at(bufs.skip(1), i - 1);
    }
}

/// Reads into the first non-empty buffer of the list, exactly as one plain
/// [`Read::read`] on it would; the other buffers are untouched.  With no
/// non-empty buffer, one zero-length read is still attempted, so an error the
/// source reports even then is surfaced.
pub fn read_vectored<R: Read>(src: &mut R, bufs: &mut Vec<Vec<u8>>) -> (r: Result<usize, Error>)
    ensures
        final(bufs)@.len() == old(bufs)@.len(),
        old(src).reliable() ==> r is Ok && final(src).reliable(),
        ({
            let i = first_nonempty(old(bufs)@);
            if i < 0 {
                &&& final(bufs)@ == old(bufs)@
                &&& final(src).data() == old(src).data()
                &&& (r matches Ok(n) ==> n == 0)
            } else {
                &&& (forall|j: int|
                    0 <= j < old(bufs)@.len() && j != i
                        ==> final(bufs)@[j] == old(bufs)@[j])
                &&& match r {
                    Ok(n) => {
                        &&& n <= old(bufs)@[i]@.len()
                        &&& n <= old(src).data().len()
                        &&& final(src).data() == old(src).data().skip(n as int)
                        &&& final(bufs)@[i]@ == old(src).data().take(n as int)
                            + old(bufs)@[i]@.skip(n as int)
                        &&& (n == 0 ==> old(src).data().len() == 0)
                    },
                    Err(e) => {
                        &&& (forall|j: int|
                            0 <= j < old(bufs)@.len()
                                ==> final(bufs)@[j]@ == old(bufs)@[j]@)
                        &&& final(src).data() == old(src).data()
                        &&& (e.kind() == ErrorKind::Interrupted
                            ==> final(src).read_budget() < old(src).read_budget())
                    },
                }
            }
        }),
{
    let len = bufs.len();
    let mut i: usize = 0;
    while i < len && bufs[i].len() == 0
        invariant
            i <= len,
            len == bufs@.len(),
            bufs@ == old(bufs)@,
            forall|j: int| 0 <= j < i ==> bufs@[j]@.len() == 0,
        decreases len - i,
    {
        i = i + 1;
    }
    proof {
        lemma_first_nonempty_at(bufs@, i as int);
    }
    if i == len {
        let mut tmp: Vec<u8> = Vec::new();
        match src.read(&mut tmp) {
            Ok(_) => Ok(0),
            Err(e) => Err(e),
        }
    } else {
        let mut piece = bufs.remove(i);
        let ghost mid = bufs@;
        let res = src.read(&mut piece);
        bufs.insert(i, piece);
        proof {
            old(bufs)@.remove_ensures(i as int);
            mid.insert_ensures(i as int, piece);
            assert(bufs@ =~= old(bufs)@.update(i as int, piece));
            if res is Err {
                assert forall|j: int| 0 <= j < old(bufs)@.len() implies
                    bufs@[j]@ == old(bufs)@[j]@ by {
                    if j != i {
                        assert(bufs@[j] == old(bufs)@[j]);
                    }
                }
            }
        }
        res
    }
}

/// Writes the first non-empty buffer of the list, exactly as one plain
/// [`Write::write`] on it would.  With no non-empty buffer, one zero-length
/// write is still attempted, so an error the sink reports even then is
/// surfaced.
pub fn write_vectored<W: Write>(sink: &mut W, bufs: &Vec<Vec<u8>>) -> (r: Result<usize, Error>)
    ensures
        ({
            let i = first_nonempty(bufs@);
            let chosen = if i < 0 { Seq::<u8>::empty() } else { bufs@[i]@ };
            match r {
                Ok(n) => {
                    &&& n <= chosen.len()
                    &&& final(sink).sink() == old(sink).sink() + chosen.take(n as int)
                },
                Err(e) => {
                    &&& final(sink).sink() == old(sink).sink()
                    &&& e.kind() != ErrorKind::WriteZero
                    &&& (e.kind() == ErrorKind::Interrupted
                        ==> final(sink).write_budget() < old(sink).write_budget())
                },
            }
        }),
{
    let len = bufs.len();
    let mut i: usize = 0;
    while i < len && bufs[i].len() == 0
        invariant
            i <= len,
            len == bufs@.len(),
            forall|j: int| 0 <= j < i ==> bufs@[j]@.len() == 0,
        decreases len - i,
    {
        i = i + 1;
    }
    proof {
        lemma_first_nonempty_at(bufs@, i as int);
    }
    if i == len {
        let empty: &[u8] = &[];
        sink.write(empty)
    } else {
        sink.write(bufs[i].as_slice())
    }
}

} // verus!
