//! A small verified byte-copy routine shared by the concrete readers and
//! writers of this crate.

use vstd::prelude::*;

verus! {

/// Copies `n` bytes from `src[src_at..]` over `dst[dst_at..]`, leaving the
/// rest of `dst` and its length unchanged.
pub(crate) fn copy_bytes(dst: &mut Vec<u8>, dst_at: usize, src: &[u8], src_at: usize, n: usize)
    requires
        dst_at + n <= old(dst)@.len(),
        src_at + n <= src@.len(),
    ensures
        final(dst)@.len() == old(dst)@.len(),
        final(dst)@ == old(dst)@.take(dst_at as int)
            + src@.subrange(src_at as int, (src_at + n) as int)
            + old(dst)@.skip((dst_at + n) as int),
{
    let ghost dst0 = dst@;
    let src_len = src.len();
    let dst_len = dst.len();
    let mut i: usize = 0;
    while i < n
        invariant
            i <= n,
            dst_at + n <= dst0.len(),
            src_at + n <= src@.len(),
            src@.len() == src_len,
            dst0.len() == dst_len,
            dst@.len() == dst0.len(),
            dst@ == dst0.take(dst_at as int)
                + src@.subrange(src_at as int, (src_at + i) as int)
                + dst0.skip((dst_at + i) as int),
        decreases n - i,
    {
        let b = src[src_at + i];
        dst.set(dst_at + i, b);
        proof {
            assert(dst@ =~= dst0.take(dst_at as int)
                + src@.subrange(src_at as int, (src_at + i + 1) as int)
                + dst0.skip((dst_at + i + 1) as int));
        }
        i = i + 1;
    }
    proof {
        assert(dst@ =~= dst0.take(dst_at as int)
            + src@.subrange(src_at as int, (src_at + n) as int)
            + dst0.skip((dst_at + n) as int));
    }
}

} // verus!
