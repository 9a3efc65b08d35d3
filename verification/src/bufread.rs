//! The capability of reading through an internally held unread region, and
//! the delimiter-scanning algorithms built on it.

use vstd::prelude::*;
use vstd::string::StringExecFns;

use crate::error::Error;
use crate::error::ErrorKind;
use crate::read::Read;
use vstd::utf8::decode_utf8;
use vstd::utf8::valid_utf8;

use crate::text::bytes_to_str;

verus! {

/// How many leading bytes of `s` a delimiter scan consumes: everything up to
/// and including the first occurrence of `delim`, or all of `s` when `delim`
/// does not occur.
pub open spec fn scan_len(s: Seq<u8>, delim: u8) -> nat
    decreases s.len(),
{
    if s.len() == 0 {
        0
    } else if s[0] == delim {
        1
    } else {
        (1 + scan_len(s.skip(1), delim)) as nat
    }
}

/// A delimiter scan consumes at most the whole sequence.
pub proof fn lemma_scan_len_le(s: Seq<u8>, delim: u8)
    ensures
        scan_len(s, delim) <= s.len(),
    decreases s.len(),
{
    if s.len() != 0 && s[0] != delim {
        lemma_scan_len_le(s.skip(1), delim);
    }
}

/// A delimiter-free prefix only postpones the scan: scanning `s` consumes the
/// `k` delimiter-free bytes plus whatever a scan of the rest consumes.
pub proof fn lemma_scan_len_split(s: Seq<u8>, delim: u8, k: int)
    requires
        0 <= k <= s.len(),
        forall|i: int| 0 <= i < k ==> s[i] != delim,
    ensures
        scan_len(s, delim) == k + scan_len(s.skip(k), delim),
    decreases k,
{
    if k == 0 {
        assert(s.skip(0) =~= s);
    } else {
        assert(s[0] != delim);
        assert forall|i: int| 0 <= i < k - 1 implies s.skip(1)[i] != delim by {
            assert(s.skip(1)[i] == s[i + 1]);
        }
        lemma_scan_len_split(s.skip(1), delim, k - 1);
        assert(s.skip(1).skip(k - 1) =~= s.skip(k));
    }
}

/// What a delimiter scan consumes, characterized without recursion: the
/// consumed prefix is free of the delimiter except possibly its last byte,
/// and it ends at the first delimiter, or at the end of the sequence when the
/// delimiter does not occur.
pub proof fn lemma_scan_len_characterization(s: Seq<u8>, delim: u8)
    ensures
        scan_len(s, delim) <= s.len(),
        forall|i: int| 0 <= i < scan_len(s, delim) - 1 ==> s[i] != delim,
        scan_len(s, delim) == s.len() || s[scan_len(s, delim) - 1] == delim,
    decreases s.len(),
{
    lemma_scan_len_le(s, delim);
    if s.len() != 0 && s[0] != delim {
        lemma_scan_len_characterization(s.skip(1), delim);
        assert forall|i: int| 0 <= i < scan_len(s, delim) - 1 implies s[i] != delim by {
            if i > 0 {
                assert(s.skip(1)[i - 1] == s[i]);
            }
        }
    }
}

/// A `BufRead` is a reader which holds an internal region of not yet
/// delivered bytes, so that a caller can inspect bytes before committing to
/// consume them.
///
/// [`BufRead::fill_buf`] exposes a prefix of the reader's remaining bytes;
/// the caller then reports through [`BufRead::consume`] how many leading
/// bytes of that region it accepted, and those bytes are never delivered
/// twice.  [`BufRead::avail`] is the length the exposed region is good for:
/// a consume of at most that many bytes is always legal.
pub trait BufRead: Read {
    /// How many leading bytes of [`Read::data`] the currently exposed region
    /// can deliver to [`BufRead::consume`].
    spec fn avail(&self) -> nat;

    /// The exposed region never claims more bytes than the source has.
    proof fn avail_le_data(&self)
        ensures
            self.avail() <= self.data().len(),
    ;

    /// Returns the internally held unread region, filling it from the
    /// underlying source if it is empty.  An empty region means the source
    /// has reached end-of-data.  The region is a prefix of the reader's
    /// remaining bytes; nothing is consumed until [`BufRead::consume`] says
    /// so.
    fn fill_buf(&mut self) -> (r: Result<&[u8], Error>)
        ensures
            final(self).data() == old(self).data(),
            match r {
                Ok(b) => {
                    &&& final(self).avail() >= b@.len()
                    &&& b@.len() <= final(self).data().len()
                    &&& (forall|i: int| 0 <= i < b@.len() ==> b@[i] == final(self).data()[i])
                    &&& (b@.len() == 0 ==> final(self).data().len() == 0)
                },
                Err(e) => e.kind() == ErrorKind::Interrupted
                    ==> final(self).read_budget() < old(self).read_budget(),
            },
            old(self).reliable() ==> r is Ok && final(self).reliable(),
    ;

    /// Marks `amt` leading bytes of the exposed region as consumed, so they
    /// are never delivered again.  `amt` must not exceed the length returned
    /// by the most recent [`BufRead::fill_buf`].
    fn consume(&mut self, amt: usize)
        requires
            amt <= old(self).avail(),
        ensures
            final(self).data() == old(self).data().skip(amt as int),
            final(self).avail() == old(self).avail() - amt,
            old(self).reliable() ==> final(self).reliable(),
    ;
}

/// Reads bytes into `dst` until the delimiter or end-of-data is reached,
/// retrying interrupted fills, and returns how many bytes were appended.
///
/// The delimiter, when found, is appended too.  A return of `Ok(0)` means
/// the source was already at end-of-data.  If an error is reported, the
/// bytes read so far — a delimiter-free prefix of the scan — have already
/// been appended to `dst`; on a source that never fails, neither does this.
pub fn read_until<B: BufRead>(src: &mut B, delim: u8, dst: &mut Vec<u8>) -> (r: Result<usize, Error>)
    requires
        old(dst)@.len() + scan_len(old(src).data(), delim) <= usize::MAX,
    ensures
        match r {
            Ok(n) => {
                &&& n == scan_len(old(src).data(), delim)
                &&& final(dst)@ == old(dst)@ + old(src).data().take(n as int)
                &&& final(src).data() == old(src).data().skip(n as int)
            },
            Err(e) => {
                &&& e.kind() != ErrorKind::Interrupted
                &&& exists|k: int|
                    {
                        &&& 0 <= k <= scan_len(old(src).data(), delim)
                        &&& final(src).data() == #[trigger] old(src).data().skip(k)
                        &&& final(dst)@ == old(dst)@ + old(src).data().take(k)
                    }
            },
        },
        old(src).reliable() ==> r is Ok && final(src).reliable(),
{
    let ghost data0 = src.data();
    let ghost dst0 = dst@;
    proof {
        lemma_scan_len_le(data0, delim);
    }
    let mut total: usize = 0;
    loop
        invariant
            data0 == old(src).data(),
            dst0 == old(dst)@,
            old(src).reliable() ==> src.reliable(),
            dst0.len() + scan_len(data0, delim) <= usize::MAX,
            total <= scan_len(data0, delim),
            scan_len(data0, delim) <= data0.len(),
            forall|i: int| 0 <= i < total ==> data0[i] != delim,
            src.data() == data0.skip(total as int),
            dst@ == dst0 + data0.take(total as int),
        decreases src.data().len(), src.read_budget(),
    {
        let ghost cur = src.data();
        let mut found = false;
        let mut used: usize = 0;
        let mut interrupted = false;
        match src.fill_buf() {
            Ok(b) => {
                let blen = b.len();
                let mut i: usize = 0;
                while i < blen && !found
                    invariant
                        i <= blen,
                        blen == b@.len(),
                        forall|j: int| 0 <= j < i ==> b@[j] != delim,
                        found ==> i < blen && b@[i as int] == delim,
                    decreases blen - i, (if found { 0int } else { 1int }),
                {
                    if b[i] == delim {
                        found = true;
                    } else {
                        i = i + 1;
                    }
                }
                let end: usize = if found { i + 1 } else { blen };
                proof {
                    // Everything appended in this round stays within the
                    // delimiter scan of the whole source.
                    assert(cur == data0.skip(total as int));
                    assert forall|j: int| 0 <= j < i implies cur[j] != delim by {
                        assert(b@[j] != delim);
                    }
                    lemma_scan_len_split(data0, delim, total as int);
                    lemma_scan_len_split(cur, delim, i as int);
                    lemma_scan_len_le(cur.skip(i as int), delim);
                    if found {
                        assert(cur.skip(i as int)[0] == b@[i as int]);
                        assert(scan_len(cur.skip(i as int), delim) == 1);
                        assert(total + end == scan_len(data0, delim));
                    }
                    assert(total + end <= scan_len(data0, delim));
                    assert forall|j: int| total <= j < total + i implies
                        data0[j] != delim by {
                        assert(cur[j - total] == data0[j]);
                        assert(b@[j - total] != delim);
                    }
                }
                let mut j: usize = 0;
                while j < end
                    invariant
                        j <= end,
                        end <= blen,
                        blen == b@.len(),
                        total + end <= scan_len(data0, delim),
                        dst0.len() + scan_len(data0, delim) <= usize::MAX,
                        dst@.len() == dst0.len() + total + j,
                        dst@ == dst0 + data0.take(total as int) + b@.subrange(0, j as int),
                    decreases end - j,
                {
                    let byte = b[j];
                    dst.push(byte);
                    proof {
                        assert(dst@ =~= dst0 + data0.take(total as int)
                            + b@.subrange(0, j + 1));
                    }
                    j = j + 1;
                }
                proof {
                    assert forall|j: int| 0 <= j < end implies
                        b@[j] == data0[total + j] by {
                        assert(b@[j] == cur[j]);
                        assert(cur[j] == data0[total + j]);
                    }
                    assert(dst@ =~= dst0 + data0.take(total + end));
                }
                used = end;
            }
            Err(e) => {
                if e.kind() == ErrorKind::Interrupted {
                    interrupted = true;
                } else {
                    proof {
                        assert(src.data() == data0.skip(total as int));
                        if old(src).reliable() {
                            assert(false);
                        }
                    }
                    return Err(e);
                }
            }
        }
        if !interrupted {
            if used == 0 {
                proof {
                    lemma_scan_len_split(data0, delim, total as int);
                    assert(dst@ =~= dst0 + data0.take(total as int));
                }
                return Ok(total);
            }
            src.consume(used);
            proof {
                assert(src.data() =~= data0.skip(total + used));
            }
            total = total + used;
            if found {
                return Ok(total);
            }
        }
    }
}

/// Reads bytes until a newline (the `0xA` byte) or end-of-data, decodes
/// them as UTF-8, and appends the text to `dst`, returning how many bytes
/// were read.
///
/// The newline, when found, is part of the text.  `Ok(0)` means the
/// source was already at end-of-data.  When the bytes read are not
/// well-formed UTF-8 the call fails with [`ErrorKind::InvalidData`]: the
/// malformed bytes are lost, but `dst` is never left holding partial or
/// corrupt text — on every failure it is exactly as it was.  On a source
/// that never fails, malformed text is the only possible failure.
pub fn read_line<B: BufRead>(src: &mut B, dst: &mut String) -> (r: Result<usize, Error>)
    requires
        scan_len(old(src).data(), 10) <= usize::MAX,
    ensures
        match r {
            Ok(n) => {
                &&& n == scan_len(old(src).data(), 10)
                &&& valid_utf8(old(src).data().take(n as int))
                &&& final(dst)@ == old(dst)@ + decode_utf8(old(src).data().take(n as int))
                &&& final(src).data() == old(src).data().skip(n as int)
            },
            Err(e) => {
                &&& e.kind() != ErrorKind::Interrupted
                &&& final(dst)@ == old(dst)@
                &&& ({
                    ||| {
                        let n = scan_len(old(src).data(), 10);
                        &&& e.kind() == ErrorKind::InvalidData
                        &&& !valid_utf8(old(src).data().take(n as int))
                        &&& final(src).data() == old(src).data().skip(n as int)
                    }
                    ||| exists|k: int|
                        {
                            &&& 0 <= k <= scan_len(old(src).data(), 10)
                            &&& final(src).data() == #[trigger] old(src).data().skip(k)
                        }
                })
            },
        },
        old(src).reliable() ==> {
            &&& final(src).reliable()
            &&& (valid_utf8(old(src).data().take(scan_len(old(src).data(), 10) as int))
                ==> r is Ok)
            &&& (r matches Err(e) ==> e.kind() == ErrorKind::InvalidData)
        },
{
    broadcast use vstd::prelude::Seq::add_empty_left;

    let mut tmp: Vec<u8> = Vec::new();
    match read_until(src, 10u8, &mut tmp) {
        Ok(n) => {
            match bytes_to_str(&tmp) {
                Some(s) => {
                    dst.append(s);
                    Ok(n)
                },
                None => {
                    proof {
                        assert(tmp@ =~= old(src).data().take(n as int));
                        assert(src.data() =~= old(src).data().skip(n as int));
                    }
                    Err(Error::new(
                        ErrorKind::InvalidData,
                        "stream did not contain valid UTF-8",
                    ))
                },
            }
        },
        Err(e) => Err(e),
    }
}

} // verus!
