//! Interpretation of byte sequences as UTF-8 text, for the line- and
//! string-reading conveniences.  Validity and decoding are specified by
//! `vstd::utf8`, so text results are meaningful on concrete bytes.

use vstd::prelude::*;
use vstd::utf8::decode_utf8;
use vstd::utf8::valid_utf8;

verus! {

/// Relies on core::str::from_utf8: it succeeds exactly on well-formed UTF-8
/// and returns the text those bytes encode (the unique string slice whose
/// encoding is the input), here stated with vstd's UTF-8 model.
#[verifier::external_body]
pub(crate) fn bytes_to_str(bytes: &Vec<u8>) -> (r: Option<&str>)
    ensures
        match r {
            Some(s) => valid_utf8(bytes@) && s@ == decode_utf8(bytes@),
            None => !valid_utf8(bytes@),
        },
{
    core::str::from_utf8(bytes.as_slice()).ok()
}

} // verus!
