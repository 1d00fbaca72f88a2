//! Small helpers on byte vectors and text.

use vstd::prelude::*;
use vstd::utf8::{decode_utf8, encode_utf8, valid_utf8};

verus! {

/// Relies on `String::from_utf8` of std: it succeeds exactly on valid UTF-8
/// input and returns the string whose UTF-8 encoding is that input, stated
/// over vstd's own model of UTF-8 (the same one vstd uses for
/// `str::from_utf8_unchecked`).
#[verifier::external_body]
pub(crate) fn string_from_utf8(v: Vec<u8>) -> (r: Option<String>)
    ensures
        r is Some <==> valid_utf8(v@),
        r matches Some(s) ==> s@ == decode_utf8(v@) && encode_utf8(s@) == v@,
{
    match String::from_utf8(v) {
        Ok(s) => Some(s),
        Err(_) => None,
    }
}

/// Copy of a byte vector.
pub fn clone_bytes(v: &Vec<u8>) -> (r: Vec<u8>)
    ensures
        r@ == v@,
{
    let mut out: Vec<u8> = Vec::new();
    let mut i: usize = 0;
    while i < v.len()
        invariant
            i <= v@.len(),
            out@ == v@.subrange(0, i as int),
        decreases v@.len() - i,
    {
        out.push(v[i]);
        i = i + 1;
    }
    proof {
        assert(out@ =~= v@);
    }
    out
}

/// The bytes of `v` from `from` (inclusive) to `to` (exclusive).
pub fn sub_bytes(v: &Vec<u8>, from: usize, to: usize) -> (r: Vec<u8>)
    requires
        from <= to <= v@.len(),
    ensures
        r@ == v@.subrange(from as int, to as int),
{
    let mut out: Vec<u8> = Vec::new();
    let mut i: usize = from;
    while i < to
        invariant
            from <= i <= to <= v@.len(),
            out@ == v@.subrange(from as int, i as int),
        decreases to - i,
    {
        out.push(v[i]);
        proof {
            assert(out@ =~= v@.subrange(from as int, i as int + 1));
        }
        i = i + 1;
    }
    out
}

} // verus!
