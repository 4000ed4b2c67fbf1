use vstd::prelude::*;

verus! {

/// The COBS-stuffed form of a byte sequence, as produced by the cobs
/// crate's encoder. Stuffing is a pure function of the bytes; it is named
/// here and computed only by the outside crate.
pub uninterp spec fn stuffed_of(raw: Seq<u8>) -> Seq<u8>;

/// What the cobs crate's in-place decoder recovers from a byte sequence:
/// the raw bytes if the sequence is valid COBS data, `None` if it is
/// malformed.
pub uninterp spec fn unstuff_of(stuffed: Seq<u8>) -> Option<Seq<u8>>;

/// The documented worst-case size of COBS-stuffed data: one byte of
/// overhead per 254 input bytes, rounded up (one byte for empty input).
pub open spec fn spec_max_encoding_length(n: nat) -> nat {
    if n == 0 {
        1
    } else {
        n + (n + 253) / 254
    }
}

/// Worst-case stuffed size of `n` input bytes; the formula the cobs crate
/// documents for sizing destination buffers.
pub(crate) fn max_encoding_length(n: usize) -> (r: usize)
    requires
        n <= 268,
    ensures
        r == spec_max_encoding_length(n as nat),
{
    if n == 0 {
        1
    } else {
        n + (n + 253) / 254
    }
}

/// Relies on cobs::encode_vec: COBS-stuffs the given byte range. The
/// result is the stuffed form of the input; it contains no zero byte, it
/// stays within the documented worst-case length, and the cobs crate's
/// in-place decoder inverts it exactly.
#[verifier::external_body]
pub(crate) fn cobs_encode_range(src: &Vec<u8>, start: usize, end: usize) -> (r: Vec<u8>)
    requires
        start <= end <= src@.len(),
    ensures
        r@ == stuffed_of(src@.subrange(start as int, end as int)),
        r@.len() <= spec_max_encoding_length((end - start) as nat),
        forall|i: int| 0 <= i < r@.len() ==> r@[i] != 0,
        unstuff_of(r@) == Some(src@.subrange(start as int, end as int)),
{
    cobs::encode_vec(&src[start..end])
}

/// Relies on cobs::decode_in_place: inverts COBS stuffing destructively in
/// the buffer's prefix. On success the first `n` bytes hold the recovered
/// raw data; the buffer keeps its length either way.
#[verifier::external_body]
pub(crate) fn cobs_unstuff_in_place(buf: &mut Vec<u8>) -> (r: Result<usize, ()>)
    ensures
        final(buf)@.len() == old(buf)@.len(),
        match r {
            Ok(n) => {
                &&& n <= old(buf)@.len()
                &&& unstuff_of(old(buf)@) == Some(final(buf)@.subrange(0, n as int))
            },
            Err(_) => unstuff_of(old(buf)@) is None,
        },
{
    match cobs::decode_in_place(buf.as_mut_slice()) {
        Ok(n) => Ok(n),
        Err(_) => Err(()),
    }
}

} // verus!
