use vstd::prelude::*;

verus! {

/// The CRC-16 value (OpenSAFETY-B polynomial) of a byte sequence. The
/// checksum is a pure function of the bytes; it is named here and computed
/// only by the outside crate.
pub uninterp spec fn crc16_of(data: Seq<u8>) -> u16;

/// Relies on crc::Crc::<u16>::checksum with crc::CRC_16_OPENSAFETY_B: a
/// deterministic digest of the given byte range, depending on those bytes
/// alone.
#[verifier::external_body]
pub(crate) fn crc16_over(data: &Vec<u8>, start: usize, end: usize) -> (r: u16)
    requires
        start <= end <= data@.len(),
    ensures
        r == crc16_of(data@.subrange(start as int, end as int)),
{
    crc::Crc::<u16>::new(&crc::CRC_16_OPENSAFETY_B).checksum(&data[start..end])
}

} // verus!
