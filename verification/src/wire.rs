use vstd::prelude::*;
use vstd::bytes::spec_u16_to_le_bytes;
use vstd::bytes::spec_u64_to_le_bytes;
use vstd::assert_seqs_equal;
use crate::checksum::crc16_of;
use crate::device_id::spec_device_code;
use crate::stuffing::spec_max_encoding_length;
use crate::stuffing::stuffed_of;
use crate::stuffing::unstuff_of;
use crate::PacketModel;
use crate::VERSION;

verus! {

/// The control byte of the header: bit 7 carries the direction (0 for
/// telemetry, 1 for telecommand), bits 6..2 the device code, and
/// bits 1..0 are reserved and written as zero.
pub open spec fn spec_control_byte(m: PacketModel) -> u8 {
    ((if m.is_tm {
        0int
    } else {
        128int
    }) + 4 * spec_device_code(m.device_id)) as u8
}

/// The 11 header bytes: version, payload length, control byte, and the
/// timestamp in little-endian order.
pub open spec fn spec_header_bytes(m: PacketModel) -> Seq<u8> {
    seq![VERSION, m.payload.len() as u8, spec_control_byte(m)] + spec_u64_to_le_bytes(m.timestamp)
}

/// Header plus payload: exactly the bytes the checksum covers.
pub open spec fn spec_body_bytes(m: PacketModel) -> Seq<u8> {
    spec_header_bytes(m) + m.payload
}

/// The raw (unstuffed) frame: the body followed by its CRC-16 in
/// little-endian order.
pub open spec fn spec_raw_frame_bytes(m: PacketModel) -> Seq<u8> {
    spec_body_bytes(m) + spec_u16_to_le_bytes(crc16_of(spec_body_bytes(m)))
}

/// The frame as placed on the wire: the stuffed raw frame plus the single
/// zero terminator.
pub open spec fn spec_wire_frame_bytes(m: PacketModel) -> Seq<u8> {
    stuffed_of(spec_raw_frame_bytes(m)) + seq![0u8]
}

/// Un-stuffing this packet's stuffed frame recovers its raw frame. The
/// encoder's contract supplies this fact, so a caller can conclude that
/// what was encoded decodes back to the same packet.
pub open spec fn spec_wire_frame_invertible(m: PacketModel) -> bool {
    unstuff_of(stuffed_of(spec_raw_frame_bytes(m))) == Some(spec_raw_frame_bytes(m))
}

/// Size of the stuffed frame plus terminator, at worst.
pub open spec fn spec_encoded_size(payload_len: nat) -> nat {
    spec_max_encoding_length(13 + payload_len) + 1
}

/// Size of the buffer needed to encode a packet with the given payload
/// length: room for the raw frame and for its stuffed form plus
/// terminator, side by side.
pub open spec fn spec_encode_buffer_size(payload_len: nat) -> nat {
    13 + payload_len + spec_encoded_size(payload_len)
}

pub proof fn lemma_header_len(m: PacketModel)
    ensures
        spec_header_bytes(m).len() == 11,
{
    vstd::bytes::lemma_auto_spec_u64_to_from_le_bytes();
}

/// Two adjacent subranges of one sequence join into the enclosing one.
pub proof fn lemma_subrange_join(s: Seq<u8>, a: int, b: int, c: int)
    requires
        0 <= a <= b <= c <= s.len(),
    ensures
        s.subrange(a, c) == s.subrange(a, b) + s.subrange(b, c),
{
    assert_seqs_equal!(s.subrange(a, c) == s.subrange(a, b) + s.subrange(b, c));
}

} // verus!
