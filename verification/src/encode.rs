use vstd::prelude::*;
use vstd::assert_seqs_equal;
use vstd::string::StringExecFns;
use crate::text::decimal_string;
use crate::text::spec_decimal_digits;
use vstd::bytes::u16_to_le_bytes;
use vstd::bytes::u64_to_le_bytes;
use crate::checksum::crc16_over;
use crate::stuffing::cobs_encode_range;
use crate::wire::lemma_subrange_join;
use crate::wire::spec_wire_frame_invertible;
use crate::wire::spec_body_bytes;
use crate::wire::spec_control_byte;
use crate::wire::spec_encode_buffer_size;
use crate::wire::spec_header_bytes;
use crate::wire::spec_raw_frame_bytes;
use crate::wire::spec_wire_frame_bytes;
use crate::InternalPacket;
use crate::Packet;
use crate::TcPacket;
use crate::TmPacket;

verus! {

/// Error that can occur when encoding a packet.
#[derive(Copy, Clone, Debug, PartialEq, Eq)]
pub enum EncodeError {
    /// The provided buffer is too small to hold the encoded packet;
    /// reports both the required and the available size.
    BufferTooSmall { required: usize, available: usize },
}

/// The text describing a `BufferTooSmall` error, both sizes in decimal.
pub open spec fn spec_buffer_too_small_message(required: nat, available: nat) -> Seq<char> {
    "buffer too small: required "@ + spec_decimal_digits(required) + " bytes, but only "@
        + spec_decimal_digits(available) + " available"@
}

impl EncodeError {
    /// A human-readable description of the error.
    pub fn message(&self) -> (s: String)
        ensures
            (match *self {
                EncodeError::BufferTooSmall { required, available } => s@
                    == spec_buffer_too_small_message(required as nat, available as nat),
            }),
    {
        match self {
            EncodeError::BufferTooSmall { required, available } => {
                let mut s = "buffer too small: required ".to_owned();
                s.append(decimal_string(*required as u64).as_str());
                s.append(" bytes, but only ");
                s.append(decimal_string(*available as u64).as_str());
                s.append(" available");
                s
            },
        }
    }
}

/// Copy all of `src` into `dst` starting at offset `at`, leaving every
/// byte outside that range unchanged.
fn copy_into(dst: &mut Vec<u8>, at: usize, src: &Vec<u8>)
    requires
        at + src@.len() <= old(dst)@.len(),
    ensures
        final(dst)@.len() == old(dst)@.len(),
        final(dst)@.subrange(at as int, at + src@.len()) == src@,
        final(dst)@.subrange(0, at as int) == old(dst)@.subrange(0, at as int),
        final(dst)@.skip(at + src@.len()) == old(dst)@.skip(at + src@.len()),
{
    let n = src.len();
    let dst_len = dst.len();
    let mut i: usize = 0;
    while i < n
        invariant
            i <= n,
            n == src@.len(),
            at + n <= dst_len,
            dst_len == dst@.len(),
            dst@.len() == old(dst)@.len(),
            forall|j: int| 0 <= j < at ==> dst@[j] == old(dst)@[j],
            forall|j: int| at + n <= j < dst@.len() ==> dst@[j] == old(dst)@[j],
            forall|j: int| 0 <= j < i ==> dst@[at + j] == src@[j],
        decreases n - i,
    {
        dst[at + i] = src[i];
        i = i + 1;
    }
    proof {
        assert_seqs_equal!(dst@.subrange(at as int, at + src@.len()) == src@);
        assert_seqs_equal!(dst@.subrange(0, at as int) == old(dst)@.subrange(0, at as int));
        assert_seqs_equal!(dst@.skip(at + src@.len()) == old(dst)@.skip(at + src@.len()));
    }
}

impl InternalPacket {
    /// Maximum size of the buffer needed to encode any packet: the raw
    /// frame and its stuffed form must fit side by side.
    pub const MAX_ENCODE_BUFFER_SIZE: usize = Self::MAX_SIZE + Self::MAX_ENCODED_SIZE;

    /// Size of the buffer needed to encode this packet; a buffer passed to
    /// `encode` must be at least this large.
    pub(crate) fn encode_buffer_size(&self) -> (r: usize)
        ensures
            r == spec_encode_buffer_size(self.spec_payload().len()),
    {
        Self::OVERHEAD + self.payload().length() + self.encoded_size()
    }

    /// Write the 11 header bytes at the front of the buffer; returns the
    /// number of bytes written.
    fn write_header_to_buffer(&self, buffer: &mut Vec<u8>, is_tm: bool) -> (r: usize)
        requires
            old(buffer)@.len() >= 11,
        ensures
            r == 11,
            final(buffer)@.len() == old(buffer)@.len(),
            final(buffer)@.subrange(0, 11) == spec_header_bytes(self.model(is_tm)),
            final(buffer)@.skip(11) == old(buffer)@.skip(11),
    {
        let ghost m = self.model(is_tm);
        buffer[0] = self.version();
        buffer[1] = self.payload().length() as u8;
        let code = self.device_id().code();
        let control: u8 = code * 4 + if is_tm {
            0
        } else {
            128
        };
        buffer[2] = control;
        let ts = u64_to_le_bytes(self.timestamp().get());
        buffer[3] = ts[0];
        buffer[4] = ts[1];
        buffer[5] = ts[2];
        buffer[6] = ts[3];
        buffer[7] = ts[4];
        buffer[8] = ts[5];
        buffer[9] = ts[6];
        buffer[10] = ts[7];
        proof {
            assert(control == spec_control_byte(m));
            assert_seqs_equal!(buffer@.subrange(0, 11) == spec_header_bytes(m));
            assert_seqs_equal!(buffer@.skip(11) == old(buffer)@.skip(11));
        }
        11
    }

    /// Copy the payload bytes into the buffer starting at the given
    /// offset; returns the number of bytes written.
    fn write_payload_to_buffer(&self, buffer: &mut Vec<u8>, at: usize) -> (r: usize)
        requires
            at + self.spec_payload().len() <= old(buffer)@.len(),
        ensures
            r == self.spec_payload().len(),
            final(buffer)@.len() == old(buffer)@.len(),
            final(buffer)@.subrange(at as int, at + r) == self.spec_payload(),
            final(buffer)@.subrange(0, at as int) == old(buffer)@.subrange(0, at as int),
            final(buffer)@.skip(at + r) == old(buffer)@.skip(at + r),
    {
        let bytes = self.payload().as_bytes();
        copy_into(buffer, at, bytes);
        bytes.len()
    }

    /// Encode the packet into the given buffer. On success, returns the
    /// start and end of the range of the buffer that holds exactly the
    /// encoded frame (stuffed bytes plus zero terminator). The prefix of
    /// the buffer is clobbered with the intermediate raw frame.
    ///
    /// Fails with `BufferTooSmall`, leaving the buffer untouched, if and
    /// only if the buffer is smaller than `encode_buffer_size`.
    fn encode(&self, buffer: &mut Vec<u8>, is_tm: bool) -> (r: Result<(usize, usize), EncodeError>)
        ensures
            final(buffer)@.len() == old(buffer)@.len(),
            match r {
                Err(e) => {
                    &&& old(buffer)@.len() < spec_encode_buffer_size(self.spec_payload().len())
                    &&& (e == EncodeError::BufferTooSmall {
                        required: spec_encode_buffer_size(self.spec_payload().len()) as usize,
                        available: old(buffer)@.len() as usize,
                    })
                    &&& final(buffer)@ == old(buffer)@
                },
                Ok((start, end)) => {
                    &&& old(buffer)@.len() >= spec_encode_buffer_size(self.spec_payload().len())
                    &&& start == 13 + self.spec_payload().len()
                    &&& start <= end <= final(buffer)@.len()
                    &&& final(buffer)@.subrange(start as int, end as int) == spec_wire_frame_bytes(
                        self.model(is_tm),
                    )
                    &&& spec_wire_frame_invertible(self.model(is_tm))
                },
            },
    {
        let ghost m = self.model(is_tm);
        let available = buffer.len();
        let required = self.encode_buffer_size();
        if available < required {
            return Err(EncodeError::BufferTooSmall { required, available });
        }
        let n = self.payload().length();
        let idx = self.write_header_to_buffer(buffer, is_tm);
        let r2 = self.write_payload_to_buffer(buffer, idx);
        let idx2 = idx + r2;
        proof {
            lemma_subrange_join(buffer@, 0, 11, idx2 as int);
            assert(buffer@.subrange(0, idx2 as int) == spec_body_bytes(m));
        }
        let checksum = crc16_over(buffer, 0, idx2);
        let crc_bytes = u16_to_le_bytes(checksum);
        copy_into(buffer, idx2, &crc_bytes);
        let size = idx2 + 2;
        proof {
            lemma_subrange_join(buffer@, 0, idx2 as int, size as int);
            assert(buffer@.subrange(0, size as int) == spec_raw_frame_bytes(m));
        }
        let stuffed = cobs_encode_range(buffer, 0, size);
        let l = stuffed.len();
        copy_into(buffer, size, &stuffed);
        buffer[size + l] = 0;
        proof {
            assert_seqs_equal!(buffer@.subrange(size as int, size + l + 1) ==
                spec_wire_frame_bytes(m));
        }
        Ok((size, size + l + 1))
    }
}

impl TmPacket {
    /// Maximum size of the buffer needed to encode any packet.
    pub const MAX_ENCODE_BUFFER_SIZE: usize = InternalPacket::MAX_ENCODE_BUFFER_SIZE;

    /// Size of the buffer needed to encode the packet; a buffer passed to
    /// `encode` must be at least this large.
    pub fn encode_buffer_size(&self) -> (r: usize)
        ensures
            r == spec_encode_buffer_size(self@.payload.len()),
    {
        self.0.encode_buffer_size()
    }

    /// Encode the packet into the given buffer. On success, returns the
    /// start and end of the range of the buffer holding exactly the
    /// encoded frame; the buffer's prefix is clobbered with the
    /// intermediate raw frame. Fails with `BufferTooSmall`, leaving the
    /// buffer untouched, if and only if the buffer is smaller than
    /// `encode_buffer_size`.
    pub fn encode(&self, buffer: &mut Vec<u8>) -> (r: Result<(usize, usize), EncodeError>)
        ensures
            final(buffer)@.len() == old(buffer)@.len(),
            match r {
                Err(e) => {
                    &&& old(buffer)@.len() < spec_encode_buffer_size(self@.payload.len())
                    &&& (e == EncodeError::BufferTooSmall {
                        required: spec_encode_buffer_size(self@.payload.len()) as usize,
                        available: old(buffer)@.len() as usize,
                    })
                    &&& final(buffer)@ == old(buffer)@
                },
                Ok((start, end)) => {
                    &&& old(buffer)@.len() >= spec_encode_buffer_size(self@.payload.len())
                    &&& start == 13 + self@.payload.len()
                    &&& start <= end <= final(buffer)@.len()
                    &&& final(buffer)@.subrange(start as int, end as int)
                        == spec_wire_frame_bytes(self@)
                    &&& spec_wire_frame_invertible(self@)
                },
            },
    {
        self.0.encode(buffer, true)
    }
}

impl TcPacket {
    /// Maximum size of the buffer needed to encode any packet.
    pub const MAX_ENCODE_BUFFER_SIZE: usize = InternalPacket::MAX_ENCODE_BUFFER_SIZE;

    /// Size of the buffer needed to encode the packet; a buffer passed to
    /// `encode` must be at least this large.
    pub fn encode_buffer_size(&self) -> (r: usize)
        ensures
            r == spec_encode_buffer_size(self@.payload.len()),
    {
        self.0.encode_buffer_size()
    }

    /// Encode the packet into the given buffer. On success, returns the
    /// start and end of the range of the buffer holding exactly the
    /// encoded frame; the buffer's prefix is clobbered with the
    /// intermediate raw frame. Fails with `BufferTooSmall`, leaving the
    /// buffer untouched, if and only if the buffer is smaller than
    /// `encode_buffer_size`.
    pub fn encode(&self, buffer: &mut Vec<u8>) -> (r: Result<(usize, usize), EncodeError>)
        ensures
            final(buffer)@.len() == old(buffer)@.len(),
            match r {
                Err(e) => {
                    &&& old(buffer)@.len() < spec_encode_buffer_size(self@.payload.len())
                    &&& (e == EncodeError::BufferTooSmall {
                        required: spec_encode_buffer_size(self@.payload.len()) as usize,
                        available: old(buffer)@.len() as usize,
                    })
                    &&& final(buffer)@ == old(buffer)@
                },
                Ok((start, end)) => {
                    &&& old(buffer)@.len() >= spec_encode_buffer_size(self@.payload.len())
                    &&& start == 13 + self@.payload.len()
                    &&& start <= end <= final(buffer)@.len()
                    &&& final(buffer)@.subrange(start as int, end as int)
                        == spec_wire_frame_bytes(self@)
                    &&& spec_wire_frame_invertible(self@)
                },
            },
    {
        self.0.encode(buffer, false)
    }
}

impl Packet {
    /// Maximum size of the buffer needed to encode any packet.
    pub const MAX_ENCODE_BUFFER_SIZE: usize = InternalPacket::MAX_ENCODE_BUFFER_SIZE;

    /// Size of the buffer needed to encode the packet; a buffer passed to
    /// `encode` must be at least this large.
    pub fn encode_buffer_size(&self) -> (r: usize)
        ensures
            r == spec_encode_buffer_size(self@.payload.len()),
    {
        match self {
            Packet::TmPacket(tm_packet) => tm_packet.encode_buffer_size(),
            Packet::TcPacket(tc_packet) => tc_packet.encode_buffer_size(),
        }
    }

    /// Encode the packet into the given buffer. On success, returns the
    /// start and end of the range of the buffer holding exactly the
    /// encoded frame; the buffer's prefix is clobbered with the
    /// intermediate raw frame. Fails with `BufferTooSmall`, leaving the
    /// buffer untouched, if and only if the buffer is smaller than
    /// `encode_buffer_size`.
    pub fn encode(&self, buffer: &mut Vec<u8>) -> (r: Result<(usize, usize), EncodeError>)
        ensures
            final(buffer)@.len() == old(buffer)@.len(),
            match r {
                Err(e) => {
                    &&& old(buffer)@.len() < spec_encode_buffer_size(self@.payload.len())
                    &&& (e == EncodeError::BufferTooSmall {
                        required: spec_encode_buffer_size(self@.payload.len()) as usize,
                        available: old(buffer)@.len() as usize,
                    })
                    &&& final(buffer)@ == old(buffer)@
                },
                Ok((start, end)) => {
                    &&& old(buffer)@.len() >= spec_encode_buffer_size(self@.payload.len())
                    &&& start == 13 + self@.payload.len()
                    &&& start <= end <= final(buffer)@.len()
                    &&& final(buffer)@.subrange(start as int, end as int)
                        == spec_wire_frame_bytes(self@)
                    &&& spec_wire_frame_invertible(self@)
                },
            },
    {
        match self {
            Packet::TmPacket(packet) => packet.encode(buffer),
            Packet::TcPacket(packet) => packet.encode(buffer),
        }
    }
}

} // verus!
