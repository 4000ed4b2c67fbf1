use vstd::prelude::*;
use vstd::assert_seqs_equal;
use vstd::bytes::spec_u16_from_le_bytes;
use vstd::bytes::spec_u64_from_le_bytes;
use vstd::bytes::u16_from_le_bytes;
use vstd::bytes::u64_from_le_bytes;
use vstd::bytes::spec_u16_to_le_bytes;
use vstd::bytes::spec_u64_to_le_bytes;
use vstd::slice::slice_subrange;
use crate::checksum::crc16_of;
use crate::checksum::crc16_over;
use crate::device_id::lemma_device_code_round_trip;
use crate::device_id::spec_device_code;
use crate::device_id::spec_device_from_code;
use crate::device_id::valid_device_code;
use crate::wire::lemma_header_len;
use crate::wire::spec_body_bytes;
use crate::wire::spec_control_byte;
use crate::wire::spec_header_bytes;
use crate::wire::spec_raw_frame_bytes;
use crate::device_id::DeviceId;
use crate::device_id::DeviceIdError;
use crate::payload::Payload;
use crate::stuffing::cobs_unstuff_in_place;
use crate::stuffing::unstuff_of;
use crate::InternalPacket;
use crate::Packet;
use crate::PacketModel;
use crate::TcPacket;
use crate::Timestamp;
use crate::TmPacket;
use crate::VERSION;

verus! {

/// Error that can occur when decoding a frame.
#[derive(Copy, Clone, Debug, PartialEq, Eq)]
pub enum DecodeError {
    /// The bytes are not valid COBS data: the stuffing could not be
    /// inverted.
    Cobs,
    /// The unstuffed frame is shorter than the smallest valid frame;
    /// carries the unstuffed length.
    BufferTooShort(usize),
    /// The version byte does not match the supported protocol version;
    /// carries the version found.
    UnsupportedVersion(u8),
    /// The checksum embedded in the frame does not match the one computed
    /// over its contents.
    InvalidChecksum { expected: u16, found: u16 },
    /// The declared payload length disagrees with the actual frame size.
    InvalidLength { expected: usize, found: usize },
    /// The control byte's device-id bits map to no known device.
    IdError(DeviceIdError),
}

/// What decoding an unstuffed frame yields: the packet's content, or the
/// first error in the validation order (length, version, checksum,
/// declared length, device id). The checksum is compared before the
/// declared payload length is trusted. The control byte's two reserved
/// low bits are ignored, for forward compatibility.
pub open spec fn spec_decode_frame(s: Seq<u8>) -> Result<PacketModel, DecodeError> {
    if s.len() < 13 {
        Err(DecodeError::BufferTooShort(s.len() as usize))
    } else if s[0] != VERSION {
        Err(DecodeError::UnsupportedVersion(s[0]))
    } else {
        let found = spec_u16_from_le_bytes(s.subrange(s.len() - 2, s.len() as int));
        let expected = crc16_of(s.subrange(0, s.len() - 2));
        if found != expected {
            Err(DecodeError::InvalidChecksum { expected, found })
        } else if s[1] as int != s.len() - 13 {
            Err(
                DecodeError::InvalidLength {
                    expected: (s.len() - 13) as usize,
                    found: s[1] as usize,
                },
            )
        } else {
            let control = s[2];
            let code = ((control as int / 4) % 32) as u8;
            if !valid_device_code(code) {
                Err(DecodeError::IdError(DeviceIdError::InvalidId(code)))
            } else {
                Ok(
                    PacketModel {
                        is_tm: control < 128,
                        device_id: spec_device_from_code(code),
                        timestamp: spec_u64_from_le_bytes(s.subrange(3, 11)),
                        payload: s.subrange(11, s.len() - 2),
                    },
                )
            }
        }
    }
}

/// What decoding one stuffed frame yields: un-stuff, then decode.
pub open spec fn spec_decode_stuffed(frame: Seq<u8>) -> Result<PacketModel, DecodeError> {
    match unstuff_of(frame) {
        None => Err(DecodeError::Cobs),
        Some(s) => spec_decode_frame(s),
    }
}

impl Packet {
    /// Decode a buffer containing a single stuffed frame (with or without
    /// its zero terminator).
    ///
    /// The buffer is un-stuffed in place, so its contents are mutated and
    /// the original encoded bytes cannot be recovered afterwards.
    ///
    /// The result is exactly what `spec_decode_stuffed` says of the
    /// buffer's old contents: the packet on success, and on failure the
    /// first error in the validation order.
    pub fn decode_single(buf: &mut Vec<u8>) -> (r: Result<Self, DecodeError>)
        ensures
            final(buf)@.len() == old(buf)@.len(),
            match r {
                Ok(p) => spec_decode_stuffed(old(buf)@) == Ok::<PacketModel, DecodeError>(p@),
                Err(e) => spec_decode_stuffed(old(buf)@) == Err::<PacketModel, DecodeError>(e),
            },
    {
        let len = match cobs_unstuff_in_place(buf) {
            Ok(len) => len,
            Err(_) => {
                return Err(DecodeError::Cobs);
            },
        };
        let ghost s = buf@.subrange(0, len as int);
        if len < 13 {
            return Err(DecodeError::BufferTooShort(len));
        }
        if buf[0] != VERSION {
            return Err(DecodeError::UnsupportedVersion(buf[0]));
        }
        proof {
            assert_seqs_equal!(buf@.subrange(0, len - 2) == s.subrange(0, len - 2));
            assert_seqs_equal!(buf@.subrange(len - 2, len as int) == s.subrange(len - 2, len as int));
        }
        let expected = crc16_over(buf, 0, len - 2);
        let found = u16_from_le_bytes(slice_subrange(buf.as_slice(), len - 2, len));
        if found != expected {
            return Err(DecodeError::InvalidChecksum { expected, found });
        }
        let found_len = buf[1];
        if found_len as usize != len - 13 {
            return Err(
                DecodeError::InvalidLength { expected: len - 13, found: found_len as usize },
            );
        }
        let control = buf[2];
        let is_tm = control < 128;
        let code = (control / 4) % 32;
        let id = match DeviceId::try_from(code) {
            Ok(id) => id,
            Err(e) => {
                return Err(DecodeError::IdError(e));
            },
        };
        proof {
            assert_seqs_equal!(buf@.subrange(3, 11) == s.subrange(3, 11));
            assert_seqs_equal!(buf@.subrange(11, len - 2) == s.subrange(11, len - 2));
        }
        let timestamp = u64_from_le_bytes(slice_subrange(buf.as_slice(), 3, 11));
        let payload = match Payload::from_raw_bytes(slice_subrange(buf.as_slice(), 11, len - 2)) {
            Ok(p) => p,
            Err(_) => {
                return Err(DecodeError::Cobs);
            },
        };
        let packet = InternalPacket::new(id, Timestamp::new(timestamp), payload);
        Ok(
            if is_tm {
                Packet::TmPacket(TmPacket(packet))
            } else {
                Packet::TcPacket(TcPacket(packet))
            },
        )
    }
}

/// Index of the first zero byte in `s`, or `s.len()` if there is none.
pub open spec fn first_zero(s: Seq<u8>) -> nat
    decreases s.len(),
{
    if s.len() == 0 {
        0
    } else if s[0] == 0 {
        0
    } else {
        1 + first_zero(s.skip(1))
    }
}

/// `first_zero` names the unique position with only nonzero bytes before
/// it and, unless it is the length, a zero byte at it.
pub proof fn lemma_first_zero_is(s: Seq<u8>, k: int)
    requires
        0 <= k <= s.len(),
        forall|j: int| 0 <= j < k ==> s[j] != 0,
        k < s.len() ==> s[k] == 0,
    ensures
        first_zero(s) == k,
    decreases s.len(),
{
    if k == 0 {
    } else {
        assert(s[0] != 0);
        assert forall|j: int| 0 <= j < k - 1 implies s.skip(1)[j] != 0 by {
            assert(s.skip(1)[j] == s[j + 1]);
        }
        assert(k - 1 < s.skip(1).len() ==> s.skip(1)[k - 1] == 0);
        lemma_first_zero_is(s.skip(1), k - 1);
    }
}

/// The packet contents of a sequence of decoded packets.
pub open spec fn views_of(ps: Seq<Packet>) -> Seq<PacketModel> {
    ps.map_values(|p: Packet| p@)
}

/// What the streaming decoder yields from a buffer and an output
/// capacity: the packets of the leading complete frames in arrival order,
/// up to capacity, together with the unconsumed remainder — or the first
/// failing frame's error, which aborts the whole batch.
pub open spec fn spec_stream_decode(buf: Seq<u8>, cap: nat) -> Result<
    (Seq<u8>, Seq<PacketModel>),
    DecodeError,
>
    decreases buf.len(),
{
    if cap == 0 {
        Ok((buf, Seq::empty()))
    } else {
        let idx = first_zero(buf);
        if idx >= buf.len() {
            Ok((buf, Seq::empty()))
        } else {
            match spec_decode_stuffed(buf.take(idx as int)) {
                Err(e) => Err(e),
                Ok(m) => match spec_stream_decode(buf.skip(idx + 1 as int), (cap - 1) as nat) {
                    Err(e) => Err(e),
                    Ok(p) => Ok((p.0, seq![m] + p.1)),
                },
            }
        }
    }
}

impl Packet {
    /// Decode as many complete frames as both the input and the output
    /// capacity allow.
    ///
    /// Each zero byte in the buffer ends one stuffed frame. The decoded
    /// packets come back in arrival order, at most `out_capacity` of
    /// them, together with the unconsumed remainder of the buffer: the
    /// bytes from the start of the first frame that was not decoded,
    /// either because its terminator has not arrived yet or because the
    /// output is full. The caller keeps the remainder and prepends it to
    /// the next batch of received bytes. The first frame that fails to
    /// decode aborts the whole call with its error; resynchronization is
    /// the caller's policy.
    pub fn decode_stateless(buf: &Vec<u8>, out_capacity: usize) -> (r: Result<
        (Vec<u8>, Vec<Packet>),
        DecodeError,
    >)
        ensures
            match spec_stream_decode(buf@, out_capacity as nat) {
                Ok(p) => {
                    &&& r is Ok
                    &&& r->Ok_0.0@ == p.0
                    &&& views_of(r->Ok_0.1@) == p.1
                },
                Err(e) => r == Err::<(Vec<u8>, Vec<Packet>), DecodeError>(e),
            },
    {
        let len = buf.len();
        let mut pos: usize = 0;
        let mut out: Vec<Packet> = Vec::new();
        proof {
            assert_seqs_equal!(buf@.skip(0) == buf@);
            assert_seqs_equal!(views_of(out@) == Seq::<PacketModel>::empty());
            match spec_stream_decode(buf@, out_capacity as nat) {
                Ok(p) => {
                    assert_seqs_equal!(views_of(out@) + p.1 == p.1);
                },
                Err(_) => {},
            }
        }
        loop
            invariant_except_break
                pos <= len,
                len == buf@.len(),
                out@.len() <= out_capacity,
                (match spec_stream_decode(
                    buf@.skip(pos as int),
                    (out_capacity - out@.len()) as nat,
                ) {
                    Ok(p) => spec_stream_decode(buf@, out_capacity as nat) == Ok::<
                        (Seq<u8>, Seq<PacketModel>),
                        DecodeError,
                    >((p.0, views_of(out@) + p.1)),
                    Err(e) => spec_stream_decode(buf@, out_capacity as nat) == Err::<
                        (Seq<u8>, Seq<PacketModel>),
                        DecodeError,
                    >(e),
                }),
            ensures
                pos <= len,
                len == buf@.len(),
                spec_stream_decode(buf@, out_capacity as nat) == Ok::<
                    (Seq<u8>, Seq<PacketModel>),
                    DecodeError,
                >((buf@.skip(pos as int), views_of(out@))),
            decreases len - pos,
        {
            let ghost suffix = buf@.skip(pos as int);
            let ghost k = (out_capacity - out@.len()) as nat;
            if out.len() >= out_capacity {
                proof {
                    assert(spec_stream_decode(suffix, 0) == Ok::<
                        (Seq<u8>, Seq<PacketModel>),
                        DecodeError,
                    >((suffix, Seq::<PacketModel>::empty())));
                    assert_seqs_equal!(views_of(out@) + Seq::<PacketModel>::empty()
                        == views_of(out@));
                }
                break;
            }
            let mut j: usize = pos;
            while j < len && buf[j] != 0
                invariant
                    pos <= j <= len,
                    len == buf@.len(),
                    forall|t: int| pos <= t < j ==> buf@[t] != 0,
                decreases len - j,
            {
                j = j + 1;
            }
            proof {
                assert forall|t: int| 0 <= t < j - pos implies suffix[t] != 0 by {
                    assert(suffix[t] == buf@[pos + t]);
                }
                if j < len {
                    assert(suffix[j - pos] == buf@[j as int]);
                }
                lemma_first_zero_is(suffix, j - pos);
            }
            if j == len {
                proof {
                    assert(first_zero(suffix) >= suffix.len());
                    assert(spec_stream_decode(suffix, k) == Ok::<
                        (Seq<u8>, Seq<PacketModel>),
                        DecodeError,
                    >((suffix, Seq::<PacketModel>::empty())));
                    assert_seqs_equal!(views_of(out@) + Seq::<PacketModel>::empty()
                        == views_of(out@));
                }
                break;
            }
            let mut frame: Vec<u8> = Vec::new();
            let mut i: usize = pos;
            while i < j
                invariant
                    pos <= i <= j <= len,
                    len == buf@.len(),
                    frame@ == buf@.subrange(pos as int, i as int),
                decreases j - i,
            {
                let b = buf[i];
                frame.push(b);
                proof {
                    assert_seqs_equal!(frame@ == buf@.subrange(pos as int, i + 1));
                }
                i = i + 1;
            }
            let ghost frame0 = frame@;
            proof {
                assert_seqs_equal!(suffix.take(j - pos) == frame0);
                assert(k != 0);
                assert(first_zero(suffix) == j - pos);
                assert(first_zero(suffix) < suffix.len());
                assert_seqs_equal!(suffix.skip(j - pos + 1) == buf@.skip(j + 1));
            }
            let p = match Packet::decode_single(&mut frame) {
                Ok(p) => p,
                Err(e) => {
                    proof {
                        assert(spec_decode_stuffed(frame0) == Err::<PacketModel, DecodeError>(e));
                        assert(spec_stream_decode(suffix, k) == Err::<
                            (Seq<u8>, Seq<PacketModel>),
                            DecodeError,
                        >(e));
                    }
                    return Err(e);
                },
            };
            let ghost out_old = out@;
            out.push(p);
            proof {
                assert(spec_decode_stuffed(frame0) == Ok::<PacketModel, DecodeError>(p@));
                assert_seqs_equal!(views_of(out@) == views_of(out_old).push(p@));
                let step = spec_stream_decode(buf@.skip(j + 1), (k - 1) as nat);
                match step {
                    Ok(p2) => {
                        assert(spec_stream_decode(suffix, k) == Ok::<
                            (Seq<u8>, Seq<PacketModel>),
                            DecodeError,
                        >((p2.0, seq![p@] + p2.1)));
                        assert_seqs_equal!(views_of(out_old) + (seq![p@] + p2.1) ==
                            views_of(out@) + p2.1);
                    },
                    Err(e) => {
                        assert(spec_stream_decode(suffix, k) == Err::<
                            (Seq<u8>, Seq<PacketModel>),
                            DecodeError,
                        >(e));
                    },
                }
            }
            pos = j + 1;
        }
        let mut rem: Vec<u8> = Vec::new();
        let mut i: usize = pos;
        while i < len
            invariant
                pos <= i <= len,
                len == buf@.len(),
                rem@ == buf@.subrange(pos as int, i as int),
            decreases len - i,
        {
            let b = buf[i];
            rem.push(b);
            proof {
                assert_seqs_equal!(rem@ == buf@.subrange(pos as int, i + 1));
            }
            i = i + 1;
        }
        proof {
            assert_seqs_equal!(rem@ == buf@.skip(pos as int));
        }
        Ok((rem, out))
    }
}

/// A byte sequence with no zero byte in it: the inside of a stuffed
/// frame, or a truncated frame whose terminator has not arrived.
pub open spec fn zero_free(s: Seq<u8>) -> bool {
    forall|i: int| 0 <= i < s.len() ==> s[i] != 0
}

/// Round trip: decoding the raw frame written for any well-formed packet
/// yields that packet back — same direction, device id, timestamp and
/// payload bytes.
pub proof fn lemma_round_trip(m: PacketModel)
    requires
        m.wf(),
    ensures
        spec_decode_frame(spec_raw_frame_bytes(m)) == Ok::<PacketModel, DecodeError>(m),
{
    let s = spec_raw_frame_bytes(m);
    let body = spec_body_bytes(m);
    let header = spec_header_bytes(m);
    vstd::bytes::lemma_auto_spec_u64_to_from_le_bytes();
    vstd::bytes::lemma_auto_spec_u16_to_from_le_bytes();
    lemma_header_len(m);
    assert(s.len() == 13 + m.payload.len());
    assert(s[0] == header[0]);
    assert(s[1] == header[1]);
    assert(s[2] == header[2]);
    assert_seqs_equal!(s.subrange(0, s.len() - 2) == body);
    assert_seqs_equal!(s.subrange(s.len() - 2, s.len() as int)
        == spec_u16_to_le_bytes(crc16_of(body)));
    assert_seqs_equal!(s.subrange(3, 11) == spec_u64_to_le_bytes(m.timestamp));
    assert_seqs_equal!(s.subrange(11, s.len() - 2) == m.payload);
    let c = spec_control_byte(m);
    let code = spec_device_code(m.device_id);
    assert(code <= 31 && code >= 1);
    assert(c == (if m.is_tm {
        0int
    } else {
        128int
    }) + 4 * code);
    assert((c as int / 4) % 32 == code);
    assert((c < 128) == m.is_tm);
    lemma_device_code_round_trip(m.device_id);
    assert(spec_decode_frame(s)->Ok_0 =~= m);
}

/// Round trip through stuffing: any frame that un-stuffs to the raw
/// frame written for a well-formed packet — as the encoder's output does
/// — decodes to exactly that packet.
pub proof fn lemma_wire_round_trip(stuffed: Seq<u8>, m: PacketModel)
    requires
        m.wf(),
        unstuff_of(stuffed) == Some(spec_raw_frame_bytes(m)),
    ensures
        spec_decode_stuffed(stuffed) == Ok::<PacketModel, DecodeError>(m),
{
    lemma_round_trip(m);
}

/// Version gate: a frame of sufficient length whose version byte is not
/// the supported version fails with `UnsupportedVersion`; the version
/// check precedes the checksum and length checks, so nothing else is
/// consulted.
pub proof fn lemma_version_gate(s: Seq<u8>)
    requires
        s.len() >= 13,
        s[0] != VERSION,
    ensures
        spec_decode_frame(s) == Err::<PacketModel, DecodeError>(
            DecodeError::UnsupportedVersion(s[0]),
        ),
{
}

/// Checksum sensitivity: whenever the embedded checksum disagrees with
/// the one recomputed over the frame's contents — as a bit flip that
/// changes the CRC makes it do — decoding fails with `InvalidChecksum`
/// rather than succeeding silently.
pub proof fn lemma_checksum_mismatch_rejected(s: Seq<u8>)
    requires
        s.len() >= 13,
        s[0] == VERSION,
        spec_u16_from_le_bytes(s.subrange(s.len() - 2, s.len() as int)) != crc16_of(
            s.subrange(0, s.len() - 2),
        ),
    ensures
        spec_decode_frame(s) == Err::<PacketModel, DecodeError>(
            DecodeError::InvalidChecksum {
                expected: crc16_of(s.subrange(0, s.len() - 2)),
                found: spec_u16_from_le_bytes(s.subrange(s.len() - 2, s.len() as int)),
            },
        ),
{
}

/// Device-id rejection: a frame that passes every structural check but
/// whose control byte carries an unassigned device code fails with
/// `InvalidId` — never a panic, never a misrouted packet.
pub proof fn lemma_invalid_device_id_rejected(s: Seq<u8>)
    requires
        s.len() >= 13,
        s[0] == VERSION,
        spec_u16_from_le_bytes(s.subrange(s.len() - 2, s.len() as int)) == crc16_of(
            s.subrange(0, s.len() - 2),
        ),
        s[1] as int == s.len() - 13,
        !valid_device_code((((s[2] as int) / 4) % 32) as u8),
    ensures
        spec_decode_frame(s) == Err::<PacketModel, DecodeError>(
            DecodeError::IdError(DeviceIdError::InvalidId((((s[2] as int) / 4) % 32) as u8)),
        ),
{
}

/// A buffer without a zero byte holds no complete frame: the streaming
/// decoder consumes nothing and returns it whole.
pub proof fn lemma_stream_no_zero(buf: Seq<u8>, cap: nat)
    requires
        zero_free(buf),
    ensures
        spec_stream_decode(buf, cap) == Ok::<(Seq<u8>, Seq<PacketModel>), DecodeError>(
            (buf, Seq::<PacketModel>::empty()),
        ),
{
    if cap != 0 {
        lemma_first_zero_is(buf, buf.len() as int);
    }
}

/// Statelessness: whatever the streaming decoder returns as remainder is
/// a literal suffix of its input — the unconsumed bytes, byte for byte.
/// Retaining it and appending newly arrived bytes therefore reproduces
/// the unbroken stream; the decoder holds no hidden buffering.
pub proof fn lemma_remainder_is_suffix(buf: Seq<u8>, cap: nat)
    ensures
        match spec_stream_decode(buf, cap) {
            Ok(p) => exists|k: int| 0 <= k <= buf.len() && p.0 == buf.skip(k),
            Err(_) => true,
        },
    decreases buf.len(),
{
    if cap == 0 {
        assert(buf.skip(0) =~= buf);
    } else {
        let idx = first_zero(buf);
        if idx >= buf.len() {
            assert(buf.skip(0) =~= buf);
        } else {
            match spec_decode_stuffed(buf.take(idx as int)) {
                Err(_) => {},
                Ok(_) => {
                    let rest = buf.skip(idx + 1 as int);
                    lemma_remainder_is_suffix(rest, (cap - 1) as nat);
                    match spec_stream_decode(rest, (cap - 1) as nat) {
                        Ok(p2) => {
                            let k = choose|k: int| 0 <= k <= rest.len() && p2.0 == rest.skip(k);
                            assert(rest.skip(k) =~= buf.skip(idx + 1 + k));
                        },
                        Err(_) => {},
                    }
                },
            }
        }
    }
}

/// One step of the streaming decoder: a zero-free frame that decodes to
/// `m`, followed by its terminator and arbitrary further bytes,
/// contributes exactly `m`, and the further bytes are decoded with one
/// output slot fewer.
pub proof fn lemma_stream_step(f: Seq<u8>, rest: Seq<u8>, m: PacketModel, cap: nat)
    requires
        cap > 0,
        zero_free(f),
        spec_decode_stuffed(f) == Ok::<PacketModel, DecodeError>(m),
    ensures
        spec_stream_decode(f + seq![0u8] + rest, cap) == match spec_stream_decode(
            rest,
            (cap - 1) as nat,
        ) {
            Ok(p) => Ok::<(Seq<u8>, Seq<PacketModel>), DecodeError>((p.0, seq![m] + p.1)),
            Err(e) => Err::<(Seq<u8>, Seq<PacketModel>), DecodeError>(e),
        },
{
    let buf = f + seq![0u8] + rest;
    assert forall|i: int| 0 <= i < f.len() implies buf[i] != 0 by {
        assert(buf[i] == (f + seq![0u8])[i]);
        assert((f + seq![0u8])[i] == f[i]);
    }
    assert(buf[f.len() as int] == (f + seq![0u8])[f.len() as int]);
    assert(buf[f.len() as int] == 0);
    lemma_first_zero_is(buf, f.len() as int);
    assert_seqs_equal!(buf.take(f.len() as int) == f);
    assert_seqs_equal!(buf.skip(f.len() + 1 as int) == rest);
}

/// Streaming boundary: a buffer holding exactly two complete frames and
/// then a truncated third one, decoded with room for two packets, yields
/// both packets in arrival order and returns the truncated frame's bytes
/// untouched as the remainder.
pub proof fn lemma_streaming_boundary(
    f1: Seq<u8>,
    f2: Seq<u8>,
    tail: Seq<u8>,
    m1: PacketModel,
    m2: PacketModel,
)
    requires
        zero_free(f1),
        zero_free(f2),
        zero_free(tail),
        spec_decode_stuffed(f1) == Ok::<PacketModel, DecodeError>(m1),
        spec_decode_stuffed(f2) == Ok::<PacketModel, DecodeError>(m2),
    ensures
        spec_stream_decode(f1 + seq![0u8] + f2 + seq![0u8] + tail, 2) == Ok::<
            (Seq<u8>, Seq<PacketModel>),
            DecodeError,
        >((tail, seq![m1, m2])),
{
    lemma_stream_no_zero(tail, 0);
    lemma_stream_step(f2, tail, m2, 1);
    lemma_stream_step(f1, f2 + seq![0u8] + tail, m1, 2);
    assert_seqs_equal!(f1 + seq![0u8] + (f2 + seq![0u8] + tail)
        == f1 + seq![0u8] + f2 + seq![0u8] + tail);
    assert_seqs_equal!(seq![m1] + (seq![m2] + Seq::<PacketModel>::empty()) == seq![m1, m2]);
}

/// Output-capacity throttling: with room for a single packet, exactly
/// the first complete frame is decoded and every byte after its
/// terminator — further complete frames included — comes back unconsumed
/// and unchanged.
pub proof fn lemma_output_capacity_throttling(f1: Seq<u8>, rest: Seq<u8>, m1: PacketModel)
    requires
        zero_free(f1),
        spec_decode_stuffed(f1) == Ok::<PacketModel, DecodeError>(m1),
    ensures
        spec_stream_decode(f1 + seq![0u8] + rest, 1) == Ok::<
            (Seq<u8>, Seq<PacketModel>),
            DecodeError,
        >((rest, seq![m1])),
{
    lemma_stream_step(f1, rest, m1, 1);
    assert_seqs_equal!(seq![m1] + Seq::<PacketModel>::empty() == seq![m1]);
}

} // verus!
