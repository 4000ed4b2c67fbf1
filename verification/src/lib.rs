//! A binary packet protocol for telemetry/telecommand exchange between an
//! embedded flight unit and a ground station over a byte-oriented serial link.
//!
//! Packets come in two flavours: [TmPacket] (telemetry, device to ground) and
//! [TcPacket] (telecommand, ground to device), both wrapping one shared
//! internal representation. A packet is serialized into a self-delimited
//! frame by writing its header, payload and CRC-16 checksum, COBS-stuffing
//! the result and terminating it with a single zero byte. The decoder
//! recovers packets from such frames and a streaming decoder extracts as
//! many complete frames as possible from a partially-filled receive buffer.

use vstd::prelude::*;
use vstd::assert_seqs_equal;
use vstd::string::StringExecFns;

pub mod checksum;
pub mod device_id;
pub mod decode;
pub mod encode;
pub mod payload;
pub mod stuffing;
pub mod text;
pub mod wire;

pub use device_id::DeviceId;
pub use device_id::DeviceIdError;
pub use payload::Payload;
pub use payload::PayloadError;

verus! {

/// The protocol version this crate implements; every encoded frame carries
/// it in its first byte.
pub const VERSION: u8 = 1;

/// Time in nanoseconds since the Unix epoch, held as an opaque 64-bit
/// device-local tick count.
#[derive(Copy, Clone, Debug, PartialEq, Eq)]
pub struct Timestamp(u64);

impl View for Timestamp {
    type V = u64;

    closed spec fn view(&self) -> u64 {
        self.0
    }
}

impl Timestamp {
    pub fn new(timestamp: u64) -> (r: Self)
        ensures
            r@ == timestamp,
    {
        Timestamp(timestamp)
    }

    pub fn get(&self) -> (r: u64)
        ensures
            r == self@,
    {
        self.0
    }

    /// The timestamp rendered as nanoseconds.
    pub fn message(&self) -> (s: String)
        ensures
            s@ == text::spec_decimal_digits(self@ as nat) + " ns"@,
    {
        let mut s = text::decimal_string(self.get());
        s.append(" ns");
        s
    }
}

/// The descriptive line of a packet: its direction, device and timestamp.
pub open spec fn spec_packet_message(m: PacketModel) -> Seq<char> {
    (if m.is_tm {
        "Telemetry packet from "@
    } else {
        "Telecommand packet to "@
    }) + device_id::spec_device_message(m.device_id) + " with timestamp "@
        + text::spec_decimal_digits(m.timestamp as nat) + " ns"@
}

/// The mathematical content of one packet: its direction, device,
/// timestamp and payload bytes. This is what every contract of the codec
/// speaks about.
pub ghost struct PacketModel {
    pub is_tm: bool,
    pub device_id: DeviceId,
    pub timestamp: u64,
    pub payload: Seq<u8>,
}

impl PacketModel {
    /// A model is well formed when its payload fits the wire's one-byte
    /// length field.
    pub open spec fn wf(self) -> bool {
        self.payload.len() <= 255
    }
}

/// A packet containing metadata and a payload: the single internal
/// representation shared by both packet kinds.
#[derive(Debug)]
pub(crate) struct InternalPacket {
    version: u8,
    device_id: DeviceId,
    timestamp: Timestamp,
    payload: Payload,
}

impl InternalPacket {
    #[verifier::type_invariant]
    spec fn wf(self) -> bool {
        self.version == VERSION
    }

    pub closed spec fn spec_device_id(&self) -> DeviceId {
        self.device_id
    }

    pub closed spec fn spec_timestamp(&self) -> u64 {
        self.timestamp@
    }

    pub closed spec fn spec_payload(&self) -> Seq<u8> {
        self.payload@
    }

    /// The packet's content as carried on the wire in the given direction.
    pub open spec fn model(&self, is_tm: bool) -> PacketModel {
        PacketModel {
            is_tm,
            device_id: self.spec_device_id(),
            timestamp: self.spec_timestamp(),
            payload: self.spec_payload(),
        }
    }

    /// Create a new packet; the version is always the protocol constant.
    pub(crate) fn new(device_id: DeviceId, timestamp: Timestamp, payload: Payload) -> (r: Self)
        ensures
            r.spec_device_id() == device_id,
            r.spec_timestamp() == timestamp@,
            r.spec_payload() == payload@,
    {
        InternalPacket { version: VERSION, device_id, timestamp, payload }
    }
}

/// # Packet field getters
impl InternalPacket {
    pub(crate) fn version(&self) -> (r: u8)
        ensures
            r == VERSION,
    {
        proof {
            use_type_invariant(self);
        }
        self.version
    }

    pub(crate) fn device_id(&self) -> (r: &DeviceId)
        ensures
            *r == self.spec_device_id(),
    {
        &self.device_id
    }

    pub(crate) fn timestamp(&self) -> (r: &Timestamp)
        ensures
            r@ == self.spec_timestamp(),
    {
        &self.timestamp
    }

    pub(crate) fn payload(&self) -> (r: &Payload)
        ensures
            r@ == self.spec_payload(),
    {
        &self.payload
    }
}

/// # Packet size
impl InternalPacket {
    /// Number of bytes introduced by packet metadata:
    /// 1 for the version, 1 for the length, 1 for the device ID and packet
    /// kind, 8 for the timestamp and 2 for the CRC.
    pub const OVERHEAD: usize = 1 + 1 + 1 + 8 + 2;

    /// Largest possible raw frame: full metadata plus a full payload.
    pub const MAX_SIZE: usize = Self::OVERHEAD + Payload::MAX_SIZE;

    /// Maximum size of an encoded frame, in bytes: the largest raw frame,
    /// its worst-case stuffing overhead of two bytes, and the terminator.
    pub const MAX_ENCODED_SIZE: usize = Self::MAX_SIZE + 2 + 1;

    /// Size of the raw (unstuffed) frame for this packet.
    pub(crate) fn size(&self) -> (r: usize)
        ensures
            r == Self::OVERHEAD + self.spec_payload().len(),
            r <= Self::MAX_SIZE,
    {
        Self::OVERHEAD + self.payload.length()
    }

    /// Size of the encoded (stuffed and terminated) frame, at worst.
    pub(crate) fn encoded_size(&self) -> (r: usize)
        ensures
            r == wire::spec_encoded_size(self.spec_payload().len()),
    {
        stuffing::max_encoding_length(self.size()) + 1
    }
}

/// A telemetry packet (device to ground).
#[derive(Debug)]
pub struct TmPacket(pub(crate) InternalPacket);

impl View for TmPacket {
    type V = PacketModel;

    open(crate) spec fn view(&self) -> PacketModel {
        self.0.model(true)
    }
}

impl TmPacket {
    /// Create a new telemetry packet.
    pub fn new(device_id: DeviceId, timestamp: Timestamp, payload: Payload) -> (r: Self)
        ensures
            (r@ == PacketModel {
                is_tm: true,
                device_id,
                timestamp: timestamp@,
                payload: payload@,
            }),
    {
        TmPacket(InternalPacket::new(device_id, timestamp, payload))
    }
}

/// # Packet field getters
impl TmPacket {
    pub fn device_id(&self) -> (r: &DeviceId)
        ensures
            *r == self@.device_id,
    {
        self.0.device_id()
    }

    pub fn payload(&self) -> (r: &Payload)
        ensures
            r@ == self@.payload,
    {
        self.0.payload()
    }

    pub fn timestamp(&self) -> (r: &Timestamp)
        ensures
            r@ == self@.timestamp,
    {
        self.0.timestamp()
    }

    pub fn version(&self) -> (r: u8)
        ensures
            r == VERSION,
    {
        self.0.version()
    }

    /// A descriptive line naming the packet's direction, device and
    /// timestamp.
    pub fn message(&self) -> (s: String)
        ensures
            s@ == spec_packet_message(self@),
    {
        let mut s = "Telemetry packet from ".to_owned();
        s.append(self.device_id().message().as_str());
        s.append(" with timestamp ");
        s.append(self.timestamp().message().as_str());
        proof {
            assert_seqs_equal!(s@ == spec_packet_message(self@));
        }
        s
    }
}

/// # Packet size
impl TmPacket {
    /// Number of bytes introduced by packet metadata.
    pub const OVERHEAD: usize = InternalPacket::OVERHEAD;

    /// Largest possible raw frame.
    pub const MAX_SIZE: usize = InternalPacket::MAX_SIZE;

    /// Maximum size of an encoded frame, in bytes.
    pub const MAX_ENCODED_SIZE: usize = InternalPacket::MAX_ENCODED_SIZE;

    /// Size of the raw (unstuffed) frame for this packet.
    pub fn size(&self) -> (r: usize)
        ensures
            r == Self::OVERHEAD + self@.payload.len(),
    {
        self.0.size()
    }

    /// Size of the encoded (stuffed and terminated) frame, at worst.
    pub fn encoded_size(&self) -> (r: usize)
        ensures
            r == wire::spec_encoded_size(self@.payload.len()),
    {
        self.0.encoded_size()
    }
}

/// A telecommand packet (ground to device).
#[derive(Debug)]
pub struct TcPacket(pub(crate) InternalPacket);

impl View for TcPacket {
    type V = PacketModel;

    open(crate) spec fn view(&self) -> PacketModel {
        self.0.model(false)
    }
}

impl TcPacket {
    /// Create a new telecommand packet.
    pub fn new(device_id: DeviceId, timestamp: Timestamp, payload: Payload) -> (r: Self)
        ensures
            (r@ == PacketModel {
                is_tm: false,
                device_id,
                timestamp: timestamp@,
                payload: payload@,
            }),
    {
        TcPacket(InternalPacket::new(device_id, timestamp, payload))
    }
}

/// # Packet field getters
impl TcPacket {
    pub fn device_id(&self) -> (r: &DeviceId)
        ensures
            *r == self@.device_id,
    {
        self.0.device_id()
    }

    pub fn payload(&self) -> (r: &Payload)
        ensures
            r@ == self@.payload,
    {
        self.0.payload()
    }

    pub fn timestamp(&self) -> (r: &Timestamp)
        ensures
            r@ == self@.timestamp,
    {
        self.0.timestamp()
    }

    pub fn version(&self) -> (r: u8)
        ensures
            r == VERSION,
    {
        self.0.version()
    }

    /// A descriptive line naming the packet's direction, device and
    /// timestamp.
    pub fn message(&self) -> (s: String)
        ensures
            s@ == spec_packet_message(self@),
    {
        let mut s = "Telecommand packet to ".to_owned();
        s.append(self.device_id().message().as_str());
        s.append(" with timestamp ");
        s.append(self.timestamp().message().as_str());
        proof {
            assert_seqs_equal!(s@ == spec_packet_message(self@));
        }
        s
    }
}

/// # Packet size
impl TcPacket {
    /// Number of bytes introduced by packet metadata.
    pub const OVERHEAD: usize = InternalPacket::OVERHEAD;

    /// Largest possible raw frame.
    pub const MAX_SIZE: usize = InternalPacket::MAX_SIZE;

    /// Maximum size of an encoded frame, in bytes.
    pub const MAX_ENCODED_SIZE: usize = InternalPacket::MAX_ENCODED_SIZE;

    /// Size of the raw (unstuffed) frame for this packet.
    pub fn size(&self) -> (r: usize)
        ensures
            r == Self::OVERHEAD + self@.payload.len(),
    {
        self.0.size()
    }

    /// Size of the encoded (stuffed and terminated) frame, at worst.
    pub fn encoded_size(&self) -> (r: usize)
        ensures
            r == wire::spec_encoded_size(self@.payload.len()),
    {
        self.0.encoded_size()
    }
}

/// Either a telemetry packet or a telecommand packet; the only type
/// returned by decoding.
#[derive(Debug)]
pub enum Packet {
    TmPacket(TmPacket),
    TcPacket(TcPacket),
}

impl View for Packet {
    type V = PacketModel;

    open(crate) spec fn view(&self) -> PacketModel {
        match self {
            Packet::TmPacket(p) => p@,
            Packet::TcPacket(p) => p@,
        }
    }
}

impl Packet {
    pub fn is_tm_packet(&self) -> (r: bool)
        ensures
            r == self@.is_tm,
    {
        matches!(self, Packet::TmPacket(_))
    }

    pub fn is_tc_packet(&self) -> (r: bool)
        ensures
            r == !self@.is_tm,
    {
        matches!(self, Packet::TcPacket(_))
    }
}

} // verus!
