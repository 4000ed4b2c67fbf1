use orbipacket::decode::DecodeError;
use orbipacket::DeviceId;
use orbipacket::DeviceIdError;
use orbipacket::Packet;
use orbipacket::Payload;
use orbipacket::PayloadError;
use orbipacket::TcPacket;
use orbipacket::Timestamp;
use orbipacket::TmPacket;
use orbipacket::VERSION;

/// The raw (unstuffed) frame of the telemetry packet used across these
/// tests: System device, timestamp 10, payload 0xABCDEF as four
/// little-endian bytes, with its CRC-16 appended.
const RAW_TM_FRAME: [u8; 17] = [
    1, 4, 4, 10, 0, 0, 0, 0, 0, 0, 0, 0xEF, 0xCD, 0xAB, 0x00, 28, 228,
];

fn crc16(bytes: &[u8]) -> u16 {
    crc::Crc::<u16>::new(&crc::CRC_16_OPENSAFETY_B).checksum(bytes)
}

fn stuffed_frame(raw: &[u8]) -> Vec<u8> {
    let mut frame = cobs::encode_vec(raw);
    frame.push(0);
    frame
}

fn encode_tm(packet: &TmPacket) -> Vec<u8> {
    let mut buffer = vec![0u8; TmPacket::MAX_ENCODE_BUFFER_SIZE];
    let (start, end) = packet.encode(&mut buffer).unwrap();
    buffer[start..end].to_vec()
}

#[test]
fn round_trip_tm_packet() {
    let payload = Payload::from_raw_bytes(&[0xEF, 0xCD, 0xAB, 0x00]).unwrap();
    let packet = TmPacket::new(DeviceId::Gps, Timestamp::new(0xDEADBEEF), payload);
    let mut frame = encode_tm(&packet);
    let decoded = Packet::decode_single(&mut frame).unwrap();
    let Packet::TmPacket(decoded) = decoded else {
        panic!("Decoded packet is not TmPacket")
    };
    assert_eq!(decoded.version(), VERSION);
    assert_eq!(decoded.device_id(), &DeviceId::Gps);
    assert_eq!(decoded.timestamp().get(), 0xDEADBEEF);
    assert_eq!(*decoded.payload().as_bytes(), [0xEF, 0xCD, 0xAB, 0x00]);
}

#[test]
fn round_trip_tc_packet() {
    let payload = Payload::from_raw_bytes(&[7, 0, 42]).unwrap();
    let packet = TcPacket::new(DeviceId::Unknown, Timestamp::new(u64::MAX), payload);
    let mut buffer = vec![0u8; TcPacket::MAX_ENCODE_BUFFER_SIZE];
    let (start, end) = packet.encode(&mut buffer).unwrap();
    let mut frame = buffer[start..end].to_vec();
    let decoded = Packet::decode_single(&mut frame).unwrap();
    let Packet::TcPacket(decoded) = decoded else {
        panic!("Decoded packet is not TcPacket")
    };
    assert_eq!(decoded.version(), VERSION);
    assert_eq!(decoded.device_id(), &DeviceId::Unknown);
    assert_eq!(decoded.timestamp().get(), u64::MAX);
    assert_eq!(*decoded.payload().as_bytes(), [7, 0, 42]);
}

#[test]
fn round_trip_empty_payload() {
    let packet = TmPacket::new(
        DeviceId::Accelerometer,
        Timestamp::new(0),
        Payload::new(),
    );
    let mut frame = encode_tm(&packet);
    let decoded = Packet::decode_single(&mut frame).unwrap();
    let Packet::TmPacket(decoded) = decoded else {
        panic!("Decoded packet is not TmPacket")
    };
    assert_eq!(decoded.device_id(), &DeviceId::Accelerometer);
    assert_eq!(decoded.payload().length(), 0);
}

#[test]
fn round_trip_full_payload() {
    let mut data = [0u8; 255];
    let mut i = 0usize;
    while i < 255 {
        data[i] = (i % 256) as u8;
        i += 1;
    }
    let payload = Payload::from_raw_bytes(&data).unwrap();
    let packet = TmPacket::new(DeviceId::PressureSensor, Timestamp::new(123456789), payload);
    let mut frame = encode_tm(&packet);
    let decoded = Packet::decode_single(&mut frame).unwrap();
    let Packet::TmPacket(decoded) = decoded else {
        panic!("Decoded packet is not TmPacket")
    };
    assert_eq!(decoded.payload().as_bytes().as_slice(), &data[..]);
    assert_eq!(decoded.timestamp().get(), 123456789);
}

#[test]
fn payload_length_bound() {
    let at_bound = [0xAAu8; 255];
    assert!(Payload::from_raw_bytes(&at_bound).is_ok());
    assert_eq!(
        Payload::from_raw_bytes(&at_bound).unwrap().length(),
        255
    );

    let above_bound = [0xAAu8; 256];
    assert_eq!(
        Payload::from_raw_bytes(&above_bound).unwrap_err(),
        PayloadError::PayloadTooLong(256)
    );
}

#[test]
fn checksum_detects_every_single_bit_flip() {
    // Flip each bit of the header (past the version byte) and of the
    // payload; the recomputed CRC must disagree with the stored one.
    for byte in 1..15usize {
        for bit in 0..8u8 {
            let mut tampered = RAW_TM_FRAME;
            tampered[byte] ^= 1 << bit;
            let mut frame = stuffed_frame(&tampered);
            let error = Packet::decode_single(&mut frame).unwrap_err();
            assert!(
                matches!(error, DecodeError::InvalidChecksum { .. }),
                "flipping bit {} of byte {} was not caught by the checksum",
                bit,
                byte
            );
        }
    }
}

#[test]
fn version_gate_precedes_checksum() {
    // Incrementing the version byte invalidates the checksum as well, but
    // the version check comes first.
    let mut tampered = RAW_TM_FRAME;
    tampered[0] = VERSION + 1;
    let mut frame = stuffed_frame(&tampered);
    let error = Packet::decode_single(&mut frame).unwrap_err();
    assert_eq!(error, DecodeError::UnsupportedVersion(VERSION + 1));
}

#[test]
fn declared_length_mismatch_is_rejected() {
    // A frame with a consistent checksum but a wrong declared payload
    // length: the length byte says 5, the frame carries 4 payload bytes.
    let mut raw = RAW_TM_FRAME[..15].to_vec();
    raw[1] = 5;
    let checksum = crc16(&raw);
    raw.extend_from_slice(&checksum.to_le_bytes());
    let mut frame = stuffed_frame(&raw);
    let error = Packet::decode_single(&mut frame).unwrap_err();
    assert_eq!(
        error,
        DecodeError::InvalidLength {
            expected: 4,
            found: 5
        }
    );
}

#[test]
fn unassigned_device_id_is_rejected() {
    // Control byte 28 encodes device code 7, which has no assigned device.
    let mut raw = vec![VERSION, 0, 28, 0, 0, 0, 0, 0, 0, 0, 0];
    let checksum = crc16(&raw);
    raw.extend_from_slice(&checksum.to_le_bytes());
    let mut frame = stuffed_frame(&raw);
    let error = Packet::decode_single(&mut frame).unwrap_err();
    assert_eq!(
        error,
        DecodeError::IdError(DeviceIdError::InvalidId(7))
    );
}

#[test]
fn malformed_stuffing_is_rejected() {
    // The leading code byte promises four data bytes, but only one follows.
    let mut frame = vec![0x05, 0x01];
    let error = Packet::decode_single(&mut frame).unwrap_err();
    assert_eq!(error, DecodeError::Cobs);
}

#[test]
fn short_frame_is_rejected() {
    // A well-stuffed frame whose content is a single byte.
    let mut frame = vec![0x02, 0x01];
    let error = Packet::decode_single(&mut frame).unwrap_err();
    assert_eq!(error, DecodeError::BufferTooShort(1));
}

#[test]
fn encoded_size_matches_wire_length() {
    let payload = Payload::from_raw_bytes(&[0xEF, 0xCD, 0xAB, 0x00]).unwrap();
    let packet = TmPacket::new(DeviceId::System, Timestamp::new(10), payload);
    assert_eq!(packet.size(), 17);
    assert_eq!(packet.encoded_size(), 19);
    assert_eq!(packet.encode_buffer_size(), 36);
    let frame = encode_tm(&packet);
    assert_eq!(frame.len(), 19);
}

#[test]
fn streaming_boundary_returns_truncated_frame() {
    let p1 = TmPacket::new(
        DeviceId::System,
        Timestamp::new(1),
        Payload::from_raw_bytes(&[10, 0, 30]).unwrap(),
    );
    let p2 = TmPacket::new(
        DeviceId::Gps,
        Timestamp::new(2),
        Payload::from_raw_bytes(&[99]).unwrap(),
    );
    let p3 = TmPacket::new(
        DeviceId::HumiditySensor,
        Timestamp::new(3),
        Payload::from_raw_bytes(&[1, 2, 3, 4]).unwrap(),
    );
    let f1 = encode_tm(&p1);
    let f2 = encode_tm(&p2);
    let f3 = encode_tm(&p3);
    let truncated = &f3[..f3.len() - 1];

    let mut buf = Vec::new();
    buf.extend_from_slice(&f1);
    buf.extend_from_slice(&f2);
    buf.extend_from_slice(truncated);

    let (remaining, decoded) = Packet::decode_stateless(&buf, 2).unwrap();

    assert_eq!(decoded.len(), 2);
    let Packet::TmPacket(d1) = &decoded[0] else {
        panic!("Decoded packet is not TmPacket")
    };
    let Packet::TmPacket(d2) = &decoded[1] else {
        panic!("Decoded packet is not TmPacket")
    };
    assert_eq!(d1.device_id(), &DeviceId::System);
    assert_eq!(d1.timestamp().get(), 1);
    assert_eq!(d2.device_id(), &DeviceId::Gps);
    assert_eq!(d2.timestamp().get(), 2);
    assert_eq!(remaining.as_slice(), truncated);
}

#[test]
fn output_capacity_throttles_decoding() {
    let p1 = TmPacket::new(
        DeviceId::System,
        Timestamp::new(1),
        Payload::from_raw_bytes(&[10]).unwrap(),
    );
    let p2 = TmPacket::new(
        DeviceId::Gps,
        Timestamp::new(2),
        Payload::from_raw_bytes(&[20]).unwrap(),
    );
    let p3 = TmPacket::new(
        DeviceId::Unknown,
        Timestamp::new(3),
        Payload::from_raw_bytes(&[30]).unwrap(),
    );
    let f1 = encode_tm(&p1);
    let f2 = encode_tm(&p2);
    let f3 = encode_tm(&p3);

    let mut buf = Vec::new();
    buf.extend_from_slice(&f1);
    buf.extend_from_slice(&f2);
    buf.extend_from_slice(&f3);

    let (remaining, decoded) = Packet::decode_stateless(&buf, 1).unwrap();

    assert_eq!(decoded.len(), 1);
    let Packet::TmPacket(d1) = &decoded[0] else {
        panic!("Decoded packet is not TmPacket")
    };
    assert_eq!(d1.timestamp().get(), 1);
    // The second frame starts right where the remainder does, unconsumed
    // and unchanged.
    let mut rest = Vec::new();
    rest.extend_from_slice(&f2);
    rest.extend_from_slice(&f3);
    assert_eq!(remaining, rest);

    // With no room at all, nothing is consumed.
    let (remaining, decoded) = Packet::decode_stateless(&buf, 0).unwrap();
    assert_eq!(decoded.len(), 0);
    assert_eq!(remaining, buf);
}

#[test]
fn streaming_keeps_incomplete_input_untouched() {
    let buf = vec![5, 1, 4, 4, 10];
    let (remaining, decoded) = Packet::decode_stateless(&buf, 4).unwrap();
    assert_eq!(decoded.len(), 0);
    assert_eq!(remaining, buf);

    let empty: Vec<u8> = Vec::new();
    let (remaining, decoded) = Packet::decode_stateless(&empty, 1).unwrap();
    assert_eq!(decoded.len(), 0);
    assert_eq!(remaining.len(), 0);
}

#[test]
fn streaming_aborts_on_first_bad_frame() {
    let p1 = TmPacket::new(
        DeviceId::System,
        Timestamp::new(1),
        Payload::from_raw_bytes(&[10]).unwrap(),
    );
    let f1 = encode_tm(&p1);
    let mut buf = Vec::new();
    buf.extend_from_slice(&f1);
    // A malformed second frame: its code byte promises more than arrives.
    buf.extend_from_slice(&[0x05, 0x01, 0x00]);
    let error = Packet::decode_stateless(&buf, 4).unwrap_err();
    assert_eq!(error, DecodeError::Cobs);
}

#[test]
fn messages_render_in_decimal() {
    assert_eq!(DeviceId::Gps.message(), "GPS Device (ID 5)");
    assert_eq!(DeviceId::Unknown.message(), "Unknown Device (ID 31)");
    assert_eq!(Timestamp::new(0).message(), "0 ns");
    assert_eq!(Timestamp::new(1234).message(), "1234 ns");
    assert_eq!(
        Timestamp::new(u64::MAX).message(),
        "18446744073709551615 ns"
    );
    assert_eq!(
        PayloadError::PayloadTooLong(256).message(),
        "payload too long: 256 bytes"
    );
    let tm = TmPacket::new(DeviceId::System, Timestamp::new(1234), Payload::new());
    assert_eq!(
        tm.message(),
        "Telemetry packet from System Device (ID 1) with timestamp 1234 ns"
    );
    let tc = TcPacket::new(DeviceId::Accelerometer, Timestamp::new(7), Payload::new());
    assert_eq!(
        tc.message(),
        "Telecommand packet to Accelerometer Device (ID 6) with timestamp 7 ns"
    );
}

#[test]
fn device_id_codes_round_trip() {
    let devices = [
        DeviceId::System,
        DeviceId::PressureSensor,
        DeviceId::TemperatureSensor,
        DeviceId::HumiditySensor,
        DeviceId::Gps,
        DeviceId::Accelerometer,
        DeviceId::Unknown,
    ];
    for device in devices {
        assert_eq!(DeviceId::try_from(device.code()).unwrap(), device);
    }
    assert_eq!(
        DeviceId::try_from(0).unwrap_err(),
        DeviceIdError::InvalidId(0)
    );
    assert_eq!(
        DeviceId::try_from(7).unwrap_err(),
        DeviceIdError::InvalidId(7)
    );
    assert_eq!(
        DeviceId::try_from(30).unwrap_err(),
        DeviceIdError::InvalidId(30)
    );
}
