use orbipacket::encode::EncodeError;
use orbipacket::DeviceId;
use orbipacket::Packet;
use orbipacket::Payload;
use orbipacket::TcPacket;
use orbipacket::Timestamp;
use orbipacket::TmPacket;
use orbipacket::VERSION;

fn payload(data: u32) -> Payload {
    Payload::from_raw_bytes(data.to_le_bytes().as_slice()).unwrap()
}

#[test]
fn encode_error_display() {
    let error = EncodeError::BufferTooSmall {
        required: 27,
        available: 26,
    };

    assert_eq!(
        error.message(),
        "buffer too small: required 27 bytes, but only 26 available"
    );
}

#[test]
fn internal_packet_encode_tm_packet_works() {
    let packet = TmPacket::new(DeviceId::System, Timestamp::new(10), payload(0xABCDEFu32));

    let mut buffer = vec![0u8; TmPacket::MAX_ENCODE_BUFFER_SIZE];

    let (start, end) = packet.encode(&mut buffer).unwrap();

    assert_eq!(
        &buffer[start..end],
        &[5, VERSION, 4, 4, 10, 1, 1, 1, 1, 1, 1, 4, 0xEF, 0xCD, 0xAB, 3, 28, 228, 0][..]
    );
}

#[test]
fn internal_packet_encode_tc_packet_works() {
    let packet = TcPacket::new(DeviceId::System, Timestamp::new(10), payload(0xABCDEFu32));

    let mut buffer = vec![0u8; TcPacket::MAX_ENCODE_BUFFER_SIZE];

    let (start, end) = packet.encode(&mut buffer).unwrap();

    assert_eq!(
        &buffer[start..end],
        &[5, VERSION, 4, 132, 10, 1, 1, 1, 1, 1, 1, 4, 0xEF, 0xCD, 0xAB, 3, 12, 95, 0][..]
    );
}

#[test]
fn internal_packet_encode_buffer_too_small() {
    let packet = TmPacket::new(DeviceId::System, Timestamp::new(0), payload(0xABCDEFu32));

    let mut buffer = vec![0u8; 5];

    let result = packet.encode(&mut buffer);

    assert!(result.is_err());
    let error = result.unwrap_err();
    assert!(matches!(error, EncodeError::BufferTooSmall { .. }));
    let EncodeError::BufferTooSmall {
        required,
        available,
    } = error;
    assert_eq!(required, packet.encode_buffer_size());
    assert_eq!(available, buffer.len());
}

#[test]
fn tm_packet_encode_works() {
    let packet = TmPacket::new(DeviceId::System, Timestamp::new(10), payload(0xABCDEFu32));

    let mut buffer = vec![0u8; TmPacket::MAX_ENCODE_BUFFER_SIZE];

    let (start, end) = packet.encode(&mut buffer).unwrap();

    assert_eq!(
        &buffer[start..end],
        &[5, VERSION, 4, 4, 10, 1, 1, 1, 1, 1, 1, 4, 0xEF, 0xCD, 0xAB, 3, 28, 228, 0][..]
    );
}

#[test]
fn tc_packet_encode_works() {
    let packet = TcPacket::new(DeviceId::System, Timestamp::new(10), payload(0xABCDEFu32));

    let mut buffer = vec![0u8; TcPacket::MAX_ENCODE_BUFFER_SIZE];

    let (start, end) = packet.encode(&mut buffer).unwrap();

    assert_eq!(
        &buffer[start..end],
        &[5, VERSION, 4, 132, 10, 1, 1, 1, 1, 1, 1, 4, 0xEF, 0xCD, 0xAB, 3, 12, 95, 0][..]
    );
}

#[test]
fn packet_encode_tm_packet_works() {
    let packet = Packet::TmPacket(TmPacket::new(
        DeviceId::System,
        Timestamp::new(10),
        payload(0xABCDEFu32),
    ));

    let mut buffer = vec![0u8; Packet::MAX_ENCODE_BUFFER_SIZE];

    let (start, end) = packet.encode(&mut buffer).unwrap();

    assert_eq!(
        &buffer[start..end],
        &[5, VERSION, 4, 4, 10, 1, 1, 1, 1, 1, 1, 4, 0xEF, 0xCD, 0xAB, 3, 28, 228, 0][..]
    );
}

#[test]
fn packet_encode_tc_packet_works() {
    let packet = Packet::TcPacket(TcPacket::new(
        DeviceId::System,
        Timestamp::new(10),
        payload(0xABCDEFu32),
    ));

    let mut buffer = vec![0u8; Packet::MAX_ENCODE_BUFFER_SIZE];

    let (start, end) = packet.encode(&mut buffer).unwrap();

    assert_eq!(
        &buffer[start..end],
        &[5, VERSION, 4, 132, 10, 1, 1, 1, 1, 1, 1, 4, 0xEF, 0xCD, 0xAB, 3, 12, 95, 0][..]
    );
}
