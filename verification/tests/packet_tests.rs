use orbipacket::DeviceId;
use orbipacket::Packet;
use orbipacket::Payload;
use orbipacket::TcPacket;
use orbipacket::Timestamp;
use orbipacket::TmPacket;
use orbipacket::VERSION;

fn payload(byte: u8) -> Payload {
    Payload::from_raw_bytes(&[byte]).unwrap()
}

#[test]
fn timestamp_getters_return_values_from_constructor() {
    let timestamp = Timestamp::new(1234);
    assert_eq!(timestamp.get(), 1234);
}

#[test]
fn tm_packet_getters_return_values_from_constructor() {
    let tm_packet = TmPacket::new(DeviceId::System, Timestamp::new(0), payload(3u8));
    assert_eq!(tm_packet.version(), VERSION);
    assert_eq!(tm_packet.device_id(), &DeviceId::System);
    assert_eq!(tm_packet.timestamp().get(), 0);
    assert_eq!(*tm_packet.payload(), payload(3u8));
}

#[test]
fn tm_packet_overhead_returns_correct() {
    assert_eq!(TmPacket::OVERHEAD, 13);
}

#[test]
fn tm_packet_size_returns_size_of_packet() {
    assert_eq!(TmPacket::MAX_ENCODED_SIZE, 15 + 256);
}

#[test]
fn tc_packet_getters_return_values_from_constructor() {
    let tc_packet = TcPacket::new(DeviceId::System, Timestamp::new(0), payload(3u8));
    assert_eq!(tc_packet.version(), VERSION);
    assert_eq!(tc_packet.device_id(), &DeviceId::System);
    assert_eq!(tc_packet.timestamp().get(), 0);
    assert_eq!(*tc_packet.payload(), payload(3u8));
}

#[test]
fn tc_packet_overhead_returns_correct() {
    assert_eq!(TcPacket::OVERHEAD, 13);
}

#[test]
fn tc_packet_size_returns_size_of_packet() {
    assert_eq!(TcPacket::MAX_ENCODED_SIZE, 15 + 256);
}

#[test]
fn packet_is_tm_packet_returns_true_for_tm_packet() {
    let tm_packet = TmPacket::new(DeviceId::System, Timestamp::new(0), payload(3u8));
    let packet = Packet::TmPacket(tm_packet);
    assert!(packet.is_tm_packet());
}

#[test]
fn packet_is_tm_packet_returns_false_for_tc_packet() {
    let tc_packet = TcPacket::new(DeviceId::System, Timestamp::new(0), payload(3u8));
    let packet = Packet::TcPacket(tc_packet);
    assert!(!packet.is_tm_packet());
}

#[test]
fn packet_is_tc_packet_returns_true_for_tc_packet() {
    let tc_packet = TcPacket::new(DeviceId::System, Timestamp::new(0), payload(3u8));
    let packet = Packet::TcPacket(tc_packet);
    assert!(packet.is_tc_packet());
}

#[test]
fn packet_is_tc_packet_returns_false_for_tm_packet() {
    let tm_packet = TmPacket::new(DeviceId::System, Timestamp::new(0), payload(3u8));
    let packet = Packet::TmPacket(tm_packet);
    assert!(!packet.is_tc_packet());
}
