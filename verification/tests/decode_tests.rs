use orbipacket::DeviceId;
use orbipacket::Packet;
use orbipacket::VERSION;

#[test]
fn tm_packet_decode_works() {
    let mut buf = vec![
        0x05, VERSION, 0x04, 0x04, 0x0a, 0x01, 0x01, 0x01, 0x01, 0x01, 0x01, 0x04, 0xEF, 0xCD,
        0xAB, 0x03, 28, 228, 0,
    ];

    let packet = Packet::decode_single(&mut buf).unwrap();

    let Packet::TmPacket(packet) = packet else {
        panic!("Decoded packet is not TmPacket")
    };
    assert_eq!(packet.version(), VERSION);
    assert_eq!(packet.device_id(), &DeviceId::System);
    assert_eq!(packet.timestamp().get(), 10);
    assert_eq!(*packet.payload().as_bytes(), [0xEF, 0xCD, 0xAB, 0]);
}

#[test]
fn tc_packet_decode_works() {
    let mut buf = vec![
        0x05, VERSION, 0x04, 0x84, 0x0a, 0x01, 0x01, 0x01, 0x01, 0x01, 0x01, 0x04, 0xEF, 0xCD,
        0xAB, 0x03, 12, 95, 0,
    ];

    let packet = Packet::decode_single(&mut buf).unwrap();

    let Packet::TcPacket(packet) = packet else {
        panic!("Decoded packet is not TmPacket")
    };
    assert_eq!(packet.version(), VERSION);
    assert_eq!(packet.device_id(), &DeviceId::System);
    assert_eq!(packet.timestamp().get(), 10);
    assert_eq!(*packet.payload().as_bytes(), [0xEF, 0xCD, 0xAB, 0]);
}
