use wsio::packet::{is_heartbeat_frame, WsIoPacket, WsIoPacketType};

#[test]
fn constructors_shape_their_packets() {
    let p = WsIoPacket::new(WsIoPacketType::Event, Some("k"), Some(vec![9]));
    assert_eq!(p.packet_type, WsIoPacketType::Event);
    assert_eq!(p.key.as_deref(), Some("k"));
    assert_eq!(p.data, Some(vec![9]));

    let d = WsIoPacket::new_disconnect();
    assert_eq!(d.packet_type, WsIoPacketType::Disconnect);
    assert!(d.key.is_none() && d.data.is_none());

    let e = WsIoPacket::new_event("hello", Some(vec![1]));
    assert_eq!(e.packet_type, WsIoPacketType::Event);
    assert_eq!(e.key.as_deref(), Some("hello"));

    let i = WsIoPacket::new_init(Some(vec![2]));
    assert_eq!(i.packet_type, WsIoPacketType::Init);
    assert!(i.key.is_none());
    assert_eq!(i.data, Some(vec![2]));

    let r = WsIoPacket::new_ready();
    assert_eq!(r.packet_type, WsIoPacketType::Ready);
    assert!(r.key.is_none() && r.data.is_none());
}

#[test]
fn packet_type_codes_are_stable() {
    assert_eq!(WsIoPacketType::Disconnect.code(), 0);
    assert_eq!(WsIoPacketType::Event.code(), 1);
    assert_eq!(WsIoPacketType::Init.code(), 2);
    assert_eq!(WsIoPacketType::Ready.code(), 3);

    assert_eq!(WsIoPacketType::from_code(0), Some(WsIoPacketType::Disconnect));
    assert_eq!(WsIoPacketType::from_code(1), Some(WsIoPacketType::Event));
    assert_eq!(WsIoPacketType::from_code(2), Some(WsIoPacketType::Init));
    assert_eq!(WsIoPacketType::from_code(3), Some(WsIoPacketType::Ready));
    assert_eq!(WsIoPacketType::from_code(4), None);
    assert_eq!(WsIoPacketType::from_code(255), None);
}

#[test]
fn heartbeat_is_exactly_a_one_byte_binary_frame() {
    assert!(is_heartbeat_frame(true, 1));
    assert!(!is_heartbeat_frame(true, 2));
    assert!(!is_heartbeat_frame(true, 0));
    assert!(!is_heartbeat_frame(false, 1));
}
