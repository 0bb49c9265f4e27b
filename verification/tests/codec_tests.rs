use wsio::codec::WsIoPacketCodec;
use wsio::error::WsIoError;
use wsio::packet::{WsIoPacket, WsIoPacketType};

fn all_codecs() -> Vec<WsIoPacketCodec> {
    vec![
        WsIoPacketCodec::Bincode,
        WsIoPacketCodec::Cbor,
        WsIoPacketCodec::Msgpack,
        WsIoPacketCodec::Postcard,
        WsIoPacketCodec::SerdeJson,
    ]
}

fn assert_round_trip(codec: WsIoPacketCodec, packet: &WsIoPacket) {
    let bytes = codec.encode(packet).expect("encode should succeed");
    let decoded = codec.decode(bytes.as_slice()).expect("decode should succeed");
    assert_eq!(decoded.packet_type, packet.packet_type);
    assert_eq!(decoded.key, packet.key);
    assert_eq!(decoded.data, packet.data);
}

#[test]
fn every_codec_round_trips_every_packet_kind() {
    for codec in all_codecs() {
        assert_round_trip(codec, &WsIoPacket::new_disconnect());
        assert_round_trip(codec, &WsIoPacket::new_ready());
        assert_round_trip(codec, &WsIoPacket::new_init(None));
        assert_round_trip(codec, &WsIoPacket::new_init(Some(vec![0, 1, 2, 255])));
        assert_round_trip(codec, &WsIoPacket::new_event("hello", None));
        assert_round_trip(codec, &WsIoPacket::new_event("hello", Some(vec![1, 2, 3])));
        assert_round_trip(codec, &WsIoPacket::new_event("", Some(vec![])));
    }
}

#[test]
fn json_codec_produces_the_positional_triple() {
    let packet = WsIoPacket::new_event("hello", Some(vec![1, 2]));
    let bytes = WsIoPacketCodec::SerdeJson.encode(&packet).unwrap();
    assert_eq!(bytes, b"[1,\"hello\",[1,2]]".to_vec());

    let ready = WsIoPacket::new_ready();
    let bytes = WsIoPacketCodec::SerdeJson.encode(&ready).unwrap();
    assert_eq!(bytes, b"[3,null,null]".to_vec());
}

#[test]
fn json_codec_decodes_the_positional_triple() {
    let decoded = WsIoPacketCodec::SerdeJson
        .decode(b"[2,null,[7]]")
        .expect("a well-formed triple should decode");
    assert_eq!(decoded.packet_type, WsIoPacketType::Init);
    assert_eq!(decoded.key, None);
    assert_eq!(decoded.data, Some(vec![7]));
}

#[test]
fn malformed_input_is_a_codec_error() {
    for codec in all_codecs() {
        let r = codec.decode(b"");
        assert_eq!(r.unwrap_err(), WsIoError::Codec);
    }
    assert_eq!(
        WsIoPacketCodec::SerdeJson.decode(b"{\"no\":\"triple\"}").unwrap_err(),
        WsIoError::Codec
    );
    // A type code outside 0..=3 is rejected even when the triple parses.
    assert_eq!(
        WsIoPacketCodec::SerdeJson.decode(b"[9,null,null]").unwrap_err(),
        WsIoError::Codec
    );
}

#[test]
fn only_the_json_codec_is_text() {
    assert!(WsIoPacketCodec::SerdeJson.is_text());
    assert!(!WsIoPacketCodec::Bincode.is_text());
    assert!(!WsIoPacketCodec::Cbor.is_text());
    assert!(!WsIoPacketCodec::Msgpack.is_text());
    assert!(!WsIoPacketCodec::Postcard.is_text());
}

#[test]
fn codecs_differ_on_the_wire() {
    let packet = WsIoPacket::new_event("hello", Some(vec![1, 2]));
    let json = WsIoPacketCodec::SerdeJson.encode(&packet).unwrap();
    let cbor = WsIoPacketCodec::Cbor.encode(&packet).unwrap();
    let msgpack = WsIoPacketCodec::Msgpack.encode(&packet).unwrap();
    let postcard = WsIoPacketCodec::Postcard.encode(&packet).unwrap();
    assert_ne!(json, cbor);
    assert_ne!(json, msgpack);
    assert_ne!(json, postcard);
    // A frame of one codec does not decode as a packet of another.
    assert!(WsIoPacketCodec::SerdeJson.decode(cbor.as_slice()).is_err());
}
