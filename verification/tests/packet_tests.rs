//! Tests of the full packet codec and the remaining-length encoding.

use ccr::packet::{
    build_connect, build_disconnect, build_pingreq, build_puback, build_pubcomp, build_publish,
    build_publish_with_id, build_pubrec, build_pubrel, build_subscribe, build_unsubscribe,
    parse_packet, ConnackCode, Packet, ParseError, QoS,
};
use ccr::remaining_length::{decode_remaining_length, encode_remaining_length};

#[test]
fn test_connect_packet() {
    let packet = build_connect("test-client");
    assert_eq!(packet[0] >> 4, 1);
}

#[test]
fn test_publish_roundtrip() {
    let original = build_publish("test/topic", b"hello world", QoS::AtMostOnce);
    let (parsed, len) = parse_packet(&original).unwrap();
    assert_eq!(len, original.len());

    if let Packet::Publish {
        topic,
        payload,
        qos,
        ..
    } = parsed
    {
        assert_eq!(topic, "test/topic");
        assert_eq!(payload, b"hello world");
        assert_eq!(qos, QoS::AtMostOnce);
    } else {
        panic!("Expected Publish packet");
    }
}

#[test]
fn test_subscribe_packet() {
    let packet = build_subscribe(1, "events/#", QoS::AtLeastOnce);
    assert_eq!(packet[0] >> 4, 8);
}

#[test]
fn test_pingreq() {
    let packet = build_pingreq();
    assert_eq!(packet, vec![0xC0, 0x00]);
}

#[test]
fn test_remaining_length_encoding() {
    let mut buf = Vec::new();
    encode_remaining_length(&mut buf, 127);
    assert_eq!(buf, vec![127]);

    buf.clear();
    encode_remaining_length(&mut buf, 128);
    assert_eq!(buf, vec![0x80, 0x01]);

    buf.clear();
    encode_remaining_length(&mut buf, 16383);
    assert_eq!(buf, vec![0xFF, 0x7F]);
}

#[test]
fn test_remaining_length_decoding() {
    assert_eq!(decode_remaining_length(&[127]), Some((127, 1)));
    assert_eq!(decode_remaining_length(&[0x80, 0x01]), Some((128, 2)));
    assert_eq!(decode_remaining_length(&[0xFF, 0x7F]), Some((16383, 2)));
    // the continuation bit never clears within four bytes
    assert_eq!(decode_remaining_length(&[0x80, 0x80, 0x80, 0x80]), None);
    // the buffer runs out first
    assert_eq!(decode_remaining_length(&[0x80]), None);
    assert_eq!(decode_remaining_length(&[]), None);
}

#[test]
fn test_qos1_publish_roundtrip() {
    let original = build_publish_with_id("a/b", b"payload", QoS::AtLeastOnce, Some(42), true);
    let (parsed, len) = parse_packet(&original).unwrap();
    assert_eq!(len, original.len());
    if let Packet::Publish {
        topic,
        payload,
        qos,
        packet_id,
        retain,
        dup,
    } = parsed
    {
        assert_eq!(topic, "a/b");
        assert_eq!(payload, b"payload");
        assert_eq!(qos, QoS::AtLeastOnce);
        assert_eq!(packet_id, Some(42));
        assert!(retain);
        assert!(!dup);
    } else {
        panic!("Expected Publish packet");
    }
}

#[test]
fn test_ack_roundtrips() {
    let (p, n) = parse_packet(&build_puback(7)).unwrap();
    assert_eq!(n, 4);
    assert!(matches!(p, Packet::Puback { packet_id: 7 }));

    let (p, n) = parse_packet(&build_pubrec(300)).unwrap();
    assert_eq!(n, 4);
    assert!(matches!(p, Packet::Pubrec { packet_id: 300 }));

    let (p, n) = parse_packet(&build_pubrel(65535)).unwrap();
    assert_eq!(n, 4);
    assert!(matches!(p, Packet::Pubrel { packet_id: 65535 }));

    let (p, n) = parse_packet(&build_pubcomp(1)).unwrap();
    assert_eq!(n, 4);
    assert!(matches!(p, Packet::Pubcomp { packet_id: 1 }));
}

#[test]
fn test_parse_connack() {
    let (p, n) = parse_packet(&[0x20, 0x02, 0x01, 0x00]).unwrap();
    assert_eq!(n, 4);
    assert!(matches!(
        p,
        Packet::Connack {
            session_present: true,
            code: ConnackCode::Accepted
        }
    ));

    let (p, _) = parse_packet(&[0x20, 0x02, 0x00, 0x05]).unwrap();
    assert!(matches!(
        p,
        Packet::Connack {
            session_present: false,
            code: ConnackCode::NotAuthorized
        }
    ));

    // a return code past the standard rejection reasons is malformed
    assert!(matches!(
        parse_packet(&[0x20, 0x02, 0x00, 0x06]),
        Err(ParseError::InvalidFormat)
    ));
}

#[test]
fn test_parse_suback() {
    let (p, n) = parse_packet(&[0x90, 0x03, 0x00, 0x09, 0x01]).unwrap();
    assert_eq!(n, 5);
    if let Packet::Suback {
        packet_id,
        return_codes,
    } = p
    {
        assert_eq!(packet_id, 9);
        assert_eq!(return_codes, vec![1]);
    } else {
        panic!("Expected Suback packet");
    }
}

#[test]
fn test_parse_errors() {
    // empty and short buffers only ask for more bytes
    assert!(matches!(parse_packet(&[]), Err(ParseError::Incomplete)));
    assert!(matches!(parse_packet(&[0x30]), Err(ParseError::Incomplete)));
    assert!(matches!(
        parse_packet(&[0x30, 0x05, 0x00]),
        Err(ParseError::Incomplete)
    ));
    // a type nibble of zero or fifteen names no packet
    assert!(matches!(
        parse_packet(&[0x00, 0x00]),
        Err(ParseError::UnknownType)
    ));
    assert!(matches!(
        parse_packet(&[0xF0, 0x00]),
        Err(ParseError::UnknownType)
    ));
    // outbound-only packet types are not parsed
    assert!(matches!(
        parse_packet(&[0xC0, 0x00]),
        Err(ParseError::UnknownType)
    ));
    // invalid UTF-8 in the topic
    assert!(matches!(
        parse_packet(&[0x30, 0x03, 0x00, 0x01, 0xFF]),
        Err(ParseError::InvalidUtf8)
    ));
}

#[test]
fn test_connect_with_options() {
    let packet = ccr::packet::build_connect_with_options(
        "client",
        Some("user"),
        Some(b"pass"),
        false,
        30,
    );
    assert_eq!(packet[0], 0x10);
    // protocol name "MQTT" and level 4
    assert_eq!(&packet[2..10], &[0x00, 0x04, b'M', b'Q', b'T', b'T', 0x04, 0xC0]);
    // keep-alive big-endian 30
    assert_eq!(&packet[10..12], &[0x00, 30]);
}

#[test]
fn test_unsubscribe_packet() {
    let packet = build_unsubscribe(3, "t");
    assert_eq!(packet, vec![0xA2, 0x05, 0x00, 0x03, 0x00, 0x01, b't']);
}

#[test]
fn test_disconnect_packet() {
    assert_eq!(build_disconnect(), vec![0xE0, 0x00]);
}
