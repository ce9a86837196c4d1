//! Tests of the minimal event-streaming codec.

use ccr::minimal::{
    build_connect_packet, build_pingreq_packet, build_publish_packet, build_subscribe_packet,
    is_connack_success, is_pingresp, is_suback, packet_type, parse_publish_packet, MqttConfig,
    MqttState,
};

#[test]
fn test_build_connect_packet() {
    let packet = build_connect_packet("test-client");
    assert_eq!(packet[0] >> 4, 1);
}

#[test]
fn test_build_publish_packet() {
    let packet = build_publish_packet("test/topic", b"hello", 1);
    assert_eq!(packet[0] >> 4, 3);
}

#[test]
fn test_parse_publish_packet() {
    let packet = build_publish_packet("test/topic", b"hello", 1);
    let (topic, payload) = parse_publish_packet(&packet).unwrap();
    assert_eq!(topic, "test/topic");
    assert_eq!(payload, b"hello");
}

#[test]
fn test_parse_publish_qos0() {
    // a QoS 0 publish carries no packet identifier before the payload
    let packet = ccr::packet::build_publish("t", b"xyz", ccr::packet::QoS::AtMostOnce);
    let (topic, payload) = parse_publish_packet(&packet).unwrap();
    assert_eq!(topic, "t");
    assert_eq!(payload, b"xyz");
}

#[test]
fn test_parse_publish_rejects_others() {
    assert!(parse_publish_packet(&[]).is_none());
    // a CONNACK is not a publish
    assert!(parse_publish_packet(&[0x20, 0x02, 0x00, 0x00]).is_none());
    // a truncated publish
    assert!(parse_publish_packet(&[0x30, 0x05, 0x00]).is_none());
}

#[test]
fn test_build_subscribe_packet_shape() {
    let packet = build_subscribe_packet(7, "ccr/events");
    assert_eq!(packet[0], 0x82);
    // packet identifier, big-endian
    assert_eq!(&packet[2..4], &[0x00, 0x07]);
    // one topic filter with its length prefix, then the requested QoS 0
    assert_eq!(&packet[4..6], &[0x00, 10]);
    assert_eq!(&packet[6..16], b"ccr/events");
    assert_eq!(packet[16], 0x00);
}

#[test]
fn test_packet_kind_checks() {
    assert_eq!(packet_type(0x32), 3);
    assert!(is_connack_success(&[0x20, 0x02, 0x00, 0x00]));
    assert!(!is_connack_success(&[0x20, 0x02, 0x00, 0x05]));
    assert!(!is_connack_success(&[0x20, 0x02]));
    assert!(is_suback(&[0x90, 0x03, 0x00, 0x01, 0x00]));
    assert!(!is_suback(&[0x90]));
    assert!(is_pingresp(&build_pingreq_packet_response()));
    assert!(!is_pingresp(&[0xC0, 0x00]));
}

fn build_pingreq_packet_response() -> Vec<u8> {
    vec![0xD0, 0x00]
}

#[test]
fn test_pingreq_packet_bytes() {
    assert_eq!(build_pingreq_packet(), vec![0xC0, 0x00]);
}

#[test]
fn test_minimal_config_defaults() {
    let config = MqttConfig::default();
    assert_eq!(config.broker_addr, "127.0.0.1:1883");
    assert_eq!(config.client_id, "ccr-precursor");
    assert_eq!(config.subscribe_topic, "ccr/events");
    assert_eq!(config.publish_topic, "ccr/responses");
    assert_eq!(MqttState::Disconnected, MqttState::Disconnected);
    assert!(MqttState::Connected != MqttState::Connecting);
}
