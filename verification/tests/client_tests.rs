//! Tests of the client protocol state machine and its receive path.

use ccr::client::{ConnectionState, MqttClient, MqttConfig, MqttError, MqttEvent};
use ccr::packet::{build_pubcomp, build_publish, build_pubrec, QoS};

/// A client brought to the `Connected` state by a CONNACK from the broker.
fn connected_client() -> MqttClient {
    let mut client = MqttClient::new(MqttConfig::default());
    client.connect().unwrap();
    assert_eq!(client.state(), ConnectionState::Connecting);
    client.process_data(&[0x20, 0x02, 0x00, 0x00]);
    assert_eq!(client.state(), ConnectionState::Connected);
    assert!(matches!(client.poll(), Some(MqttEvent::Connected)));
    assert!(client.poll().is_none());
    client.take_outbound();
    client
}

#[test]
fn test_connect_queues_connect_packet() {
    let mut client = MqttClient::new(MqttConfig::default());
    assert_eq!(client.state(), ConnectionState::Disconnected);
    assert!(!client.is_connected());

    client.connect().unwrap();
    assert_eq!(client.state(), ConnectionState::Connecting);
    let out = client.take_outbound();
    assert_eq!(out[0], 0x10);
    // protocol name "MQTT"
    assert_eq!(&out[4..8], b"MQTT");

    // connecting again is a no-op until the broker answers
    client.connect().unwrap();
    assert!(client.take_outbound().is_empty());
}

#[test]
fn test_connack_rejection() {
    let mut client = MqttClient::new(MqttConfig::default());
    client.connect().unwrap();
    client.take_outbound();
    // CONNACK with return code 5: not authorized
    client.process_data(&[0x20, 0x02, 0x00, 0x05]);
    assert_eq!(client.state(), ConnectionState::Disconnected);
    match client.poll() {
        Some(MqttEvent::Error(MqttError::ConnectionRefused(code))) => assert_eq!(code, 5),
        other => panic!("Expected ConnectionRefused, got {:?}", other),
    }
}

#[test]
fn test_operations_require_connection() {
    let mut client = MqttClient::new(MqttConfig::default());
    assert!(matches!(
        client.subscribe("t", QoS::AtMostOnce),
        Err(MqttError::NotConnected)
    ));
    assert!(matches!(
        client.unsubscribe("t"),
        Err(MqttError::NotConnected)
    ));
    assert!(matches!(
        client.publish("t", b"x", QoS::AtMostOnce),
        Err(MqttError::NotConnected)
    ));
    assert!(matches!(client.ping(), Err(MqttError::NotConnected)));
    // disconnect when not connected is a successful no-op
    assert!(client.disconnect().is_ok());
    assert!(client.poll().is_none());
}

#[test]
fn test_packet_id_allocation() {
    let mut client = connected_client();
    assert_eq!(client.subscribe("a", QoS::AtMostOnce).unwrap(), 1);
    assert_eq!(client.unsubscribe("a").unwrap(), 2);
    assert_eq!(client.publish("a", b"p", QoS::AtLeastOnce).unwrap(), Some(3));
    // QoS 0 publishes take no identifier
    assert_eq!(client.publish("a", b"p", QoS::AtMostOnce).unwrap(), None);
    assert_eq!(client.publish("a", b"p", QoS::ExactlyOnce).unwrap(), Some(4));
}

#[test]
fn test_incremental_framing() {
    // feeding a packet one byte at a time yields exactly one event, once
    let mut client = connected_client();
    let packet = build_publish("t", b"hello", QoS::AtMostOnce);
    for (i, b) in packet.iter().enumerate() {
        client.process_data(&[*b]);
        if i + 1 < packet.len() {
            assert!(client.poll().is_none(), "event before the final byte");
        }
    }
    match client.poll() {
        Some(MqttEvent::Message { topic, payload }) => {
            assert_eq!(topic, "t");
            assert_eq!(payload, b"hello");
        }
        other => panic!("Expected one Message, got {:?}", other),
    }
    assert!(client.poll().is_none(), "duplicate event");
}

#[test]
fn test_coalesced_packets() {
    // two packets in one read are both handled, in order
    let mut client = connected_client();
    let mut bytes = build_publish("a", b"1", QoS::AtMostOnce);
    bytes.extend_from_slice(&build_publish("b", b"2", QoS::AtMostOnce));
    client.process_data(&bytes);
    match client.poll() {
        Some(MqttEvent::Message { topic, .. }) => assert_eq!(topic, "a"),
        other => panic!("Expected Message, got {:?}", other),
    }
    match client.poll() {
        Some(MqttEvent::Message { topic, .. }) => assert_eq!(topic, "b"),
        other => panic!("Expected Message, got {:?}", other),
    }
    assert!(client.poll().is_none());
}

#[test]
fn test_qos1_receive_sends_puback() {
    let mut client = connected_client();
    let publish = ccr::packet::build_publish_with_id("t", b"x", QoS::AtLeastOnce, Some(9), false);
    client.process_data(&publish);
    assert!(matches!(client.poll(), Some(MqttEvent::Message { .. })));
    assert_eq!(client.take_outbound(), ccr::packet::build_puback(9));
}

#[test]
fn test_qos2_handshake_ordering() {
    // sender side: PUBREC then PUBCOMP; no public event until PUBCOMP
    let mut client = connected_client();
    let packet_id = client.publish("t", b"x", QoS::ExactlyOnce).unwrap().unwrap();
    client.take_outbound();

    client.process_data(&build_pubrec(packet_id));
    assert!(client.poll().is_none(), "no event before PUBCOMP");
    // the client answers with PUBREL for the same identifier
    assert_eq!(client.take_outbound(), ccr::packet::build_pubrel(packet_id));

    client.process_data(&build_pubcomp(packet_id));
    match client.poll() {
        Some(MqttEvent::PublishComplete { packet_id: done }) => assert_eq!(done, packet_id),
        other => panic!("Expected PublishComplete, got {:?}", other),
    }
    assert!(client.poll().is_none(), "exactly one completion event");
}

#[test]
fn test_qos1_send_acknowledged() {
    let mut client = connected_client();
    let packet_id = client.publish("t", b"x", QoS::AtLeastOnce).unwrap().unwrap();
    client.process_data(&ccr::packet::build_puback(packet_id));
    match client.poll() {
        Some(MqttEvent::PublishAcked { packet_id: acked }) => assert_eq!(acked, packet_id),
        other => panic!("Expected PublishAcked, got {:?}", other),
    }
}

#[test]
fn test_malformed_stream_resets() {
    let mut client = connected_client();
    // an unknown packet type abandons the whole accumulator
    client.process_data(&[0xF0, 0x00]);
    match client.poll() {
        Some(MqttEvent::Error(MqttError::ProtocolError(_))) => {}
        other => panic!("Expected ProtocolError, got {:?}", other),
    }
    // the stream is usable again afterwards
    client.process_data(&build_publish("t", b"y", QoS::AtMostOnce));
    assert!(matches!(client.poll(), Some(MqttEvent::Message { .. })));
}

#[test]
fn test_disconnect_and_transport_loss() {
    let mut client = connected_client();
    client.disconnect().unwrap();
    assert_eq!(client.state(), ConnectionState::Disconnected);
    assert_eq!(client.take_outbound(), vec![0xE0, 0x00]);
    assert!(matches!(client.poll(), Some(MqttEvent::Disconnected)));

    // with auto-reconnect on (the default), transport loss waits to retry
    let mut client2 = connected_client();
    client2.transport_lost();
    assert_eq!(client2.state(), ConnectionState::Reconnecting);
    assert!(matches!(client2.poll(), Some(MqttEvent::Disconnected)));
    // connect() starts the new attempt from Reconnecting
    client2.connect().unwrap();
    assert_eq!(client2.state(), ConnectionState::Connecting);
}

#[test]
fn test_ping_queues_pingreq() {
    let mut client = connected_client();
    client.ping().unwrap();
    assert_eq!(client.take_outbound(), vec![0xC0, 0x00]);
}
