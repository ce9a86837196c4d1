//! Minimal MQTT 3.1.1 client codec for event streaming: fixed-option
//! builders and shape checks for the handful of packets the
//! session-monitor loop exchanges, lighter than the full codec in
//! [`crate::packet`].

use vstd::prelude::*;

use crate::remaining_length::{
    decode_remaining_length, encode_remaining_length, spec_decode_remaining_length,
    REMAINING_LENGTH_MAX,
};
use crate::wire::{
    bytes_to_str, encode_str_field, push_u16_be, spec_str_field, spec_u16_be, spec_u16_from_be,
    FIELD_MAX,
};
use crate::packet::spec_framed;

verus! {

/// The CONNECT packet of this codec: protocol "MQTT" level 4, clean
/// session, a keep-alive of sixty seconds, and the client identifier.
pub open spec fn spec_connect_packet_bytes(client_id: Seq<char>) -> Seq<u8> {
    spec_framed(
        1,
        0,
        seq![0u8, 4u8, 77u8, 81u8, 84u8, 84u8, 4u8, 2u8, 0u8, 60u8] + spec_str_field(client_id),
    )
}

/// The SUBSCRIBE packet of this codec: one topic filter at QoS 0.
pub open spec fn spec_subscribe_packet_bytes(packet_id: u16, topic: Seq<char>) -> Seq<u8> {
    spec_framed(8, 2, spec_u16_be(packet_id) + spec_str_field(topic) + seq![0u8])
}

/// The PUBLISH packet of this codec: QoS 1, so topic, then packet
/// identifier, then the raw payload.
pub open spec fn spec_publish_packet_bytes(
    topic: Seq<char>,
    payload: Seq<u8>,
    packet_id: u16,
) -> Seq<u8> {
    spec_framed(3, 2, spec_str_field(topic) + spec_u16_be(packet_id) + payload)
}

/// Build the MQTT CONNECT packet of this codec.
pub fn build_connect_packet(client_id: &str) -> (r: Vec<u8>)
    requires
        vstd::utf8::encode_utf8(client_id@).len() <= FIELD_MAX,
    ensures
        r@ == spec_connect_packet_bytes(client_id@),
{
    let mut var_header: Vec<u8> = Vec::new();
    // Protocol name "MQTT", protocol level 4 (MQTT 3.1.1)
    var_header.push(0x00);
    var_header.push(0x04);
    var_header.push(77);
    var_header.push(81);
    var_header.push(84);
    var_header.push(84);
    var_header.push(0x04);
    // Connect flags (clean session)
    var_header.push(0x02);
    // Keep alive (60 seconds)
    var_header.push(0x00);
    var_header.push(0x3C);

    // Payload (client identifier)
    let mut payload: Vec<u8> = Vec::new();
    encode_str_field(&mut payload, client_id);

    let mut packet: Vec<u8> = Vec::new();
    packet.push(0x10);
    encode_remaining_length(&mut packet, var_header.len() + payload.len());
    let mut body = var_header;
    packet.append(&mut body);
    let mut tail = payload;
    packet.append(&mut tail);

    assert(packet@ =~= spec_connect_packet_bytes(client_id@));
    packet
}

/// Build the MQTT SUBSCRIBE packet of this codec (QoS 0).
pub fn build_subscribe_packet(packet_id: u16, topic: &str) -> (r: Vec<u8>)
    requires
        vstd::utf8::encode_utf8(topic@).len() <= FIELD_MAX,
    ensures
        r@ == spec_subscribe_packet_bytes(packet_id, topic@),
{
    let mut body: Vec<u8> = Vec::new();
    push_u16_be(&mut body, packet_id);
    encode_str_field(&mut body, topic);
    body.push(0x00);  // requested QoS 0

    let mut packet: Vec<u8> = Vec::new();
    packet.push(0x82);
    encode_remaining_length(&mut packet, body.len());
    let mut tail = body;
    packet.append(&mut tail);

    assert(packet@ =~= spec_subscribe_packet_bytes(packet_id, topic@));
    packet
}

/// Build the MQTT PUBLISH packet of this codec (QoS 1).
pub fn build_publish_packet(topic: &str, payload: &[u8], packet_id: u16) -> (r: Vec<u8>)
    requires
        vstd::utf8::encode_utf8(topic@).len() <= FIELD_MAX,
        vstd::utf8::encode_utf8(topic@).len() + payload@.len() + 4 <= REMAINING_LENGTH_MAX,
    ensures
        r@ == spec_publish_packet_bytes(topic@, payload@, packet_id),
{
    let mut body: Vec<u8> = Vec::new();
    encode_str_field(&mut body, topic);
    push_u16_be(&mut body, packet_id);
    body.extend_from_slice(payload);

    let mut packet: Vec<u8> = Vec::new();
    packet.push(0x32);  // PUBLISH with QoS 1
    encode_remaining_length(&mut packet, body.len());
    let mut tail = body;
    packet.append(&mut tail);

    assert(packet@ =~= spec_publish_packet_bytes(topic@, payload@, packet_id));
    packet
}

/// Build an MQTT PINGREQ packet.
pub fn build_pingreq_packet() -> (r: Vec<u8>)
    ensures
        r@ == seq![0xC0u8, 0u8],
{
    let r = vec![0xC0u8, 0x00u8];
    assert(r@ =~= seq![0xC0u8, 0u8]);
    r
}

/// The packet-type nibble of a packet's first byte.
pub fn packet_type(byte: u8) -> (r: u8)
    ensures
        r == byte / 16,
{
    byte / 16
}

/// What `parse_publish_packet` reads out of a buffer that starts with a
/// PUBLISH packet: the topic and the payload, which runs to the end of
/// the buffer.  A packet identifier sits between them exactly when the
/// flag bits carry a QoS above zero, and is skipped.
pub open spec fn spec_parse_publish_packet(data: Seq<u8>) -> Option<(Seq<char>, Seq<u8>)> {
    if data.len() == 0 || data[0] / 16 != 3 {
        None
    } else {
        let id_len: int = if (data[0] / 2) % 4 == 0 {
            0
        } else {
            2
        };
        match spec_decode_remaining_length(data.skip(1), 4) {
            None => None,
            Some((remaining_len, len_bytes)) => {
                let off = 1 + len_bytes as int;
                if data.len() < off + 2 {
                    None
                } else {
                    let topic_len = spec_u16_from_be(data[off], data[off + 1]) as int;
                    if data.len() < off + 2 + topic_len + id_len {
                        None
                    } else {
                        let tbytes = data.subrange(off + 2, off + 2 + topic_len);
                        if !vstd::utf8::valid_utf8(tbytes) {
                            None
                        } else {
                            Some(
                                (
                                    vstd::utf8::decode_utf8(tbytes),
                                    data.skip(off + 2 + topic_len + id_len),
                                ),
                            )
                        }
                    }
                }
            },
        }
    }
}

/// Parse an MQTT PUBLISH packet: the topic and the payload.
pub fn parse_publish_packet(packet: &[u8]) -> (r: Option<(String, Vec<u8>)>)
    ensures
        r matches Some((t, p)) ==> spec_parse_publish_packet(packet@) == Some((t@, p@)),
        r is None ==> spec_parse_publish_packet(packet@) is None,
{
    if packet.len() == 0 || packet_type(packet[0]) != 3 {
        return None;
    }

    // A packet identifier follows the topic when the QoS bits are set.
    let id_len: usize = if (packet[0] / 2) % 4 == 0 {
        0
    } else {
        2
    };

    let rest = &packet[1..packet.len()];
    assert(rest@ =~= packet@.skip(1));
    let (_remaining_len, len_bytes) = match decode_remaining_length(rest) {
        Some(pair) => pair,
        None => {
            return None;
        },
    };
    proof {
        crate::remaining_length::lemma_decode_bounds(packet@.skip(1), 4);
    }
    let off = 1 + len_bytes;

    if packet.len() < off + 2 {
        return None;
    }
    let topic_len = (packet[off] as usize) * 256 + (packet[off + 1] as usize);

    if packet.len() - off - 2 < topic_len + id_len {
        return None;
    }
    let tbytes = &packet[off + 2..off + 2 + topic_len];
    assert(tbytes@ =~= packet@.subrange(off + 2, off + 2 + topic_len as int));
    let topic = match bytes_to_str(tbytes) {
        Some(s) => s,
        None => {
            return None;
        },
    };

    let payload_slice = &packet[off + 2 + topic_len + id_len..packet.len()];
    assert(payload_slice@ =~= packet@.skip(off + 2 + topic_len as int + id_len as int));

    Some((topic.to_owned(), vstd::slice::slice_to_vec(payload_slice)))
}

/// Whether `packet` is a CONNACK whose return code accepts the connection.
pub fn is_connack_success(packet: &[u8]) -> (r: bool)
    ensures
        r == (packet@.len() >= 4 && packet@[0] / 16 == 2 && packet@[3] == 0),
{
    packet.len() >= 4 && packet_type(packet[0]) == 2 && packet[3] == 0x00
}

/// Whether `packet` is a SUBACK.
pub fn is_suback(packet: &[u8]) -> (r: bool)
    ensures
        r == (packet@.len() >= 2 && packet@[0] / 16 == 9),
{
    packet.len() >= 2 && packet_type(packet[0]) == 9
}

/// Whether `packet` is a PINGRESP.
pub fn is_pingresp(packet: &[u8]) -> (r: bool)
    ensures
        r == (packet@.len() >= 2 && packet@[0] / 16 == 13),
{
    packet.len() >= 2 && packet_type(packet[0]) == 13
}

/// Connection state of the event-streaming loop.
#[derive(Debug, Clone, Copy, PartialEq, Eq, Structural)]
pub enum MqttState {
    Disconnected,
    Connecting,
    Connected,
}

/// Configuration of the event-streaming loop.
pub struct MqttConfig {
    /// Broker address (host:port).
    pub broker_addr: String,
    /// Client identifier.
    pub client_id: String,
    /// Topic subscribed for inbound events.
    pub subscribe_topic: String,
    /// Topic published for outbound responses.
    pub publish_topic: String,
}

impl Default for MqttConfig {
    /// A local broker and the session-monitor topics.
    fn default() -> (r: Self)
        ensures
            r.broker_addr@ == "127.0.0.1:1883"@,
            r.client_id@ == "ccr-precursor"@,
            r.subscribe_topic@ == "ccr/events"@,
            r.publish_topic@ == "ccr/responses"@,
    {
        MqttConfig {
            broker_addr: "127.0.0.1:1883".to_owned(),
            client_id: "ccr-precursor".to_owned(),
            subscribe_topic: "ccr/events".to_owned(),
            publish_topic: "ccr/responses".to_owned(),
        }
    }
}

} // verus!
