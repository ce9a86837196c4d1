//! MQTT 3.1.1 packet codec: builders for the outbound control packets and
//! a parser for the inbound ones, verified against a byte-exact model of
//! the wire format.

use vstd::prelude::*;

use crate::remaining_length::{
    decode_remaining_length, encode_remaining_length, spec_decode_remaining_length,
    spec_remaining_length_bytes, REMAINING_LENGTH_MAX,
};
use crate::wire::{
    bytes_to_str, encode_bytes_field, encode_str_field, push_u16_be, spec_bytes_field,
    spec_str_field, spec_u16_be, spec_u16_from_be, FIELD_MAX,
};

verus! {

/// MQTT packet types, named after their wire-level type nibble.
#[derive(Debug, Clone, Copy, PartialEq, Eq, Structural)]
pub enum PacketType {
    Connect,
    Connack,
    Publish,
    Puback,
    Pubrec,
    Pubrel,
    Pubcomp,
    Subscribe,
    Suback,
    Unsubscribe,
    Unsuback,
    Pingreq,
    Pingresp,
    Disconnect,
}

/// The type nibble of each packet type.
pub open spec fn spec_type_nibble(t: PacketType) -> u8 {
    match t {
        PacketType::Connect => 1,
        PacketType::Connack => 2,
        PacketType::Publish => 3,
        PacketType::Puback => 4,
        PacketType::Pubrec => 5,
        PacketType::Pubrel => 6,
        PacketType::Pubcomp => 7,
        PacketType::Subscribe => 8,
        PacketType::Suback => 9,
        PacketType::Unsubscribe => 10,
        PacketType::Unsuback => 11,
        PacketType::Pingreq => 12,
        PacketType::Pingresp => 13,
        PacketType::Disconnect => 14,
    }
}

/// The packet type named by the high nibble of a packet's first byte.
pub open spec fn spec_packet_type(byte: u8) -> Option<PacketType> {
    match byte / 16 {
        1 => Some(PacketType::Connect),
        2 => Some(PacketType::Connack),
        3 => Some(PacketType::Publish),
        4 => Some(PacketType::Puback),
        5 => Some(PacketType::Pubrec),
        6 => Some(PacketType::Pubrel),
        7 => Some(PacketType::Pubcomp),
        8 => Some(PacketType::Subscribe),
        9 => Some(PacketType::Suback),
        10 => Some(PacketType::Unsubscribe),
        11 => Some(PacketType::Unsuback),
        12 => Some(PacketType::Pingreq),
        13 => Some(PacketType::Pingresp),
        14 => Some(PacketType::Disconnect),
        _ => None,
    }
}

impl PacketType {
    /// The packet type named by the high nibble of a packet's first byte.
    pub fn from_byte(byte: u8) -> (r: Option<Self>)
        ensures
            r == spec_packet_type(byte),
    {
        match byte / 16 {
            1 => Some(Self::Connect),
            2 => Some(Self::Connack),
            3 => Some(Self::Publish),
            4 => Some(Self::Puback),
            5 => Some(Self::Pubrec),
            6 => Some(Self::Pubrel),
            7 => Some(Self::Pubcomp),
            8 => Some(Self::Subscribe),
            9 => Some(Self::Suback),
            10 => Some(Self::Unsubscribe),
            11 => Some(Self::Unsuback),
            12 => Some(Self::Pingreq),
            13 => Some(Self::Pingresp),
            14 => Some(Self::Disconnect),
            _ => None,
        }
    }
}

/// Quality of service levels.
#[derive(Debug, Clone, Copy, PartialEq, Eq, Structural)]
pub enum QoS {
    /// At most once (fire and forget).
    AtMostOnce,
    /// At least once (acknowledged delivery).
    AtLeastOnce,
    /// Exactly once (assured delivery).
    ExactlyOnce,
}

impl Default for QoS {
    fn default() -> (r: Self)
        ensures
            r == QoS::AtMostOnce,
    {
        QoS::AtMostOnce
    }
}

/// The wire-level bit pattern of a QoS level.
pub open spec fn spec_qos_bits(q: QoS) -> u8 {
    match q {
        QoS::AtMostOnce => 0,
        QoS::AtLeastOnce => 1,
        QoS::ExactlyOnce => 2,
    }
}

/// The QoS level named by the two low bits of a byte.
pub open spec fn spec_qos(byte: u8) -> Option<QoS> {
    match byte % 4 {
        0 => Some(QoS::AtMostOnce),
        1 => Some(QoS::AtLeastOnce),
        2 => Some(QoS::ExactlyOnce),
        _ => None,
    }
}

impl QoS {
    /// The QoS level named by the two low bits of a byte.
    pub fn from_byte(byte: u8) -> (r: Option<Self>)
        ensures
            r == spec_qos(byte),
    {
        match byte % 4 {
            0 => Some(Self::AtMostOnce),
            1 => Some(Self::AtLeastOnce),
            2 => Some(Self::ExactlyOnce),
            _ => None,
        }
    }

    /// The wire-level bit pattern of this level.
    pub fn bits(self) -> (r: u8)
        ensures
            r == spec_qos_bits(self),
    {
        match self {
            QoS::AtMostOnce => 0,
            QoS::AtLeastOnce => 1,
            QoS::ExactlyOnce => 2,
        }
    }
}

/// CONNACK return codes.
#[derive(Debug, Clone, Copy, PartialEq, Eq, Structural)]
pub enum ConnackCode {
    Accepted,
    UnacceptableProtocol,
    IdentifierRejected,
    ServerUnavailable,
    BadCredentials,
    NotAuthorized,
}

/// The CONNACK return code named by a byte.
pub open spec fn spec_connack_code(byte: u8) -> Option<ConnackCode> {
    match byte {
        0 => Some(ConnackCode::Accepted),
        1 => Some(ConnackCode::UnacceptableProtocol),
        2 => Some(ConnackCode::IdentifierRejected),
        3 => Some(ConnackCode::ServerUnavailable),
        4 => Some(ConnackCode::BadCredentials),
        5 => Some(ConnackCode::NotAuthorized),
        _ => None,
    }
}

/// The byte of a CONNACK return code.
pub open spec fn spec_connack_byte(c: ConnackCode) -> u8 {
    match c {
        ConnackCode::Accepted => 0,
        ConnackCode::UnacceptableProtocol => 1,
        ConnackCode::IdentifierRejected => 2,
        ConnackCode::ServerUnavailable => 3,
        ConnackCode::BadCredentials => 4,
        ConnackCode::NotAuthorized => 5,
    }
}

impl ConnackCode {
    /// The CONNACK return code named by a byte.
    pub fn from_byte(byte: u8) -> (r: Option<Self>)
        ensures
            r == spec_connack_code(byte),
    {
        match byte {
            0 => Some(Self::Accepted),
            1 => Some(Self::UnacceptableProtocol),
            2 => Some(Self::IdentifierRejected),
            3 => Some(Self::ServerUnavailable),
            4 => Some(Self::BadCredentials),
            5 => Some(Self::NotAuthorized),
            _ => None,
        }
    }

    /// The byte this code stands for on the wire.
    pub fn byte(self) -> (r: u8)
        ensures
            r == spec_connack_byte(self),
    {
        match self {
            ConnackCode::Accepted => 0,
            ConnackCode::UnacceptableProtocol => 1,
            ConnackCode::IdentifierRejected => 2,
            ConnackCode::ServerUnavailable => 3,
            ConnackCode::BadCredentials => 4,
            ConnackCode::NotAuthorized => 5,
        }
    }
}

// ===========================================================================
// Byte models of the outbound packets
// ===========================================================================

/// A packet with a fixed header whose low nibble is `low_nibble`, followed
/// by the minimal remaining-length encoding of `body.len()` and the body.
pub open spec fn spec_framed(type_nibble: u8, low_nibble: u8, body: Seq<u8>) -> Seq<u8> {
    seq![(type_nibble * 16 + low_nibble) as u8] + spec_remaining_length_bytes(body.len()) + body
}

/// The CONNECT variable header: protocol name "MQTT", level 4, the flags
/// byte, and the keep-alive in seconds.
pub open spec fn spec_connect_var_header(
    has_username: bool,
    has_password: bool,
    clean_session: bool,
    keep_alive_secs: u16,
) -> Seq<u8> {
    seq![
        0u8,
        4u8,
        77u8,
        81u8,
        84u8,
        84u8,
        4u8,
        spec_connect_flags(has_username, has_password, clean_session),
    ] + spec_u16_be(keep_alive_secs)
}

/// The CONNECT flags byte: username bit 7, password bit 6, clean-session
/// bit 1.
pub open spec fn spec_connect_flags(
    has_username: bool,
    has_password: bool,
    clean_session: bool,
) -> u8 {
    ((if has_username {
        128u8
    } else {
        0u8
    }) + (if has_password {
        64u8
    } else {
        0u8
    }) + (if clean_session {
        2u8
    } else {
        0u8
    })) as u8
}

/// The whole CONNECT packet.
pub open spec fn spec_connect_bytes(
    client_id: Seq<char>,
    username: Option<Seq<char>>,
    password: Option<Seq<u8>>,
    clean_session: bool,
    keep_alive_secs: u16,
) -> Seq<u8> {
    let payload = spec_str_field(client_id) + (match username {
        Some(u) => spec_str_field(u),
        None => Seq::<u8>::empty(),
    }) + (match password {
        Some(p) => spec_bytes_field(p),
        None => Seq::<u8>::empty(),
    });
    spec_framed(
        1,
        0,
        spec_connect_var_header(username is Some, password is Some, clean_session, keep_alive_secs)
            + payload,
    )
}

/// The whole SUBSCRIBE packet: packet identifier, one topic filter, and
/// the requested QoS; reserved low nibble `0010`.
pub open spec fn spec_subscribe_bytes(packet_id: u16, topic: Seq<char>, qos: QoS) -> Seq<u8> {
    spec_framed(8, 2, spec_u16_be(packet_id) + spec_str_field(topic) + seq![spec_qos_bits(qos)])
}

/// The whole UNSUBSCRIBE packet: packet identifier and one topic filter;
/// reserved low nibble `0010`.
pub open spec fn spec_unsubscribe_bytes(packet_id: u16, topic: Seq<char>) -> Seq<u8> {
    spec_framed(10, 2, spec_u16_be(packet_id) + spec_str_field(topic))
}

/// The whole PUBLISH packet: QoS and retain packed into the low nibble,
/// the topic, the packet identifier where one is given, then the raw
/// payload with no length prefix of its own.
pub open spec fn spec_publish_bytes(
    topic: Seq<char>,
    payload: Seq<u8>,
    qos: QoS,
    packet_id: Option<u16>,
    retain: bool,
) -> Seq<u8> {
    let low = (spec_qos_bits(qos) * 2 + (if retain {
        1u8
    } else {
        0u8
    })) as u8;
    let id_bytes = match packet_id {
        Some(id) => spec_u16_be(id),
        None => Seq::<u8>::empty(),
    };
    spec_framed(3, low, spec_str_field(topic) + id_bytes + payload)
}

/// A two-byte-body acknowledgement packet holding only a packet identifier.
pub open spec fn spec_ack_bytes(type_nibble: u8, low_nibble: u8, packet_id: u16) -> Seq<u8> {
    seq![(type_nibble * 16 + low_nibble) as u8, 2u8] + spec_u16_be(packet_id)
}

// ===========================================================================
// Packet builders
// ===========================================================================

/// Build an MQTT CONNECT packet with a clean session and a keep-alive of
/// sixty seconds.
pub fn build_connect(client_id: &str) -> (r: Vec<u8>)
    requires
        vstd::utf8::encode_utf8(client_id@).len() <= FIELD_MAX,
    ensures
        r@ == spec_connect_bytes(client_id@, None, None, true, 60),
{
    build_connect_with_options(client_id, None, None, true, 60)
}

/// Build an MQTT CONNECT packet with full options.
pub fn build_connect_with_options(
    client_id: &str,
    username: Option<&str>,
    password: Option<&[u8]>,
    clean_session: bool,
    keep_alive_secs: u16,
) -> (r: Vec<u8>)
    requires
        vstd::utf8::encode_utf8(client_id@).len() <= FIELD_MAX,
        username matches Some(u) ==> vstd::utf8::encode_utf8(u@).len() <= FIELD_MAX,
        password matches Some(p) ==> p@.len() <= FIELD_MAX,
    ensures
        r@ == spec_connect_bytes(
            client_id@,
            match username {
                Some(u) => Some(u@),
                None => None,
            },
            match password {
                Some(p) => Some(p@),
                None => None,
            },
            clean_session,
            keep_alive_secs,
        ),
{
    let ghost username_view: Option<Seq<char>> = match username {
        Some(u) => Some(u@),
        None => None,
    };
    let ghost password_view: Option<Seq<u8>> = match password {
        Some(p) => Some(p@),
        None => None,
    };

    let mut var_header: Vec<u8> = Vec::new();

    // Protocol name "MQTT" and protocol level 4 (MQTT 3.1.1)
    var_header.push(0x00);
    var_header.push(0x04);
    var_header.push(77);
    var_header.push(81);
    var_header.push(84);
    var_header.push(84);
    var_header.push(0x04);

    // Connect flags
    let mut flags: u8 = 0;
    if clean_session {
        flags = flags + 0x02;
    }
    if username.is_some() {
        flags = flags + 0x80;
    }
    if password.is_some() {
        flags = flags + 0x40;
    }
    var_header.push(flags);

    // Keep alive
    push_u16_be(&mut var_header, keep_alive_secs);

    assert(var_header@ =~= spec_connect_var_header(
        username is Some,
        password is Some,
        clean_session,
        keep_alive_secs,
    ));

    // Payload: client identifier, then the optional credentials
    let mut payload: Vec<u8> = Vec::new();
    encode_str_field(&mut payload, client_id);

    if let Some(user) = username {
        encode_str_field(&mut payload, user);
    }
    if let Some(pass) = password {
        encode_bytes_field(&mut payload, pass);
    }

    assert(payload@ =~= spec_str_field(client_id@) + (match username_view {
        Some(u) => spec_str_field(u),
        None => Seq::<u8>::empty(),
    }) + (match password_view {
        Some(p) => spec_bytes_field(p),
        None => Seq::<u8>::empty(),
    }));

    let mut packet: Vec<u8> = Vec::new();
    packet.push(0x10);
    encode_remaining_length(&mut packet, var_header.len() + payload.len());
    let mut body = var_header;
    packet.append(&mut body);
    let mut tail = payload;
    packet.append(&mut tail);

    assert(packet@ =~= spec_connect_bytes(
        client_id@,
        username_view,
        password_view,
        clean_session,
        keep_alive_secs,
    ));
    packet
}

/// Build an MQTT SUBSCRIBE packet for one topic filter.
pub fn build_subscribe(packet_id: u16, topic: &str, qos: QoS) -> (r: Vec<u8>)
    requires
        vstd::utf8::encode_utf8(topic@).len() <= FIELD_MAX,
    ensures
        r@ == spec_subscribe_bytes(packet_id, topic@, qos),
{
    let mut body: Vec<u8> = Vec::new();
    push_u16_be(&mut body, packet_id);
    encode_str_field(&mut body, topic);
    body.push(qos.bits());

    let mut packet: Vec<u8> = Vec::new();
    packet.push(0x82);
    encode_remaining_length(&mut packet, body.len());
    let mut tail = body;
    packet.append(&mut tail);

    assert(packet@ =~= spec_subscribe_bytes(packet_id, topic@, qos));
    packet
}

/// Build an MQTT UNSUBSCRIBE packet for one topic filter.
pub fn build_unsubscribe(packet_id: u16, topic: &str) -> (r: Vec<u8>)
    requires
        vstd::utf8::encode_utf8(topic@).len() <= FIELD_MAX,
    ensures
        r@ == spec_unsubscribe_bytes(packet_id, topic@),
{
    let mut body: Vec<u8> = Vec::new();
    push_u16_be(&mut body, packet_id);
    encode_str_field(&mut body, topic);

    let mut packet: Vec<u8> = Vec::new();
    packet.push(0xA2);
    encode_remaining_length(&mut packet, body.len());
    let mut tail = body;
    packet.append(&mut tail);

    assert(packet@ =~= spec_unsubscribe_bytes(packet_id, topic@));
    packet
}

/// Build an MQTT PUBLISH packet without a packet identifier (QoS 0 use).
pub fn build_publish(topic: &str, payload: &[u8], qos: QoS) -> (r: Vec<u8>)
    requires
        vstd::utf8::encode_utf8(topic@).len() <= FIELD_MAX,
        vstd::utf8::encode_utf8(topic@).len() + payload@.len() + 4 <= REMAINING_LENGTH_MAX,
    ensures
        r@ == spec_publish_bytes(topic@, payload@, qos, None, false),
{
    build_publish_with_id(topic, payload, qos, None, false)
}

/// Build an MQTT PUBLISH packet, with a packet identifier for QoS 1 or 2.
pub fn build_publish_with_id(
    topic: &str,
    payload: &[u8],
    qos: QoS,
    packet_id: Option<u16>,
    retain: bool,
) -> (r: Vec<u8>)
    requires
        vstd::utf8::encode_utf8(topic@).len() <= FIELD_MAX,
        vstd::utf8::encode_utf8(topic@).len() + payload@.len() + 4 <= REMAINING_LENGTH_MAX,
    ensures
        r@ == spec_publish_bytes(topic@, payload@, qos, packet_id, retain),
{
    let mut body: Vec<u8> = Vec::new();
    encode_str_field(&mut body, topic);
    if let Some(id) = packet_id {
        push_u16_be(&mut body, id);
    }
    body.extend_from_slice(payload);

    let mut first: u8 = 0x30;
    first = first + qos.bits() * 2;
    if retain {
        first = first + 1;
    }

    let mut packet: Vec<u8> = Vec::new();
    packet.push(first);
    encode_remaining_length(&mut packet, body.len());
    let mut tail = body;
    packet.append(&mut tail);

    assert(packet@ =~= spec_publish_bytes(topic@, payload@, qos, packet_id, retain));
    packet
}

/// Build an MQTT PUBACK packet (QoS 1 acknowledgement).
pub fn build_puback(packet_id: u16) -> (r: Vec<u8>)
    ensures
        r@ == spec_ack_bytes(4, 0, packet_id),
{
    let r = vec![0x40u8, 0x02u8, (packet_id / 256) as u8, (packet_id % 256) as u8];
    assert(r@ =~= spec_ack_bytes(4, 0, packet_id));
    r
}

/// Build an MQTT PUBREC packet (QoS 2, first step).
pub fn build_pubrec(packet_id: u16) -> (r: Vec<u8>)
    ensures
        r@ == spec_ack_bytes(5, 0, packet_id),
{
    let r = vec![0x50u8, 0x02u8, (packet_id / 256) as u8, (packet_id % 256) as u8];
    assert(r@ =~= spec_ack_bytes(5, 0, packet_id));
    r
}

/// Build an MQTT PUBREL packet (QoS 2, second step); its low nibble is the
/// reserved pattern `0010`.
pub fn build_pubrel(packet_id: u16) -> (r: Vec<u8>)
    ensures
        r@ == spec_ack_bytes(6, 2, packet_id),
{
    let r = vec![0x62u8, 0x02u8, (packet_id / 256) as u8, (packet_id % 256) as u8];
    assert(r@ =~= spec_ack_bytes(6, 2, packet_id));
    r
}

/// Build an MQTT PUBCOMP packet (QoS 2, third step).
pub fn build_pubcomp(packet_id: u16) -> (r: Vec<u8>)
    ensures
        r@ == spec_ack_bytes(7, 0, packet_id),
{
    let r = vec![0x70u8, 0x02u8, (packet_id / 256) as u8, (packet_id % 256) as u8];
    assert(r@ =~= spec_ack_bytes(7, 0, packet_id));
    r
}

/// Build an MQTT PINGREQ packet.
pub fn build_pingreq() -> (r: Vec<u8>)
    ensures
        r@ == seq![0xC0u8, 0u8],
{
    let r = vec![0xC0u8, 0x00u8];
    assert(r@ =~= seq![0xC0u8, 0u8]);
    r
}

/// Build an MQTT DISCONNECT packet.
pub fn build_disconnect() -> (r: Vec<u8>)
    ensures
        r@ == seq![0xE0u8, 0u8],
{
    let r = vec![0xE0u8, 0x00u8];
    assert(r@ =~= seq![0xE0u8, 0u8]);
    r
}

// ===========================================================================
// Parsed packets and the parse model
// ===========================================================================

/// A parsed inbound MQTT packet.
#[derive(Debug, Clone)]
pub enum Packet {
    Connack { session_present: bool, code: ConnackCode },
    Publish {
        topic: String,
        payload: Vec<u8>,
        qos: QoS,
        packet_id: Option<u16>,
        retain: bool,
        dup: bool,
    },
    Puback { packet_id: u16 },
    Pubrec { packet_id: u16 },
    Pubrel { packet_id: u16 },
    Pubcomp { packet_id: u16 },
    Suback { packet_id: u16, return_codes: Vec<u8> },
    Unsuback { packet_id: u16 },
    Pingresp,
}

/// The mathematical shape of a parsed packet: `Packet` with its owned
/// buffers read as sequences.
pub enum PacketModel {
    Connack { session_present: bool, code: ConnackCode },
    Publish {
        topic: Seq<char>,
        payload: Seq<u8>,
        qos: QoS,
        packet_id: Option<u16>,
        retain: bool,
        dup: bool,
    },
    Puback { packet_id: u16 },
    Pubrec { packet_id: u16 },
    Pubrel { packet_id: u16 },
    Pubcomp { packet_id: u16 },
    Suback { packet_id: u16, return_codes: Seq<u8> },
    Unsuback { packet_id: u16 },
    Pingresp,
}

impl View for Packet {
    type V = PacketModel;

    open spec fn view(&self) -> PacketModel {
        match self {
            Packet::Connack { session_present, code } => PacketModel::Connack {
                session_present: *session_present,
                code: *code,
            },
            Packet::Publish { topic, payload, qos, packet_id, retain, dup } => {
                PacketModel::Publish {
                    topic: topic@,
                    payload: payload@,
                    qos: *qos,
                    packet_id: *packet_id,
                    retain: *retain,
                    dup: *dup,
                }
            },
            Packet::Puback { packet_id } => PacketModel::Puback { packet_id: *packet_id },
            Packet::Pubrec { packet_id } => PacketModel::Pubrec { packet_id: *packet_id },
            Packet::Pubrel { packet_id } => PacketModel::Pubrel { packet_id: *packet_id },
            Packet::Pubcomp { packet_id } => PacketModel::Pubcomp { packet_id: *packet_id },
            Packet::Suback { packet_id, return_codes } => PacketModel::Suback {
                packet_id: *packet_id,
                return_codes: return_codes@,
            },
            Packet::Unsuback { packet_id } => PacketModel::Unsuback { packet_id: *packet_id },
            Packet::Pingresp => PacketModel::Pingresp,
        }
    }
}

/// Parse failures.  `Incomplete` only asks for more bytes; the others
/// mean the stream can no longer be trusted.
#[derive(Debug, Clone, Copy, PartialEq, Eq, Structural)]
pub enum ParseError {
    /// Not enough data yet.
    Incomplete,
    /// Invalid packet format.
    InvalidFormat,
    /// Unknown packet type.
    UnknownType,
    /// Invalid UTF-8 in a string field.
    InvalidUtf8,
}

/// Decode of a length-prefixed UTF-8 string at the front of `data`: the
/// characters and the bytes consumed.
pub open spec fn spec_decode_string(data: Seq<u8>) -> Result<(Seq<char>, nat), ParseError> {
    if data.len() < 2 {
        Err(ParseError::Incomplete)
    } else {
        let l = spec_u16_from_be(data[0], data[1]) as int;
        if data.len() < 2 + l {
            Err(ParseError::Incomplete)
        } else {
            let sbytes = data.subrange(2, 2 + l);
            if !vstd::utf8::valid_utf8(sbytes) {
                Err(ParseError::InvalidUtf8)
            } else {
                Ok((vstd::utf8::decode_utf8(sbytes), (2 + l) as nat))
            }
        }
    }
}

/// Parse of a CONNACK body: session-present bit, then the return code.
pub open spec fn spec_parse_connack(body: Seq<u8>) -> Result<PacketModel, ParseError> {
    if body.len() < 2 {
        Err(ParseError::InvalidFormat)
    } else {
        match spec_connack_code(body[1]) {
            None => Err(ParseError::InvalidFormat),
            Some(code) => Ok(
                PacketModel::Connack { session_present: body[0] % 2 == 1, code },
            ),
        }
    }
}

/// Parse of a PUBLISH: flags from the packet's first byte, then topic,
/// then a packet identifier when QoS is above zero, then the raw payload.
pub open spec fn spec_parse_publish(first: u8, body: Seq<u8>) -> Result<PacketModel, ParseError> {
    let dup = (first / 8) % 2 == 1;
    let retain = first % 2 == 1;
    match spec_qos(((first / 2) % 4) as u8) {
        None => Err(ParseError::InvalidFormat),
        Some(qos) => match spec_decode_string(body) {
            Err(e) => Err(e),
            Ok((topic, consumed)) => {
                if qos != QoS::AtMostOnce {
                    if body.len() < consumed + 2 {
                        Err(ParseError::Incomplete)
                    } else {
                        Ok(
                            PacketModel::Publish {
                                topic,
                                payload: body.skip(consumed + 2 as int),
                                qos,
                                packet_id: Some(
                                    spec_u16_from_be(
                                        body[consumed as int],
                                        body[consumed as int + 1],
                                    ),
                                ),
                                retain,
                                dup,
                            },
                        )
                    }
                } else {
                    Ok(
                        PacketModel::Publish {
                            topic,
                            payload: body.skip(consumed as int),
                            qos,
                            packet_id: None,
                            retain,
                            dup,
                        },
                    )
                }
            },
        },
    }
}

/// The packet identifier that opens an acknowledgement body.
pub open spec fn spec_body_packet_id(body: Seq<u8>) -> u16 {
    spec_u16_from_be(body[0], body[1])
}

/// Parse of a body by the packet type it came framed under.
pub open spec fn spec_parse_body(t: PacketType, first: u8, body: Seq<u8>) -> Result<
    PacketModel,
    ParseError,
> {
    match t {
        PacketType::Connack => spec_parse_connack(body),
        PacketType::Publish => spec_parse_publish(first, body),
        PacketType::Puback => if body.len() < 2 {
            Err(ParseError::InvalidFormat)
        } else {
            Ok(PacketModel::Puback { packet_id: spec_body_packet_id(body) })
        },
        PacketType::Pubrec => if body.len() < 2 {
            Err(ParseError::InvalidFormat)
        } else {
            Ok(PacketModel::Pubrec { packet_id: spec_body_packet_id(body) })
        },
        PacketType::Pubrel => if body.len() < 2 {
            Err(ParseError::InvalidFormat)
        } else {
            Ok(PacketModel::Pubrel { packet_id: spec_body_packet_id(body) })
        },
        PacketType::Pubcomp => if body.len() < 2 {
            Err(ParseError::InvalidFormat)
        } else {
            Ok(PacketModel::Pubcomp { packet_id: spec_body_packet_id(body) })
        },
        PacketType::Suback => if body.len() < 3 {
            Err(ParseError::InvalidFormat)
        } else {
            Ok(
                PacketModel::Suback {
                    packet_id: spec_body_packet_id(body),
                    return_codes: body.skip(2),
                },
            )
        },
        PacketType::Unsuback => if body.len() < 2 {
            Err(ParseError::InvalidFormat)
        } else {
            Ok(PacketModel::Unsuback { packet_id: spec_body_packet_id(body) })
        },
        PacketType::Pingresp => Ok(PacketModel::Pingresp),
        _ => Err(ParseError::UnknownType),
    }
}

/// Parse of one complete packet at the front of `data`: the packet and the
/// bytes it occupied, or the error the prefix forces.
pub open spec fn spec_parse_packet(data: Seq<u8>) -> Result<(PacketModel, nat), ParseError> {
    if data.len() == 0 {
        Err(ParseError::Incomplete)
    } else {
        match spec_packet_type(data[0]) {
            None => Err(ParseError::UnknownType),
            Some(t) => match spec_decode_remaining_length(data.skip(1), 4) {
                None => Err(ParseError::Incomplete),
                Some((remaining_len, len_bytes)) => {
                    let total = 1 + len_bytes + remaining_len;
                    if data.len() < total {
                        Err(ParseError::Incomplete)
                    } else {
                        let body = data.subrange(1 + len_bytes as int, total as int);
                        match spec_parse_body(t, data[0], body) {
                            Err(e) => Err(e),
                            Ok(pm) => Ok((pm, total)),
                        }
                    }
                },
            },
        }
    }
}

// ===========================================================================
// The parser
// ===========================================================================

/// Decode a length-prefixed UTF-8 string from the front of `data`.
fn decode_string(data: &[u8]) -> (r: Result<(String, usize), ParseError>)
    ensures
        r matches Ok((s, n)) ==> spec_decode_string(data@) == Ok::<_, ParseError>(
            (s@, n as nat),
        ),
        r matches Err(e) ==> spec_decode_string(data@) == Err::<(Seq<char>, nat), _>(e),
{
    if data.len() < 2 {
        return Err(ParseError::Incomplete);
    }
    let l = (data[0] as usize) * 256 + (data[1] as usize);
    if data.len() < 2 + l {
        return Err(ParseError::Incomplete);
    }
    let sbytes = &data[2..2 + l];
    assert(sbytes@ =~= data@.subrange(2, 2 + l as int));
    match bytes_to_str(sbytes) {
        None => Err(ParseError::InvalidUtf8),
        Some(s) => Ok((s.to_owned(), 2 + l)),
    }
}

/// Read a big-endian packet identifier from the front of a body.
fn read_packet_id(body: &[u8]) -> (r: u16)
    requires
        body@.len() >= 2,
    ensures
        r == spec_body_packet_id(body@),
{
    (body[0] as u16) * 256 + (body[1] as u16)
}

/// Parse a complete MQTT packet from the front of `data`: the packet and
/// the bytes consumed, or the error that the buffered prefix forces.
pub fn parse_packet(data: &[u8]) -> (r: Result<(Packet, usize), ParseError>)
    ensures
        r matches Ok((p, n)) ==> spec_parse_packet(data@) == Ok::<_, ParseError>(
            (p@, n as nat),
        ),
        r matches Err(e) ==> spec_parse_packet(data@) == Err::<(PacketModel, nat), _>(e),
{
    if data.len() == 0 {
        return Err(ParseError::Incomplete);
    }

    let first_byte = data[0];
    let packet_type = match PacketType::from_byte(first_byte) {
        Some(t) => t,
        None => {
            return Err(ParseError::UnknownType);
        },
    };

    let rest = &data[1..data.len()];
    assert(rest@ =~= data@.skip(1));
    let (remaining_len, len_bytes) = match decode_remaining_length(rest) {
        Some(pair) => pair,
        None => {
            return Err(ParseError::Incomplete);
        },
    };

    proof {
        crate::remaining_length::lemma_decode_bounds(data@.skip(1), 4);
    }
    let header_len = 1 + len_bytes;
    if data.len() < header_len || data.len() - header_len < remaining_len {
        return Err(ParseError::Incomplete);
    }
    let total_len = header_len + remaining_len;

    let body = &data[header_len..total_len];
    assert(body@ =~= data@.subrange(1 + len_bytes as int, total_len as int));

    let parsed: Result<Packet, ParseError> = match packet_type {
        PacketType::Connack => parse_connack(body),
        PacketType::Publish => parse_publish(first_byte, body),
        PacketType::Puback => if body.len() < 2 {
            Err(ParseError::InvalidFormat)
        } else {
            Ok(Packet::Puback { packet_id: read_packet_id(body) })
        },
        PacketType::Pubrec => if body.len() < 2 {
            Err(ParseError::InvalidFormat)
        } else {
            Ok(Packet::Pubrec { packet_id: read_packet_id(body) })
        },
        PacketType::Pubrel => if body.len() < 2 {
            Err(ParseError::InvalidFormat)
        } else {
            Ok(Packet::Pubrel { packet_id: read_packet_id(body) })
        },
        PacketType::Pubcomp => if body.len() < 2 {
            Err(ParseError::InvalidFormat)
        } else {
            Ok(Packet::Pubcomp { packet_id: read_packet_id(body) })
        },
        PacketType::Suback => if body.len() < 3 {
            Err(ParseError::InvalidFormat)
        } else {
            let packet_id = read_packet_id(body);
            let codes = &body[2..body.len()];
            assert(codes@ =~= body@.skip(2));
            Ok(Packet::Suback { packet_id, return_codes: vstd::slice::slice_to_vec(codes) })
        },
        PacketType::Unsuback => if body.len() < 2 {
            Err(ParseError::InvalidFormat)
        } else {
            Ok(Packet::Unsuback { packet_id: read_packet_id(body) })
        },
        PacketType::Pingresp => Ok(Packet::Pingresp),
        _ => Err(ParseError::UnknownType),
    };

    match parsed {
        Ok(p) => Ok((p, total_len)),
        Err(e) => Err(e),
    }
}

/// Parse a CONNACK body.
fn parse_connack(body: &[u8]) -> (r: Result<Packet, ParseError>)
    ensures
        r matches Ok(p) ==> spec_parse_connack(body@) == Ok::<_, ParseError>(p@),
        r matches Err(e) ==> spec_parse_connack(body@) == Err::<PacketModel, _>(e),
{
    if body.len() < 2 {
        return Err(ParseError::InvalidFormat);
    }
    let session_present = body[0] % 2 == 1;
    match ConnackCode::from_byte(body[1]) {
        None => Err(ParseError::InvalidFormat),
        Some(code) => Ok(Packet::Connack { session_present, code }),
    }
}

// ===========================================================================
// Round trips and framing facts
// ===========================================================================

/// Parsing a framed packet finds the frame again: the type, the body, and
/// the exact byte count, whatever bytes follow the frame.
pub proof fn lemma_parse_framed(t: PacketType, low_nibble: u8, body: Seq<u8>, rest: Seq<u8>)
    requires
        low_nibble < 16,
        body.len() <= REMAINING_LENGTH_MAX,
    ensures
        spec_parse_packet(spec_framed(spec_type_nibble(t), low_nibble, body) + rest) == (
        match spec_parse_body(t, (spec_type_nibble(t) * 16 + low_nibble) as u8, body) {
            Ok(pm) => Ok((pm, spec_framed(spec_type_nibble(t), low_nibble, body).len())),
            Err(e) => Err(e),
        }),
        spec_framed(spec_type_nibble(t), low_nibble, body).len() == 1
            + spec_remaining_length_bytes(body.len()).len() + body.len(),
{
    let tn = spec_type_nibble(t);
    let first = (tn * 16 + low_nibble) as u8;
    let enc = spec_remaining_length_bytes(body.len());
    let frame = spec_framed(tn, low_nibble, body);
    let data = frame + rest;

    crate::remaining_length::lemma_encode_length(body.len());

    assert(data[0] == first);
    assert(first / 16 == tn) by (nonlinear_arith)
        requires
            first == tn * 16 + low_nibble,
            low_nibble < 16,
            tn <= 14,
    ;
    assert(spec_packet_type(first) == Some(t));

    assert(data.skip(1) =~= enc + (body + rest));
    crate::remaining_length::lemma_decode_of_encode(body.len(), body + rest, 4);
    assert(spec_decode_remaining_length(data.skip(1), 4) == Some((body.len(), enc.len())));

    let total = 1 + enc.len() + body.len();
    assert(data.len() >= total);
    assert(data.subrange(1 + enc.len() as int, total as int) =~= body);
}

/// Round trip for the four acknowledgement builders: parsing what
/// `build_puback`, `build_pubrec`, `build_pubrel` or `build_pubcomp`
/// produced yields the matching packet with the same identifier, and a
/// consumed length of four, whatever bytes follow.
pub proof fn lemma_ack_round_trip(packet_id: u16, rest: Seq<u8>)
    ensures
        spec_parse_packet(spec_ack_bytes(4, 0, packet_id) + rest) == Ok::<_, ParseError>(
            (PacketModel::Puback { packet_id }, 4nat),
        ),
        spec_parse_packet(spec_ack_bytes(5, 0, packet_id) + rest) == Ok::<_, ParseError>(
            (PacketModel::Pubrec { packet_id }, 4nat),
        ),
        spec_parse_packet(spec_ack_bytes(6, 2, packet_id) + rest) == Ok::<_, ParseError>(
            (PacketModel::Pubrel { packet_id }, 4nat),
        ),
        spec_parse_packet(spec_ack_bytes(7, 0, packet_id) + rest) == Ok::<_, ParseError>(
            (PacketModel::Pubcomp { packet_id }, 4nat),
        ),
        spec_ack_bytes(4, 0, packet_id).len() == 4,
        spec_ack_bytes(5, 0, packet_id).len() == 4,
        spec_ack_bytes(6, 2, packet_id).len() == 4,
        spec_ack_bytes(7, 0, packet_id).len() == 4,
{
    lemma_ack_is_framed(4, 0, packet_id);
    lemma_ack_is_framed(5, 0, packet_id);
    lemma_ack_is_framed(6, 2, packet_id);
    lemma_ack_is_framed(7, 0, packet_id);
    lemma_parse_framed(PacketType::Puback, 0, spec_u16_be(packet_id), rest);
    lemma_parse_framed(PacketType::Pubrec, 0, spec_u16_be(packet_id), rest);
    lemma_parse_framed(PacketType::Pubrel, 2, spec_u16_be(packet_id), rest);
    lemma_parse_framed(PacketType::Pubcomp, 0, spec_u16_be(packet_id), rest);
    crate::wire::lemma_u16_be_round_trip(packet_id);
}

/// An acknowledgement packet is the two-byte identifier body, framed.
proof fn lemma_ack_is_framed(type_nibble: u8, low_nibble: u8, packet_id: u16)
    requires
        type_nibble <= 14,
        low_nibble < 16,
    ensures
        spec_ack_bytes(type_nibble, low_nibble, packet_id) == spec_framed(
            type_nibble,
            low_nibble,
            spec_u16_be(packet_id),
        ),
{
    assert(spec_remaining_length_bytes(2) =~= seq![2u8]);
    assert(spec_ack_bytes(type_nibble, low_nibble, packet_id) =~= spec_framed(
        type_nibble,
        low_nibble,
        spec_u16_be(packet_id),
    ));
}

/// Round trip for the PUBLISH builder: parsing what `build_publish_with_id`
/// produced, with a packet identifier exactly when QoS is above zero,
/// yields the same topic, payload, flags and identifier, with the DUP flag
/// clear, consuming the whole built packet, whatever bytes follow.
#[verifier::rlimit(50)]
pub proof fn lemma_publish_round_trip(
    topic: Seq<char>,
    payload: Seq<u8>,
    qos: QoS,
    packet_id: Option<u16>,
    retain: bool,
    rest: Seq<u8>,
)
    requires
        vstd::utf8::encode_utf8(topic).len() <= FIELD_MAX,
        vstd::utf8::encode_utf8(topic).len() + payload.len() + 4 <= REMAINING_LENGTH_MAX,
        packet_id is Some <==> qos != QoS::AtMostOnce,
    ensures
        spec_parse_packet(spec_publish_bytes(topic, payload, qos, packet_id, retain) + rest)
            == Ok::<_, ParseError>(
            (
                PacketModel::Publish { topic, payload, qos, packet_id, retain, dup: false },
                spec_publish_bytes(topic, payload, qos, packet_id, retain).len(),
            ),
        ),
{
    broadcast use vstd::utf8::encode_utf8_valid_utf8, vstd::utf8::encode_utf8_decode_utf8;

    let tbytes = vstd::utf8::encode_utf8(topic);
    let blen = tbytes.len() as u16;
    let id_bytes = match packet_id {
        Some(id) => spec_u16_be(id),
        None => Seq::<u8>::empty(),
    };
    let fbody = spec_str_field(topic) + id_bytes + payload;
    let low = (spec_qos_bits(qos) * 2 + (if retain {
        1u8
    } else {
        0u8
    })) as u8;
    let first = (3 * 16 + low) as u8;

    lemma_parse_framed(PacketType::Publish, low, fbody, rest);

    // The flag bits unpack to what was packed.
    assert((first / 8) % 2 == 0 && first % 2 == (if retain {
        1u8
    } else {
        0u8
    }) && spec_qos(((first / 2) % 4) as u8) == Some(qos)) by {
        match qos {
            QoS::AtMostOnce => {
                if retain {
                    assert(first == 49);
                } else {
                    assert(first == 48);
                }
            },
            QoS::AtLeastOnce => {
                if retain {
                    assert(first == 51);
                } else {
                    assert(first == 50);
                }
            },
            QoS::ExactlyOnce => {
                if retain {
                    assert(first == 53);
                } else {
                    assert(first == 52);
                }
            },
        }
    }

    // The topic string field reads back.
    crate::wire::lemma_u16_be_round_trip(blen);
    assert(fbody[0] == (blen / 256) as u8 && fbody[1] == (blen % 256) as u8);
    assert(fbody.subrange(2, 2 + blen as int) =~= tbytes);
    let consumed = (2 + blen as int) as nat;
    assert(spec_decode_string(fbody) == Ok::<_, ParseError>((topic, consumed)));

    match packet_id {
        Some(id) => {
            crate::wire::lemma_u16_be_round_trip(id);
            assert(fbody[consumed as int] == (id / 256) as u8 && fbody[consumed as int + 1] == (
            id % 256) as u8);
            assert(fbody.skip(consumed + 2 as int) =~= payload);
        },
        None => {
            assert(fbody.skip(consumed as int) =~= payload);
        },
    }
}

/// A successful parse consumes at least the two-byte fixed header and at
/// most the bytes it was given.
pub proof fn lemma_parse_consumed_bounds(data: Seq<u8>)
    requires
        spec_parse_packet(data) is Ok,
    ensures
        2 <= spec_parse_packet(data)->Ok_0.1 <= data.len(),
{
    crate::remaining_length::lemma_decode_bounds(data.skip(1), 4);
}

/// The parser never looks past what it consumes: any data agreeing with a
/// successfully parsed packet on its consumed prefix parses the same way.
pub proof fn lemma_parse_depends_on_prefix(data: Seq<u8>, other: Seq<u8>)
    requires
        spec_parse_packet(data) is Ok,
        other.len() >= spec_parse_packet(data)->Ok_0.1,
        other.take(spec_parse_packet(data)->Ok_0.1 as int) == data.take(
            spec_parse_packet(data)->Ok_0.1 as int,
        ),
    ensures
        spec_parse_packet(other) == spec_parse_packet(data),
{
    let (pm, n) = spec_parse_packet(data)->Ok_0;
    let (rl, lb) = spec_decode_remaining_length(data.skip(1), 4)->Some_0;
    crate::remaining_length::lemma_decode_bounds(data.skip(1), 4);
    assert(other.take(n as int)[0] == data.take(n as int)[0]);
    assert(other.skip(1).take(lb as int) =~= data.skip(1).take(lb as int)) by {
        assert forall|i: int| 0 <= i < lb implies other.skip(1)[i] == data.skip(1)[i] by {
            assert(other.take(n as int)[i + 1] == data.take(n as int)[i + 1]);
        }
    }
    crate::remaining_length::lemma_decode_depends_on_prefix(data.skip(1), other.skip(1), 4);
    assert(other.subrange(1 + lb as int, n as int) =~= data.subrange(1 + lb as int, n as int)) by {
        assert forall|i: int| 1 + lb <= i < n implies other[i] == data[i] by {
            assert(other.take(n as int)[i] == data.take(n as int)[i]);
        }
    }
}

/// A strict prefix of a successfully parsed packet is always `Incomplete`:
/// the parser asks for more bytes rather than mis-parsing a fragment.
pub proof fn lemma_parse_prefix_incomplete(data: Seq<u8>, j: int)
    requires
        spec_parse_packet(data) is Ok,
        0 <= j < spec_parse_packet(data)->Ok_0.1,
    ensures
        spec_parse_packet(data.take(j)) == Err::<(PacketModel, nat), _>(ParseError::Incomplete),
{
    let (pm, n) = spec_parse_packet(data)->Ok_0;
    let (rl, lb) = spec_decode_remaining_length(data.skip(1), 4)->Some_0;
    crate::remaining_length::lemma_decode_bounds(data.skip(1), 4);
    let q = data.take(j);
    if j == 0 {
    } else {
        assert(q[0] == data[0]);
        assert(q.skip(1) =~= data.skip(1).take(j - 1));
        if j - 1 < lb {
            crate::remaining_length::lemma_decode_of_truncation(data.skip(1), j - 1, 4);
        } else {
            assert(q.skip(1).take(lb as int) =~= data.skip(1).take(lb as int));
            crate::remaining_length::lemma_decode_depends_on_prefix(data.skip(1), q.skip(1), 4);
        }
    }
}

/// Parse a PUBLISH body, with the flags taken from the packet's first byte.
fn parse_publish(first_byte: u8, body: &[u8]) -> (r: Result<Packet, ParseError>)
    ensures
        r matches Ok(p) ==> spec_parse_publish(first_byte, body@) == Ok::<_, ParseError>(p@),
        r matches Err(e) ==> spec_parse_publish(first_byte, body@) == Err::<PacketModel, _>(e),
{
    let dup = (first_byte / 8) % 2 == 1;
    let retain = first_byte % 2 == 1;
    let qos = match QoS::from_byte((first_byte / 2) % 4) {
        Some(q) => q,
        None => {
            return Err(ParseError::InvalidFormat);
        },
    };

    let (topic, consumed) = match decode_string(body) {
        Ok(pair) => pair,
        Err(e) => {
            return Err(e);
        },
    };

    if qos != QoS::AtMostOnce {
        if body.len() < consumed + 2 {
            return Err(ParseError::Incomplete);
        }
        let id = (body[consumed] as u16) * 256 + (body[consumed + 1] as u16);
        let payload_slice = &body[consumed + 2..body.len()];
        assert(payload_slice@ =~= body@.skip(consumed + 2));
        Ok(
            Packet::Publish {
                topic,
                payload: vstd::slice::slice_to_vec(payload_slice),
                qos,
                packet_id: Some(id),
                retain,
                dup,
            },
        )
    } else {
        let payload_slice = &body[consumed..body.len()];
        assert(payload_slice@ =~= body@.skip(consumed as int));
        Ok(
            Packet::Publish {
                topic,
                payload: vstd::slice::slice_to_vec(payload_slice),
                qos,
                packet_id: None,
                retain,
                dup,
            },
        )
    }
}

} // verus!
