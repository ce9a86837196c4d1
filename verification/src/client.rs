//! MQTT client protocol state machine: connection lifecycle, packet
//! identifier allocation, the QoS acknowledgement handshakes, and the
//! translation of parsed packets into application events.
//!
//! The client owns no socket.  Every operation that sends appends the
//! packet's bytes to an outbound buffer which the embedding application
//! drains with [`MqttClient::take_outbound`] and writes to its transport
//! verbatim; bytes read from the transport are handed verbatim to
//! [`MqttClient::process_data`].

use vstd::prelude::*;

use crate::packet::{
    build_connect_with_options, build_disconnect, build_pingreq, build_puback, build_publish_with_id,
    build_pubcomp, build_pubrec, build_pubrel, build_subscribe, build_unsubscribe, parse_packet,
    spec_ack_bytes, spec_connack_byte, spec_connect_bytes, spec_parse_packet, spec_publish_bytes,
    spec_subscribe_bytes, spec_unsubscribe_bytes, ConnackCode, Packet, PacketModel, ParseError,
    QoS,
};
use crate::wire::FIELD_MAX;
use crate::remaining_length::REMAINING_LENGTH_MAX;

verus! {

/// MQTT client configuration.
#[derive(Debug, Clone)]
pub struct MqttConfig {
    /// Broker address (host:port).
    pub broker: String,
    /// Client identifier.
    pub client_id: String,
    /// Username (optional).
    pub username: Option<String>,
    /// Password (optional).
    pub password: Option<Vec<u8>>,
    /// Keep-alive interval in seconds.
    pub keep_alive_secs: u16,
    /// Clean session flag.
    pub clean_session: bool,
    /// Auto-reconnect on transport loss.
    pub auto_reconnect: bool,
    /// Reconnect delay in milliseconds.
    pub reconnect_delay_ms: u64,
}

/// The mathematical shape of a configuration.
#[verifier::ext_equal]
pub struct ConfigModel {
    pub broker: Seq<char>,
    pub client_id: Seq<char>,
    pub username: Option<Seq<char>>,
    pub password: Option<Seq<u8>>,
    pub keep_alive_secs: u16,
    pub clean_session: bool,
    pub auto_reconnect: bool,
    pub reconnect_delay_ms: u64,
}

impl View for MqttConfig {
    type V = ConfigModel;

    open spec fn view(&self) -> ConfigModel {
        ConfigModel {
            broker: self.broker@,
            client_id: self.client_id@,
            username: match self.username {
                Some(ref u) => Some(u@),
                None => None,
            },
            password: match self.password {
                Some(ref p) => Some(p@),
                None => None,
            },
            keep_alive_secs: self.keep_alive_secs,
            clean_session: self.clean_session,
            auto_reconnect: self.auto_reconnect,
            reconnect_delay_ms: self.reconnect_delay_ms,
        }
    }
}

/// The CONNECT packet a configuration asks for must fit its wire fields.
pub open spec fn spec_config_wf(c: ConfigModel) -> bool {
    &&& vstd::utf8::encode_utf8(c.client_id).len() <= FIELD_MAX
    &&& (c.username matches Some(u) ==> vstd::utf8::encode_utf8(u).len() <= FIELD_MAX)
    &&& (c.password matches Some(p) ==> p.len() <= FIELD_MAX)
}

impl Default for MqttConfig {
    /// A local broker, a fixed client identifier, clean session, one-minute
    /// keep-alive, reconnect after five seconds.
    fn default() -> (r: Self)
        ensures
            r@.broker == "127.0.0.1:1883"@,
            r@.client_id == "xous-mqtt-client"@,
            r@.username is None,
            r@.password is None,
            r@.keep_alive_secs == 60,
            r@.clean_session,
            r@.auto_reconnect,
            r@.reconnect_delay_ms == 5000,
    {
        MqttConfig {
            broker: "127.0.0.1:1883".to_owned(),
            client_id: "xous-mqtt-client".to_owned(),
            username: None,
            password: None,
            keep_alive_secs: 60,
            clean_session: true,
            auto_reconnect: true,
            reconnect_delay_ms: 5000,
        }
    }
}

/// MQTT client events, drained through [`MqttClient::poll`].
#[derive(Debug, Clone)]
pub enum MqttEvent {
    /// Connected to the broker.
    Connected,
    /// Disconnected from the broker.
    Disconnected,
    /// Received message.
    Message { topic: String, payload: Vec<u8> },
    /// Subscription confirmed.
    Subscribed { packet_id: u16 },
    /// Publish acknowledged (QoS 1).
    PublishAcked { packet_id: u16 },
    /// Publish complete (QoS 2).
    PublishComplete { packet_id: u16 },
    /// An error occurred.
    Error(MqttError),
}

/// MQTT client errors.
#[derive(Debug, Clone)]
pub enum MqttError {
    /// Connection failed.
    ConnectionFailed(String),
    /// Connection refused by the broker, with the CONNACK return code.
    ConnectionRefused(u8),
    /// Network I/O error.
    IoError(String),
    /// Protocol error.
    ProtocolError(String),
    /// Timeout.
    Timeout,
    /// Not connected.
    NotConnected,
}

/// The mathematical shape of an error.
#[verifier::ext_equal]
pub enum MqttErrorModel {
    ConnectionFailed(Seq<char>),
    ConnectionRefused(u8),
    IoError(Seq<char>),
    ProtocolError(Seq<char>),
    Timeout,
    NotConnected,
}

impl View for MqttError {
    type V = MqttErrorModel;

    open spec fn view(&self) -> MqttErrorModel {
        match self {
            MqttError::ConnectionFailed(s) => MqttErrorModel::ConnectionFailed(s@),
            MqttError::ConnectionRefused(c) => MqttErrorModel::ConnectionRefused(*c),
            MqttError::IoError(s) => MqttErrorModel::IoError(s@),
            MqttError::ProtocolError(s) => MqttErrorModel::ProtocolError(s@),
            MqttError::Timeout => MqttErrorModel::Timeout,
            MqttError::NotConnected => MqttErrorModel::NotConnected,
        }
    }
}

/// The mathematical shape of an event.
#[verifier::ext_equal]
pub enum MqttEventModel {
    Connected,
    Disconnected,
    Message { topic: Seq<char>, payload: Seq<u8> },
    Subscribed { packet_id: u16 },
    PublishAcked { packet_id: u16 },
    PublishComplete { packet_id: u16 },
    Error(MqttErrorModel),
}

impl View for MqttEvent {
    type V = MqttEventModel;

    open spec fn view(&self) -> MqttEventModel {
        match self {
            MqttEvent::Connected => MqttEventModel::Connected,
            MqttEvent::Disconnected => MqttEventModel::Disconnected,
            MqttEvent::Message { topic, payload } => MqttEventModel::Message {
                topic: topic@,
                payload: payload@,
            },
            MqttEvent::Subscribed { packet_id } => MqttEventModel::Subscribed {
                packet_id: *packet_id,
            },
            MqttEvent::PublishAcked { packet_id } => MqttEventModel::PublishAcked {
                packet_id: *packet_id,
            },
            MqttEvent::PublishComplete { packet_id } => MqttEventModel::PublishComplete {
                packet_id: *packet_id,
            },
            MqttEvent::Error(e) => MqttEventModel::Error(e@),
        }
    }
}

/// MQTT connection state.
#[derive(Debug, Clone, Copy, PartialEq, Eq, Structural)]
pub enum ConnectionState {
    Disconnected,
    Connecting,
    Connected,
    Reconnecting,
}

/// The mathematical shape of a client: configuration, connection state,
/// the next packet identifier, the receive accumulator, the pending
/// events, and the outbound bytes not yet handed to the transport.
#[verifier::ext_equal]
pub struct ClientModel {
    pub cfg: ConfigModel,
    pub state: ConnectionState,
    pub packet_id: u16,
    pub rx: Seq<u8>,
    pub events: Seq<MqttEventModel>,
    pub tx: Seq<u8>,
}

/// Build the event a malformed-packet error surfaces as.
fn parse_error_event(e: ParseError) -> (r: MqttEvent)
    ensures
        r@ == spec_parse_error_event(e),
{
    let text: &str = match e {
        ParseError::Incomplete => "incomplete packet",
        ParseError::InvalidFormat => "invalid packet format",
        ParseError::UnknownType => "unknown packet type",
        ParseError::InvalidUtf8 => "invalid utf-8 in string field",
    };
    MqttEvent::Error(MqttError::ProtocolError(text.to_owned()))
}

/// MQTT client.
pub struct MqttClient {
    config: MqttConfig,
    state: ConnectionState,
    packet_id: u16,
    rx_buffer: Vec<u8>,
    event_queue: Vec<MqttEvent>,
    tx_buffer: Vec<u8>,
}

impl View for MqttClient {
    type V = ClientModel;

    closed spec fn view(&self) -> ClientModel {
        ClientModel {
            cfg: self.config@,
            state: self.state,
            packet_id: self.packet_id,
            rx: self.rx_buffer@,
            events: self.event_queue@.map_values(|e: MqttEvent| e@),
            tx: self.tx_buffer@,
        }
    }
}

/// The diagnostic text of a parse error event.
pub open spec fn spec_parse_error_text(e: ParseError) -> Seq<char> {
    match e {
        ParseError::Incomplete => "incomplete packet"@,
        ParseError::InvalidFormat => "invalid packet format"@,
        ParseError::UnknownType => "unknown packet type"@,
        ParseError::InvalidUtf8 => "invalid utf-8 in string field"@,
    }
}

/// The event a malformed-packet error surfaces as.
pub open spec fn spec_parse_error_event(e: ParseError) -> MqttEventModel {
    MqttEventModel::Error(MqttErrorModel::ProtocolError(spec_parse_error_text(e)))
}

/// The effect of one parsed packet on the client: the dispatch table of
/// the protocol.  CONNACK settles the connection attempt; an inbound
/// PUBLISH emits a `Message` and queues the acknowledgement its QoS asks
/// for; PUBACK, PUBCOMP and SUBACK emit their completion events; PUBREC
/// and PUBREL continue the QoS 2 handshake with no public event; UNSUBACK
/// and PINGRESP are internal only.
pub open spec fn spec_handle_packet(m: ClientModel, p: PacketModel) -> ClientModel {
    match p {
        PacketModel::Connack { code, .. } => {
            if code == ConnackCode::Accepted {
                ClientModel {
                    state: ConnectionState::Connected,
                    events: m.events.push(MqttEventModel::Connected),
                    ..m
                }
            } else {
                ClientModel {
                    state: ConnectionState::Disconnected,
                    events: m.events.push(
                        MqttEventModel::Error(
                            MqttErrorModel::ConnectionRefused(spec_connack_byte(code)),
                        ),
                    ),
                    ..m
                }
            }
        },
        PacketModel::Publish { topic, payload, qos, packet_id, .. } => {
            let acked = if qos == QoS::AtLeastOnce && packet_id is Some {
                ClientModel { tx: m.tx + spec_ack_bytes(4, 0, packet_id->0), ..m }
            } else if qos == QoS::ExactlyOnce && packet_id is Some {
                ClientModel { tx: m.tx + spec_ack_bytes(5, 0, packet_id->0), ..m }
            } else {
                m
            };
            ClientModel {
                events: acked.events.push(MqttEventModel::Message { topic, payload }),
                ..acked
            }
        },
        PacketModel::Puback { packet_id } => ClientModel {
            events: m.events.push(MqttEventModel::PublishAcked { packet_id }),
            ..m
        },
        PacketModel::Pubrec { packet_id } => ClientModel {
            tx: m.tx + spec_ack_bytes(6, 2, packet_id),
            ..m
        },
        PacketModel::Pubrel { packet_id } => ClientModel {
            tx: m.tx + spec_ack_bytes(7, 0, packet_id),
            ..m
        },
        PacketModel::Pubcomp { packet_id } => ClientModel {
            events: m.events.push(MqttEventModel::PublishComplete { packet_id }),
            ..m
        },
        PacketModel::Suback { packet_id, .. } => ClientModel {
            events: m.events.push(MqttEventModel::Subscribed { packet_id }),
            ..m
        },
        PacketModel::Unsuback { .. } => m,
        PacketModel::Pingresp => m,
    }
}

/// Repeatedly parse and handle complete packets at the front of the
/// receive accumulator.  `Incomplete` leaves the accumulator waiting for
/// more bytes; any other parse error abandons it whole and surfaces one
/// protocol error event.
pub open spec fn spec_drain(m: ClientModel) -> ClientModel
    decreases m.rx.len(),
{
    match spec_parse_packet(m.rx) {
        Ok((pm, n)) => {
            if 0 < n <= m.rx.len() {
                let handled = spec_handle_packet(m, pm);
                spec_drain(ClientModel { rx: handled.rx.skip(n as int), ..handled })
            } else {
                // never reached: the parser consumes at least one byte and
                // no more than it was given
                m
            }
        },
        Err(ParseError::Incomplete) => m,
        Err(e) => ClientModel {
            rx: Seq::<u8>::empty(),
            events: m.events.push(spec_parse_error_event(e)),
            ..m
        },
    }
}

/// The whole effect of `process_data`: append the bytes, then drain.
pub open spec fn spec_process(m: ClientModel, data: Seq<u8>) -> ClientModel {
    spec_drain(ClientModel { rx: m.rx + data, ..m })
}

/// The packet identifier after `p`: a wrapping counter that skips zero.
pub open spec fn spec_next_packet_id(p: u16) -> u16 {
    if p == 65535 {
        1
    } else {
        (p + 1) as u16
    }
}

impl MqttClient {
    /// Create a new client in the `Disconnected` state, with packet
    /// identifiers starting at one and every buffer empty.
    pub fn new(config: MqttConfig) -> (r: Self)
        ensures
            r@ == (ClientModel {
                cfg: config@,
                state: ConnectionState::Disconnected,
                packet_id: 1,
                rx: Seq::<u8>::empty(),
                events: Seq::<MqttEventModel>::empty(),
                tx: Seq::<u8>::empty(),
            }),
    {
        let r = MqttClient {
            config,
            state: ConnectionState::Disconnected,
            packet_id: 1,
            rx_buffer: Vec::with_capacity(4096),
            event_queue: Vec::new(),
            tx_buffer: Vec::new(),
        };
        assert(r@.events =~= Seq::<MqttEventModel>::empty());
        assert(r@ =~= (ClientModel {
            cfg: r.config@,
            state: ConnectionState::Disconnected,
            packet_id: 1,
            rx: Seq::<u8>::empty(),
            events: Seq::<MqttEventModel>::empty(),
            tx: Seq::<u8>::empty(),
        }));
        r
    }

    /// Current connection state.
    pub fn state(&self) -> (r: ConnectionState)
        ensures
            r == self@.state,
    {
        self.state
    }

    /// Whether the client is in the `Connected` state.
    pub fn is_connected(&self) -> (r: bool)
        ensures
            r == (self@.state == ConnectionState::Connected),
    {
        self.state == ConnectionState::Connected
    }

    /// Allocate the next packet identifier: a wrapping 16-bit counter that
    /// skips zero.
    fn next_packet_id(&mut self) -> (r: u16)
        ensures
            r == old(self)@.packet_id,
            final(self)@ == (ClientModel {
                packet_id: spec_next_packet_id(old(self)@.packet_id),
                ..old(self)@
            }),
    {
        let id = self.packet_id;
        if self.packet_id == 65535 {
            self.packet_id = 1;
        } else {
            self.packet_id = self.packet_id + 1;
        }
        id
    }

    /// Hand over the outbound bytes accumulated so far, leaving the
    /// outbound buffer empty.  The caller writes them to the transport
    /// verbatim.
    pub fn take_outbound(&mut self) -> (r: Vec<u8>)
        ensures
            r@ == old(self)@.tx,
            final(self)@ == (ClientModel { tx: Seq::<u8>::empty(), ..old(self)@ }),
    {
        let r = self.tx_buffer.split_off(0);
        assert(r@ =~= old(self)@.tx);
        assert(self.tx_buffer@ =~= Seq::<u8>::empty());
        r
    }

    /// Start connecting: from `Disconnected` or `Reconnecting`, queue a
    /// CONNECT built from the configuration and move to `Connecting`; the
    /// `Connected` transition itself waits for the broker's CONNACK.  In
    /// any other state this is a successful no-op.
    pub fn connect(&mut self) -> (r: Result<(), MqttError>)
        requires
            spec_config_wf(old(self)@.cfg),
        ensures
            r is Ok,
            old(self)@.state == ConnectionState::Disconnected || old(self)@.state
                == ConnectionState::Reconnecting ==> final(self)@ == (ClientModel {
                state: ConnectionState::Connecting,
                tx: old(self)@.tx + spec_connect_bytes(
                    old(self)@.cfg.client_id,
                    old(self)@.cfg.username,
                    old(self)@.cfg.password,
                    old(self)@.cfg.clean_session,
                    old(self)@.cfg.keep_alive_secs,
                ),
                ..old(self)@
            }),
            old(self)@.state == ConnectionState::Connecting || old(self)@.state
                == ConnectionState::Connected ==> final(self)@ == old(self)@,
    {
        if self.state == ConnectionState::Connecting || self.state == ConnectionState::Connected {
            return Ok(());
        }

        let username: Option<&str> = match self.config.username {
            Some(ref u) => Some(u.as_str()),
            None => None,
        };
        let password: Option<&[u8]> = match self.config.password {
            Some(ref p) => Some(p.as_slice()),
            None => None,
        };
        let mut connect_packet = build_connect_with_options(
            self.config.client_id.as_str(),
            username,
            password,
            self.config.clean_session,
            self.config.keep_alive_secs,
        );
        self.tx_buffer.append(&mut connect_packet);
        self.state = ConnectionState::Connecting;
        Ok(())
    }

    /// Disconnect: when connected, queue a DISCONNECT, move to
    /// `Disconnected` and emit a `Disconnected` event; otherwise a
    /// successful no-op.
    pub fn disconnect(&mut self) -> (r: Result<(), MqttError>)
        ensures
            r is Ok,
            old(self)@.state == ConnectionState::Connected ==> final(self)@ == (ClientModel {
                state: ConnectionState::Disconnected,
                tx: old(self)@.tx + seq![0xE0u8, 0u8],
                events: old(self)@.events.push(MqttEventModel::Disconnected),
                ..old(self)@
            }),
            old(self)@.state != ConnectionState::Connected ==> final(self)@ == old(self)@,
    {
        if self.state != ConnectionState::Connected {
            return Ok(());
        }
        let mut disconnect_packet = build_disconnect();
        self.tx_buffer.append(&mut disconnect_packet);
        self.state = ConnectionState::Disconnected;
        self.event_queue.push(MqttEvent::Disconnected);
        assert(self@.events =~= old(self)@.events.push(MqttEventModel::Disconnected));
        Ok(())
    }

    /// The transport collaborator reports that the connection is gone:
    /// move to `Reconnecting` when auto-reconnect is configured, else to
    /// `Disconnected`, and emit a `Disconnected` event.
    pub fn transport_lost(&mut self)
        ensures
            final(self)@ == (ClientModel {
                state: if old(self)@.cfg.auto_reconnect {
                    ConnectionState::Reconnecting
                } else {
                    ConnectionState::Disconnected
                },
                events: old(self)@.events.push(MqttEventModel::Disconnected),
                ..old(self)@
            }),
    {
        if self.config.auto_reconnect {
            self.state = ConnectionState::Reconnecting;
        } else {
            self.state = ConnectionState::Disconnected;
        }
        self.event_queue.push(MqttEvent::Disconnected);
        assert(self@.events =~= old(self)@.events.push(MqttEventModel::Disconnected));
    }

    /// Subscribe to a topic: allocate a packet identifier and queue a
    /// SUBSCRIBE; `NotConnected` in every state but `Connected`.
    pub fn subscribe(&mut self, topic: &str, qos: QoS) -> (r: Result<u16, MqttError>)
        requires
            vstd::utf8::encode_utf8(topic@).len() <= FIELD_MAX,
        ensures
            old(self)@.state != ConnectionState::Connected ==> (r matches Err(e) && e@
                == MqttErrorModel::NotConnected && final(self)@ == old(self)@),
            old(self)@.state == ConnectionState::Connected ==> (r matches Ok(id) && id == old(
                self,
            )@.packet_id && final(self)@ == (ClientModel {
                packet_id: spec_next_packet_id(old(self)@.packet_id),
                tx: old(self)@.tx + spec_subscribe_bytes(old(self)@.packet_id, topic@, qos),
                ..old(self)@
            })),
    {
        if self.state != ConnectionState::Connected {
            return Err(MqttError::NotConnected);
        }
        let packet_id = self.next_packet_id();
        let mut subscribe_packet = build_subscribe(packet_id, topic, qos);
        self.tx_buffer.append(&mut subscribe_packet);
        Ok(packet_id)
    }

    /// Unsubscribe from a topic: allocate a packet identifier and queue an
    /// UNSUBSCRIBE; `NotConnected` in every state but `Connected`.
    pub fn unsubscribe(&mut self, topic: &str) -> (r: Result<u16, MqttError>)
        requires
            vstd::utf8::encode_utf8(topic@).len() <= FIELD_MAX,
        ensures
            old(self)@.state != ConnectionState::Connected ==> (r matches Err(e) && e@
                == MqttErrorModel::NotConnected && final(self)@ == old(self)@),
            old(self)@.state == ConnectionState::Connected ==> (r matches Ok(id) && id == old(
                self,
            )@.packet_id && final(self)@ == (ClientModel {
                packet_id: spec_next_packet_id(old(self)@.packet_id),
                tx: old(self)@.tx + spec_unsubscribe_bytes(old(self)@.packet_id, topic@),
                ..old(self)@
            })),
    {
        if self.state != ConnectionState::Connected {
            return Err(MqttError::NotConnected);
        }
        let packet_id = self.next_packet_id();
        let mut unsubscribe_packet = build_unsubscribe(packet_id, topic);
        self.tx_buffer.append(&mut unsubscribe_packet);
        Ok(packet_id)
    }

    /// Publish a message: queue a PUBLISH, with a freshly allocated packet
    /// identifier exactly when QoS is above zero; `NotConnected` in every
    /// state but `Connected`.
    pub fn publish(&mut self, topic: &str, payload: &[u8], qos: QoS) -> (r: Result<
        Option<u16>,
        MqttError,
    >)
        requires
            vstd::utf8::encode_utf8(topic@).len() <= FIELD_MAX,
            vstd::utf8::encode_utf8(topic@).len() + payload@.len() + 4 <= REMAINING_LENGTH_MAX,
        ensures
            old(self)@.state != ConnectionState::Connected ==> (r matches Err(e) && e@
                == MqttErrorModel::NotConnected && final(self)@ == old(self)@),
            old(self)@.state == ConnectionState::Connected && qos == QoS::AtMostOnce ==> (r
                matches Ok(id) && id is None && final(self)@ == (ClientModel {
                tx: old(self)@.tx + spec_publish_bytes(topic@, payload@, qos, None, false),
                ..old(self)@
            })),
            old(self)@.state == ConnectionState::Connected && qos != QoS::AtMostOnce ==> (r
                matches Ok(id) && id == Some(old(self)@.packet_id) && final(self)@ == (
            ClientModel {
                packet_id: spec_next_packet_id(old(self)@.packet_id),
                tx: old(self)@.tx + spec_publish_bytes(
                    topic@,
                    payload@,
                    qos,
                    Some(old(self)@.packet_id),
                    false,
                ),
                ..old(self)@
            })),
    {
        if self.state != ConnectionState::Connected {
            return Err(MqttError::NotConnected);
        }
        let packet_id: Option<u16> = if qos != QoS::AtMostOnce {
            Some(self.next_packet_id())
        } else {
            None
        };
        let mut publish_packet = build_publish_with_id(topic, payload, qos, packet_id, false);
        self.tx_buffer.append(&mut publish_packet);
        Ok(packet_id)
    }

    /// Send a keep-alive ping: queue a PINGREQ; `NotConnected` in every
    /// state but `Connected`.  When to ping is the caller's timing concern.
    pub fn ping(&mut self) -> (r: Result<(), MqttError>)
        ensures
            old(self)@.state != ConnectionState::Connected ==> (r matches Err(e) && e@
                == MqttErrorModel::NotConnected && final(self)@ == old(self)@),
            old(self)@.state == ConnectionState::Connected ==> r is Ok && final(self)@ == (
            ClientModel { tx: old(self)@.tx + seq![0xC0u8, 0u8], ..old(self)@ }),
    {
        if self.state != ConnectionState::Connected {
            return Err(MqttError::NotConnected);
        }
        let mut ping_packet = build_pingreq();
        self.tx_buffer.append(&mut ping_packet);
        Ok(())
    }

    /// Handle one parsed packet: update the connection state, queue the
    /// acknowledgement the QoS handshake asks for, and emit the
    /// application event, exactly as `spec_handle_packet` says.
    fn handle_packet(&mut self, packet: Packet)
        ensures
            final(self)@ == spec_handle_packet(old(self)@, packet@),
    {
        match packet {
            Packet::Connack { code, .. } => {
                if code == ConnackCode::Accepted {
                    self.state = ConnectionState::Connected;
                    self.event_queue.push(MqttEvent::Connected);
                    assert(self@.events =~= old(self)@.events.push(MqttEventModel::Connected));
                } else {
                    self.state = ConnectionState::Disconnected;
                    self.event_queue.push(
                        MqttEvent::Error(MqttError::ConnectionRefused(code.byte())),
                    );
                    assert(self@.events =~= old(self)@.events.push(
                        MqttEventModel::Error(
                            MqttErrorModel::ConnectionRefused(spec_connack_byte(code)),
                        ),
                    ));
                }
            },
            Packet::Publish { topic, payload, qos, packet_id, .. } => {
                if qos == QoS::AtLeastOnce {
                    if let Some(id) = packet_id {
                        let mut puback = build_puback(id);
                        self.tx_buffer.append(&mut puback);
                    }
                } else if qos == QoS::ExactlyOnce {
                    if let Some(id) = packet_id {
                        let mut pubrec = build_pubrec(id);
                        self.tx_buffer.append(&mut pubrec);
                    }
                }
                let ghost topic_view = topic@;
                let ghost payload_view = payload@;
                self.event_queue.push(MqttEvent::Message { topic, payload });
                assert(self@.events =~= old(self)@.events.push(
                    MqttEventModel::Message { topic: topic_view, payload: payload_view },
                ));
            },
            Packet::Puback { packet_id } => {
                self.event_queue.push(MqttEvent::PublishAcked { packet_id });
                assert(self@.events =~= old(self)@.events.push(
                    MqttEventModel::PublishAcked { packet_id },
                ));
            },
            Packet::Pubrec { packet_id } => {
                let mut pubrel = build_pubrel(packet_id);
                self.tx_buffer.append(&mut pubrel);
            },
            Packet::Pubrel { packet_id } => {
                let mut pubcomp = build_pubcomp(packet_id);
                self.tx_buffer.append(&mut pubcomp);
            },
            Packet::Pubcomp { packet_id } => {
                self.event_queue.push(MqttEvent::PublishComplete { packet_id });
                assert(self@.events =~= old(self)@.events.push(
                    MqttEventModel::PublishComplete { packet_id },
                ));
            },
            Packet::Suback { packet_id, .. } => {
                self.event_queue.push(MqttEvent::Subscribed { packet_id });
                assert(self@.events =~= old(self)@.events.push(
                    MqttEventModel::Subscribed { packet_id },
                ));
            },
            Packet::Unsuback { .. } => {},
            Packet::Pingresp => {},
        }
        assert(final(self)@ =~= spec_handle_packet(old(self)@, packet@));
    }

    /// Append transport bytes to the receive accumulator, then parse and
    /// handle every complete packet at its front.  `Incomplete` stops the
    /// loop with the partial packet kept for later; any other parse error
    /// abandons the whole accumulator and emits a protocol error event.
    pub fn process_data(&mut self, data: &[u8])
        ensures
            final(self)@ == spec_process(old(self)@, data@),
    {
        self.rx_buffer.extend_from_slice(data);
        assert(self@ =~= (ClientModel { rx: old(self)@.rx + data@, ..old(self)@ }));
        let ghost target = spec_drain(self@);

        loop
            invariant
                spec_drain(self@) == target,
            ensures
                self@ == target,
            decreases self.rx_buffer@.len(),
        {
            let ghost m_pre = self@;
            let parse_result = parse_packet(self.rx_buffer.as_slice());
            match parse_result {
                Ok((packet, consumed)) => {
                    proof {
                        crate::packet::lemma_parse_consumed_bounds(m_pre.rx);
                    }
                    let ghost pm = packet@;
                    self.handle_packet(packet);
                    let rest = self.rx_buffer.split_off(consumed);
                    self.rx_buffer = rest;
                    proof {
                        assert(self@ =~= (ClientModel {
                            rx: m_pre.rx.skip(consumed as int),
                            ..spec_handle_packet(m_pre, pm)
                        }));
                        assert(spec_drain(m_pre) == spec_drain(self@));
                    }
                },
                Err(e) => {
                    if e == ParseError::Incomplete {
                        proof {
                            assert(spec_drain(self@) == self@);
                        }
                        break ;
                    } else {
                        self.rx_buffer.clear();
                        self.event_queue.push(parse_error_event(e));
                        proof {
                            assert(self@ =~= (ClientModel {
                                rx: Seq::<u8>::empty(),
                                events: m_pre.events.push(spec_parse_error_event(e)),
                                ..m_pre
                            }));
                            assert(spec_drain(m_pre) == self@);
                            assert(spec_drain(self@) == self@);
                        }
                        break ;
                    }
                },
            }
        }
    }

    /// Pop the oldest pending event, if any.
    pub fn poll(&mut self) -> (r: Option<MqttEvent>)
        ensures
            old(self)@.events.len() == 0 ==> r is None && final(self)@ == old(self)@,
            old(self)@.events.len() > 0 ==> (r matches Some(e) && e@ == old(self)@.events[0]
                && final(self)@ == (ClientModel {
                events: old(self)@.events.drop_first(),
                ..old(self)@
            })),
    {
        if self.event_queue.len() == 0 {
            assert(final(self)@ =~= old(self)@);
            None
        } else {
            let e = self.event_queue.remove(0);
            assert(self@.events =~= old(self)@.events.drop_first());
            Some(e)
        }
    }
}

// ===========================================================================
// Laws of the receive path
// ===========================================================================

/// Incremental framing, the silent half: with an empty accumulator, feeding
/// any strict prefix of a complete packet only buffers the bytes.  No event
/// is emitted, nothing else changes.
pub proof fn lemma_framing_prefix_is_silent(m: ClientModel, p: Seq<u8>, i: int)
    requires
        m.rx.len() == 0,
        spec_parse_packet(p) is Ok,
        spec_parse_packet(p)->Ok_0.1 == p.len(),
        0 <= i < p.len(),
    ensures
        spec_process(m, p.take(i)) == (ClientModel { rx: p.take(i), ..m }),
{
    crate::packet::lemma_parse_prefix_incomplete(p, i);
    assert(m.rx + p.take(i) =~= p.take(i));
    assert(spec_drain(ClientModel { rx: p.take(i), ..m }) == (ClientModel { rx: p.take(i), ..m }));
}

/// Incremental framing, the completion half: feeding the remainder of a
/// byte sequence to a client that has buffered a prefix of it ends in the
/// same state as feeding the whole sequence at once.  In particular, a
/// packet fed one byte at a time is handled exactly once, when its final
/// byte arrives.
pub proof fn lemma_framing_completion(m: ClientModel, p: Seq<u8>, i: int)
    requires
        m.rx.len() == 0,
        0 <= i <= p.len(),
    ensures
        spec_process(ClientModel { rx: p.take(i), ..m }, p.skip(i)) == spec_process(m, p),
{
    assert(p.take(i) + p.skip(i) =~= p);
    assert(m.rx + p =~= p);
}

/// With an empty accumulator, one exactly-complete packet is handled once
/// and consumed whole.
pub proof fn lemma_process_complete_packet(m: ClientModel, p: Seq<u8>)
    requires
        m.rx.len() == 0,
        spec_parse_packet(p) is Ok,
        spec_parse_packet(p)->Ok_0.1 == p.len(),
    ensures
        spec_process(m, p) == (ClientModel {
            rx: Seq::<u8>::empty(),
            ..spec_handle_packet(ClientModel { rx: p, ..m }, spec_parse_packet(p)->Ok_0.0)
        }),
{
    let pm = spec_parse_packet(p)->Ok_0.0;
    let n = spec_parse_packet(p)->Ok_0.1;
    crate::packet::lemma_parse_consumed_bounds(p);
    assert(m.rx + p =~= p);
    let with_rx = ClientModel { rx: p, ..m };
    let handled = spec_handle_packet(with_rx, pm);
    let consumed = ClientModel { rx: handled.rx.skip(n as int), ..handled };
    assert(handled.rx == p);
    assert(p.skip(p.len() as int) =~= Seq::<u8>::empty());
    assert(spec_drain(consumed) == consumed);
    assert(spec_process(m, p) == consumed);
}

/// The QoS 2 sender handshake, in order: receiving PUBREC emits no public
/// event and queues a PUBREL for the same identifier; receiving PUBCOMP
/// after it emits exactly one `PublishComplete` carrying that identifier.
pub proof fn lemma_qos2_handshake(m: ClientModel, packet_id: u16)
    requires
        m.rx.len() == 0,
    ensures
        spec_process(m, spec_ack_bytes(5, 0, packet_id)) == (ClientModel {
            rx: Seq::<u8>::empty(),
            tx: m.tx + spec_ack_bytes(6, 2, packet_id),
            ..m
        }),
        spec_process(
            spec_process(m, spec_ack_bytes(5, 0, packet_id)),
            spec_ack_bytes(7, 0, packet_id),
        ) == (ClientModel {
            rx: Seq::<u8>::empty(),
            tx: m.tx + spec_ack_bytes(6, 2, packet_id),
            events: m.events.push(MqttEventModel::PublishComplete { packet_id }),
            ..m
        }),
{
    crate::packet::lemma_ack_round_trip(packet_id, Seq::<u8>::empty());
    let pubrec = spec_ack_bytes(5, 0, packet_id);
    let pubcomp = spec_ack_bytes(7, 0, packet_id);
    assert(pubrec + Seq::<u8>::empty() =~= pubrec);
    assert(pubcomp + Seq::<u8>::empty() =~= pubcomp);
    lemma_process_complete_packet(m, pubrec);
    let m1 = spec_process(m, pubrec);
    assert(m1 =~= (ClientModel {
        rx: Seq::<u8>::empty(),
        tx: m.tx + spec_ack_bytes(6, 2, packet_id),
        ..m
    }));
    lemma_process_complete_packet(m1, pubcomp);
    assert(spec_process(m1, pubcomp) =~= (ClientModel {
        rx: Seq::<u8>::empty(),
        tx: m.tx + spec_ack_bytes(6, 2, packet_id),
        events: m.events.push(MqttEventModel::PublishComplete { packet_id }),
        ..m
    }));
}

} // verus!
