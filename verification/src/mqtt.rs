//! The device's MQTT session: which topics it uses, how it answers the
//! messages it receives, and the decisions of the task that keeps the
//! session up.
use vstd::prelude::*;
use vstd::string::StringSliceAdditionalSpecFns;
use vstd::utf8::valid_utf8;

use crate::http::slices_equal;
use crate::text::{str_from_utf8, trim, trim_bounds};

verus! {

pub const TOPIC_CMD: &'static str = "device/cmd";

pub const TOPIC_CONFIG: &'static str = "device/config";

pub const TOPIC_OTA: &'static str = "device/ota";

pub const TOPIC_STATE: &'static str = "device/state";

pub const TOPIC_OFFLINE: &'static str = "device/status/offline";

/// Seconds to wait before reconnecting after a failed connection.
pub const RECONNECT_DELAY_SECS: u64 = 5;

/// Keep-alive interval of the MQTT session, in seconds.
pub const KEEP_ALIVE_SECS: u64 = 5;

/// Timeout of the broker's TCP socket, in seconds.
pub const SOCKET_TIMEOUT_SECS: u64 = 20;

/// Timeout of the MQTT transport, in seconds.
pub const TRANSPORT_TIMEOUT_SECS: u64 = 10;

pub const STATUS_ON: &'static str = "{\"status\":\"on\"}";

pub const STATUS_OFF: &'static str = "{\"status\":\"off\"}";

pub const STATUS_REBOOTING: &'static str = "{\"status\":\"rebooting\"}";

pub const STATUS_UNKNOWN: &'static str = "{\"status\":\"unknown\"}";

pub const STATUS_CONFIGURED: &'static str = "{\"status\":\"configured\"}";

pub const STATUS_UPDATING: &'static str = "{\"status\":\"updating\"}";

pub const STATUS_ONLINE: &'static str = "{\"status\":\"online\"}";

pub const STATUS_OFFLINE: &'static str = "{\"status\":\"offline\"}";

pub const COMMAND_ON: &'static str = "ON";

pub const COMMAND_OFF: &'static str = "OFF";

pub const COMMAND_REBOOT: &'static str = "REBOOT";

/// MQTT delivery guarantee.
#[derive(Clone, Copy, PartialEq, Eq, Structural, Debug)]
pub enum QoS {
    AtMostOnce,
    AtLeastOnce,
}

/// Something that answers messages of some topics.
pub trait MessageHandler {
    /// The topics it answers, by their bytes.
    spec fn handles(&self, topic: Seq<u8>) -> bool;

    /// Its answer to a payload.
    spec fn answer(&self, payload: Seq<u8>) -> Option<&'static str>;

    fn can_handle(&self, topic: &str) -> (r: bool)
        ensures
            r == self.handles(topic.spec_bytes()),
    ;

    fn handle(&self, topic: &str, payload: &[u8]) -> (r: Option<&'static str>)
        ensures
            r == self.answer(payload@),
    ;
}

/// The state answer to a command: the trimmed UTF-8 text `ON`, `OFF` or
/// `REBOOT` gives its status, any other text the unknown status, and a
/// payload that is not UTF-8 no answer.
pub open spec fn command_answer(payload: Seq<u8>) -> Option<&'static str> {
    if !valid_utf8(payload) {
        None
    } else {
        let cmd = trim(payload);
        if cmd == COMMAND_ON.spec_bytes() {
            Some(STATUS_ON)
        } else if cmd == COMMAND_OFF.spec_bytes() {
            Some(STATUS_OFF)
        } else if cmd == COMMAND_REBOOT.spec_bytes() {
            Some(STATUS_REBOOTING)
        } else {
            Some(STATUS_UNKNOWN)
        }
    }
}

/// Compares a topic with one of the device's topics.
pub fn topic_is(topic: &str, expected: &str) -> (r: bool)
    ensures
        r == (topic.spec_bytes() == expected.spec_bytes()),
{
    slices_equal(topic.as_bytes(), expected.as_bytes())
}

/// Device commands: `device/cmd`.
pub struct CmdHandler;

impl MessageHandler for CmdHandler {
    open spec fn handles(&self, topic: Seq<u8>) -> bool {
        topic == TOPIC_CMD.spec_bytes()
    }

    open spec fn answer(&self, payload: Seq<u8>) -> Option<&'static str> {
        command_answer(payload)
    }

    fn can_handle(&self, topic: &str) -> (r: bool) {
        topic_is(topic, TOPIC_CMD)
    }

    fn handle(&self, _topic: &str, payload: &[u8]) -> (r: Option<&'static str>) {
        if str_from_utf8(payload).is_none() {
            return None;
        }
        let (a, b) = trim_bounds(payload);
        let cmd = &payload[a..b];
        if slices_equal(cmd, COMMAND_ON.as_bytes()) {
            Some(STATUS_ON)
        } else if slices_equal(cmd, COMMAND_OFF.as_bytes()) {
            Some(STATUS_OFF)
        } else if slices_equal(cmd, COMMAND_REBOOT.as_bytes()) {
            Some(STATUS_REBOOTING)
        } else {
            Some(STATUS_UNKNOWN)
        }
    }
}

/// Configuration updates: `device/config`.
pub struct ConfigHandler;

impl MessageHandler for ConfigHandler {
    open spec fn handles(&self, topic: Seq<u8>) -> bool {
        topic == TOPIC_CONFIG.spec_bytes()
    }

    open spec fn answer(&self, payload: Seq<u8>) -> Option<&'static str> {
        Some(STATUS_CONFIGURED)
    }

    fn can_handle(&self, topic: &str) -> (r: bool) {
        topic_is(topic, TOPIC_CONFIG)
    }

    fn handle(&self, _topic: &str, _payload: &[u8]) -> (r: Option<&'static str>) {
        Some(STATUS_CONFIGURED)
    }
}

/// Firmware update requests: `device/ota`.
pub struct OtaHandler;

impl MessageHandler for OtaHandler {
    open spec fn handles(&self, topic: Seq<u8>) -> bool {
        topic == TOPIC_OTA.spec_bytes()
    }

    open spec fn answer(&self, payload: Seq<u8>) -> Option<&'static str> {
        Some(STATUS_UPDATING)
    }

    fn can_handle(&self, topic: &str) -> (r: bool) {
        topic_is(topic, TOPIC_OTA)
    }

    fn handle(&self, _topic: &str, _payload: &[u8]) -> (r: Option<&'static str>) {
        Some(STATUS_UPDATING)
    }
}

/// The handlers, in the order in which they are asked.
#[derive(Clone, Copy, PartialEq, Eq, Structural, Debug)]
pub enum HandlerKind {
    Cmd,
    Config,
    Ota,
}

/// The answer to a message: that of the first handler, in the order
/// commands, configuration, firmware update, that handles its topic; no
/// answer for any other topic.
pub open spec fn message_answer(topic: Seq<u8>, payload: Seq<u8>) -> Option<&'static str> {
    if CmdHandler.handles(topic) {
        CmdHandler.answer(payload)
    } else if ConfigHandler.handles(topic) {
        ConfigHandler.answer(payload)
    } else if OtaHandler.handles(topic) {
        OtaHandler.answer(payload)
    } else {
        None
    }
}

pub open spec fn handler_handles(kind: HandlerKind, topic: Seq<u8>) -> bool {
    match kind {
        HandlerKind::Cmd => CmdHandler.handles(topic),
        HandlerKind::Config => ConfigHandler.handles(topic),
        HandlerKind::Ota => OtaHandler.handles(topic),
    }
}

pub open spec fn handler_answer(kind: HandlerKind, payload: Seq<u8>) -> Option<&'static str> {
    match kind {
        HandlerKind::Cmd => CmdHandler.answer(payload),
        HandlerKind::Config => ConfigHandler.answer(payload),
        HandlerKind::Ota => OtaHandler.answer(payload),
    }
}

/// Dispatches received messages to the handler of their topic.
pub struct HandlerManager {
    pub handlers: [HandlerKind; 3],
}

impl HandlerManager {
    pub open spec fn standard(&self) -> bool {
        self.handlers@ == seq![HandlerKind::Cmd, HandlerKind::Config, HandlerKind::Ota]
    }

    pub fn new() -> (r: Self)
        ensures
            r.standard(),
    {
        let r = HandlerManager { handlers: [HandlerKind::Cmd, HandlerKind::Config, HandlerKind::Ota] };
        assert(r.handlers@ =~= seq![HandlerKind::Cmd, HandlerKind::Config, HandlerKind::Ota]);
        r
    }

    /// The state answer to a message, if its topic has a handler that gives
    /// one.
    pub fn process(&self, topic: &str, payload: &[u8]) -> (r: Option<&'static str>)
        requires
            self.standard(),
        ensures
            r == message_answer(topic.spec_bytes(), payload@),
    {
        let mut i: usize = 0;
        while i < 3
            invariant
                i <= 3,
                self.standard(),
                forall|k: int| 0 <= k < i ==> !handler_handles(#[trigger] self.handlers@[k], topic.spec_bytes()),
            decreases 3 - i,
        {
            let kind = self.handlers[i];
            let (handles, answer) = match kind {
                HandlerKind::Cmd => (CmdHandler.can_handle(topic), CmdHandler.handle(topic, payload)),
                HandlerKind::Config => (ConfigHandler.can_handle(topic), ConfigHandler.handle(topic, payload)),
                HandlerKind::Ota => (OtaHandler.can_handle(topic), OtaHandler.handle(topic, payload)),
            };
            if handles {
                assert(self.handlers@[i as int] == kind);
                return answer;
            }
            i += 1;
        }
        assert(!handler_handles(self.handlers@[0], topic.spec_bytes()));
        assert(!handler_handles(self.handlers@[1], topic.spec_bytes()));
        assert(!handler_handles(self.handlers@[2], topic.spec_bytes()));
        None
    }
}

/// The topics subscribed after connecting, in order.
pub open spec fn subscription_topics() -> Seq<&'static str> {
    seq![TOPIC_CMD, TOPIC_CONFIG, TOPIC_OTA]
}

pub const SUBSCRIPTION_COUNT: usize = 3;

/// The `i`-th topic subscribed after connecting.
pub fn subscription_topic(i: usize) -> (r: &'static str)
    requires
        i < SUBSCRIPTION_COUNT,
    ensures
        r == subscription_topics()[i as int],
{
    if i == 0 {
        TOPIC_CMD
    } else if i == 1 {
        TOPIC_CONFIG
    } else {
        TOPIC_OTA
    }
}

/// Where the session task stands.
#[derive(Clone, Copy, PartialEq, Eq, Structural, Debug)]
pub enum SessionPhase {
    /// Opening the TCP connection to the broker.
    Connecting,
    /// Waiting before the next connection attempt.
    WaitingToReconnect,
    /// Sending the MQTT connect, with the offline status as last will.
    Handshaking,
    /// Subscribing to the topic of this index.
    Subscribing(usize),
    /// Publishing the online status.
    Announcing,
    /// Waiting for the next message from the broker.
    Polling,
    /// Publishing the answer to a message.
    Replying,
}

/// What the session task has just learned.
pub enum SessionEvent<'a> {
    TcpConnected,
    TcpConnectFailed,
    ReconnectDelayElapsed,
    MqttConnected,
    MqttConnectFailed,
    /// A subscription was answered, successfully or not.
    Subscribed,
    /// A publication was sent, successfully or not.
    Published,
    /// A message arrived.
    Message { topic: &'a str, payload: &'a [u8] },
    /// Polling returned without a message.
    Idle,
    /// Polling failed.
    PollFailed,
}

/// What the session task does next.
#[derive(Clone, Copy)]
pub enum SessionAction {
    /// Open a new TCP connection to the broker at this address and port.
    OpenConnection { broker_ip: [u8; 4], port: u16 },
    /// Wait `RECONNECT_DELAY_SECS`, then report the delay elapsed.
    WaitToReconnect,
    /// Connect the MQTT session with this client id and keep-alive, leaving
    /// this last will with the broker.
    ConnectMqtt {
        client_id: &'static str,
        keep_alive_secs: u64,
        will_topic: &'static str,
        will_payload: &'static str,
        will_qos: QoS,
        will_retain: bool,
    },
    Subscribe { topic: &'static str, qos: QoS },
    Publish { topic: &'static str, payload: &'static str, qos: QoS },
    /// Poll the broker.
    Poll,
}

/// Where the broker is and who the device is to it, as configured when
/// the firmware is built.
#[derive(Clone, Copy)]
pub struct BrokerSettings {
    pub broker_ip: [u8; 4],
    pub port: u16,
    pub client_id: &'static str,
}

/// The task's decisions about its MQTT session.
pub struct MqttSession {
    phase: SessionPhase,
    handlers: HandlerManager,
    settings: BrokerSettings,
}

/// Opening a connection to the configured broker.
pub open spec fn open_connection(settings: BrokerSettings) -> SessionAction {
    SessionAction::OpenConnection { broker_ip: settings.broker_ip, port: settings.port }
}

/// Connecting the MQTT session as the configured client, with the
/// keep-alive and with the offline status, retained and at least once, as
/// last will on the offline topic.
pub open spec fn connect_mqtt(settings: BrokerSettings) -> SessionAction {
    SessionAction::ConnectMqtt {
        client_id: settings.client_id,
        keep_alive_secs: KEEP_ALIVE_SECS,
        will_topic: TOPIC_OFFLINE,
        will_payload: STATUS_OFFLINE,
        will_qos: QoS::AtLeastOnce,
        will_retain: true,
    }
}

/// What the task does on an event, and the phase it moves to; `None` when
/// the event does not belong to the phase (nothing changes then).
pub open spec fn session_transition(
    settings: BrokerSettings,
    phase: SessionPhase,
    event: SessionEvent,
) -> Option<
    (SessionPhase, SessionAction),
> {
    match (phase, event) {
        (SessionPhase::Connecting, SessionEvent::TcpConnected) => Some(
            (SessionPhase::Handshaking, connect_mqtt(settings)),
        ),
        (SessionPhase::Connecting, SessionEvent::TcpConnectFailed) => Some(
            (SessionPhase::WaitingToReconnect, SessionAction::WaitToReconnect),
        ),
        (SessionPhase::WaitingToReconnect, SessionEvent::ReconnectDelayElapsed) => Some(
            (SessionPhase::Connecting, open_connection(settings)),
        ),
        (SessionPhase::Handshaking, SessionEvent::MqttConnected) => Some(
            (
                SessionPhase::Subscribing(0),
                SessionAction::Subscribe { topic: subscription_topics()[0], qos: QoS::AtMostOnce },
            ),
        ),
        (SessionPhase::Handshaking, SessionEvent::MqttConnectFailed) => Some(
            (SessionPhase::WaitingToReconnect, SessionAction::WaitToReconnect),
        ),
        (SessionPhase::Subscribing(i), SessionEvent::Subscribed) => if i + 1 < SUBSCRIPTION_COUNT {
            Some(
                (
                    SessionPhase::Subscribing((i + 1) as usize),
                    SessionAction::Subscribe {
                        topic: subscription_topics()[i + 1],
                        qos: QoS::AtMostOnce,
                    },
                ),
            )
        } else {
            Some(
                (
                    SessionPhase::Announcing,
                    SessionAction::Publish {
                        topic: TOPIC_STATE,
                        payload: STATUS_ONLINE,
                        qos: QoS::AtLeastOnce,
                    },
                ),
            )
        },
        (SessionPhase::Announcing, SessionEvent::Published) => Some(
            (SessionPhase::Polling, SessionAction::Poll),
        ),
        (SessionPhase::Polling, SessionEvent::Message { topic, payload }) => match message_answer(
            topic.spec_bytes(),
            payload@,
        ) {
            Some(answer) => Some(
                (
                    SessionPhase::Replying,
                    SessionAction::Publish {
                        topic: TOPIC_STATE,
                        payload: answer,
                        qos: QoS::AtLeastOnce,
                    },
                ),
            ),
            None => Some((SessionPhase::Polling, SessionAction::Poll)),
        },
        (SessionPhase::Polling, SessionEvent::Idle) => Some(
            (SessionPhase::Polling, SessionAction::Poll),
        ),
        (SessionPhase::Polling, SessionEvent::PollFailed) => Some(
            (SessionPhase::Connecting, open_connection(settings)),
        ),
        (SessionPhase::Replying, SessionEvent::Published) => Some(
            (SessionPhase::Polling, SessionAction::Poll),
        ),
        _ => None,
    }
}

/// On a new connection the task connects as the configured client with
/// the keep-alive and the offline last will; once the session is up it
/// subscribes to the command, configuration and firmware-update topics, in
/// that order and at most once, then announces itself online on the state
/// topic, at least once, then polls.
pub proof fn lemma_session_subscribes_then_announces(settings: BrokerSettings)
    ensures
        session_transition(settings, SessionPhase::Connecting, SessionEvent::TcpConnected)
            == Some(
            (
                SessionPhase::Handshaking,
                SessionAction::ConnectMqtt {
                    client_id: settings.client_id,
                    keep_alive_secs: KEEP_ALIVE_SECS,
                    will_topic: TOPIC_OFFLINE,
                    will_payload: STATUS_OFFLINE,
                    will_qos: QoS::AtLeastOnce,
                    will_retain: true,
                },
            ),
        ),
        session_transition(settings, SessionPhase::Handshaking, SessionEvent::MqttConnected)
            == Some(
            (
                SessionPhase::Subscribing(0),
                SessionAction::Subscribe { topic: TOPIC_CMD, qos: QoS::AtMostOnce },
            ),
        ),
        session_transition(settings, SessionPhase::Subscribing(0), SessionEvent::Subscribed)
            == Some(
            (
                SessionPhase::Subscribing(1),
                SessionAction::Subscribe { topic: TOPIC_CONFIG, qos: QoS::AtMostOnce },
            ),
        ),
        session_transition(settings, SessionPhase::Subscribing(1), SessionEvent::Subscribed)
            == Some(
            (
                SessionPhase::Subscribing(2),
                SessionAction::Subscribe { topic: TOPIC_OTA, qos: QoS::AtMostOnce },
            ),
        ),
        session_transition(settings, SessionPhase::Subscribing(2), SessionEvent::Subscribed)
            == Some(
            (
                SessionPhase::Announcing,
                SessionAction::Publish {
                    topic: TOPIC_STATE,
                    payload: STATUS_ONLINE,
                    qos: QoS::AtLeastOnce,
                },
            ),
        ),
        session_transition(settings, SessionPhase::Announcing, SessionEvent::Published) == Some(
            (SessionPhase::Polling, SessionAction::Poll),
        ),
{
}

/// A failed poll drops the session and opens a new connection to the
/// configured broker at once; failed connection attempts wait before the
/// next one.
pub proof fn lemma_session_recovers(settings: BrokerSettings)
    ensures
        session_transition(settings, SessionPhase::Polling, SessionEvent::PollFailed) == Some(
            (
                SessionPhase::Connecting,
                SessionAction::OpenConnection { broker_ip: settings.broker_ip, port: settings.port },
            ),
        ),
        session_transition(settings, SessionPhase::Connecting, SessionEvent::TcpConnectFailed)
            == Some((SessionPhase::WaitingToReconnect, SessionAction::WaitToReconnect)),
        session_transition(settings, SessionPhase::Handshaking, SessionEvent::MqttConnectFailed)
            == Some((SessionPhase::WaitingToReconnect, SessionAction::WaitToReconnect)),
        session_transition(
            settings,
            SessionPhase::WaitingToReconnect,
            SessionEvent::ReconnectDelayElapsed,
        ) == Some(
            (
                SessionPhase::Connecting,
                SessionAction::OpenConnection { broker_ip: settings.broker_ip, port: settings.port },
            ),
        ),
{
}

impl MqttSession {
    pub closed spec fn phase(&self) -> SessionPhase {
        self.phase
    }

    pub closed spec fn settings(&self) -> BrokerSettings {
        self.settings
    }

    pub closed spec fn wf(&self) -> bool {
        &&& self.handlers.standard()
        &&& self.phase matches SessionPhase::Subscribing(i) ==> i < SUBSCRIPTION_COUNT
    }

    /// A session with the broker of `settings`, about to open its first
    /// connection.
    pub fn new(settings: BrokerSettings) -> (r: (Self, SessionAction))
        ensures
            r.0.wf(),
            r.0.phase() == SessionPhase::Connecting,
            r.0.settings() == settings,
            r.1 == open_connection(settings),
    {
        (
            MqttSession { phase: SessionPhase::Connecting, handlers: HandlerManager::new(), settings },
            SessionAction::OpenConnection { broker_ip: settings.broker_ip, port: settings.port },
        )
    }

    /// Opening a connection to the broker.
    fn open_connection_action(&self) -> (r: SessionAction)
        ensures
            r == open_connection(self.settings()),
    {
        SessionAction::OpenConnection { broker_ip: self.settings.broker_ip, port: self.settings.port }
    }

    /// Takes in what the task learned and says what it does next.
    pub fn step(&mut self, event: SessionEvent) -> (r: Option<SessionAction>)
        requires
            old(self).wf(),
        ensures
            final(self).wf(),
            final(self).settings() == old(self).settings(),
            match session_transition(old(self).settings(), old(self).phase(), event) {
                Some((phase, action)) => final(self).phase() == phase && r == Some(action),
                None => final(self).phase() == old(self).phase() && r is None,
            },
    {
        match (self.phase, event) {
            (SessionPhase::Connecting, SessionEvent::TcpConnected) => {
                self.phase = SessionPhase::Handshaking;
                Some(
                    SessionAction::ConnectMqtt {
                        client_id: self.settings.client_id,
                        keep_alive_secs: KEEP_ALIVE_SECS,
                        will_topic: TOPIC_OFFLINE,
                        will_payload: STATUS_OFFLINE,
                        will_qos: QoS::AtLeastOnce,
                        will_retain: true,
                    },
                )
            },
            (SessionPhase::Connecting, SessionEvent::TcpConnectFailed) => {
                self.phase = SessionPhase::WaitingToReconnect;
                Some(SessionAction::WaitToReconnect)
            },
            (SessionPhase::WaitingToReconnect, SessionEvent::ReconnectDelayElapsed) => {
                self.phase = SessionPhase::Connecting;
                Some(self.open_connection_action())
            },
            (SessionPhase::Handshaking, SessionEvent::MqttConnected) => {
                self.phase = SessionPhase::Subscribing(0);
                Some(SessionAction::Subscribe { topic: subscription_topic(0), qos: QoS::AtMostOnce })
            },
            (SessionPhase::Handshaking, SessionEvent::MqttConnectFailed) => {
                self.phase = SessionPhase::WaitingToReconnect;
                Some(SessionAction::WaitToReconnect)
            },
            (SessionPhase::Subscribing(i), SessionEvent::Subscribed) => {
                if i + 1 < SUBSCRIPTION_COUNT {
                    self.phase = SessionPhase::Subscribing(i + 1);
                    Some(SessionAction::Subscribe { topic: subscription_topic(i + 1), qos: QoS::AtMostOnce })
                } else {
                    self.phase = SessionPhase::Announcing;
                    Some(
                        SessionAction::Publish {
                            topic: TOPIC_STATE,
                            payload: STATUS_ONLINE,
                            qos: QoS::AtLeastOnce,
                        },
                    )
                }
            },
            (SessionPhase::Announcing, SessionEvent::Published) => {
                self.phase = SessionPhase::Polling;
                Some(SessionAction::Poll)
            },
            (SessionPhase::Polling, SessionEvent::Message { topic, payload }) => {
                match self.handlers.process(topic, payload) {
                    Some(answer) => {
                        self.phase = SessionPhase::Replying;
                        Some(SessionAction::Publish { topic: TOPIC_STATE, payload: answer, qos: QoS::AtLeastOnce })
                    },
                    None => Some(SessionAction::Poll),
                }
            },
            (SessionPhase::Polling, SessionEvent::Idle) => Some(SessionAction::Poll),
            (SessionPhase::Polling, SessionEvent::PollFailed) => {
                self.phase = SessionPhase::Connecting;
                Some(self.open_connection_action())
            },
            (SessionPhase::Replying, SessionEvent::Published) => {
                self.phase = SessionPhase::Polling;
                Some(SessionAction::Poll)
            },
            _ => None,
        }
    }
}

} // verus!
