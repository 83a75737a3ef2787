use esp32_netcfg::mqtt::{
    BrokerSettings, KEEP_ALIVE_SECS, STATUS_OFFLINE, TOPIC_OFFLINE,
    subscription_topic, topic_is, CmdHandler, ConfigHandler, HandlerManager, MessageHandler,
    MqttSession, OtaHandler, QoS, SessionAction, SessionEvent, STATUS_CONFIGURED, STATUS_OFF,
    STATUS_ON, STATUS_ONLINE, STATUS_REBOOTING, STATUS_UNKNOWN, STATUS_UPDATING, SUBSCRIPTION_COUNT,
    TOPIC_CMD, TOPIC_CONFIG, TOPIC_OTA, TOPIC_STATE,
};

#[test]
fn command_handler_answers_commands() {
    let h = CmdHandler;
    assert!(h.can_handle("device/cmd"));
    assert!(!h.can_handle("device/cmd/x"));
    assert_eq!(h.handle(TOPIC_CMD, b"ON"), Some(STATUS_ON));
    assert_eq!(h.handle(TOPIC_CMD, b"  OFF\r\n"), Some(STATUS_OFF));
    assert_eq!(h.handle(TOPIC_CMD, b"REBOOT"), Some(STATUS_REBOOTING));
    assert_eq!(h.handle(TOPIC_CMD, b"on"), Some(STATUS_UNKNOWN));
    assert_eq!(h.handle(TOPIC_CMD, b""), Some(STATUS_UNKNOWN));
    assert_eq!(h.handle(TOPIC_CMD, b"\xffON"), None);
}

#[test]
fn other_handlers_answer_any_payload() {
    assert!(ConfigHandler.can_handle(TOPIC_CONFIG));
    assert!(!ConfigHandler.can_handle(TOPIC_CMD));
    assert_eq!(ConfigHandler.handle(TOPIC_CONFIG, b"\xff"), Some(STATUS_CONFIGURED));
    assert!(OtaHandler.can_handle(TOPIC_OTA));
    assert_eq!(OtaHandler.handle(TOPIC_OTA, b"v2"), Some(STATUS_UPDATING));
}

#[test]
fn manager_dispatches_by_topic() {
    let m = HandlerManager::new();
    assert_eq!(m.process("device/cmd", b"ON"), Some(STATUS_ON));
    assert_eq!(m.process("device/config", b"{}"), Some(STATUS_CONFIGURED));
    assert_eq!(m.process("device/ota", b""), Some(STATUS_UPDATING));
    assert_eq!(m.process("device/state", b"ON"), None);
    assert_eq!(m.process("", b""), None);
}

#[test]
fn topics_compare_exactly() {
    assert!(topic_is("device/ota", TOPIC_OTA));
    assert!(!topic_is("device/OTA", TOPIC_OTA));
    assert_eq!(SUBSCRIPTION_COUNT, 3);
    assert_eq!(subscription_topic(0), TOPIC_CMD);
    assert_eq!(subscription_topic(1), TOPIC_CONFIG);
    assert_eq!(subscription_topic(2), TOPIC_OTA);
}

const SETTINGS: BrokerSettings =
    BrokerSettings { broker_ip: [10, 0, 0, 7], port: 1884, client_id: "node-7" };

fn subscribe_topic(a: Option<SessionAction>) -> Option<&'static str> {
    match a {
        Some(SessionAction::Subscribe { topic, qos: QoS::AtMostOnce }) => Some(topic),
        _ => None,
    }
}

fn publish(a: Option<SessionAction>) -> Option<(&'static str, &'static str)> {
    match a {
        Some(SessionAction::Publish { topic, payload, qos: QoS::AtLeastOnce }) => Some((topic, payload)),
        _ => None,
    }
}

#[test]
fn session_connects_subscribes_and_announces() {
    let (mut s, first) = MqttSession::new(SETTINGS);
    assert!(matches!(
        first,
        SessionAction::OpenConnection { broker_ip: [10, 0, 0, 7], port: 1884 }
    ));
    match s.step(SessionEvent::TcpConnected) {
        Some(SessionAction::ConnectMqtt {
            client_id,
            keep_alive_secs,
            will_topic,
            will_payload,
            will_qos: QoS::AtLeastOnce,
            will_retain: true,
        }) => {
            assert_eq!(client_id, "node-7");
            assert_eq!(keep_alive_secs, KEEP_ALIVE_SECS);
            assert_eq!(keep_alive_secs, 5);
            assert_eq!(will_topic, TOPIC_OFFLINE);
            assert_eq!(will_topic, "device/status/offline");
            assert_eq!(will_payload, STATUS_OFFLINE);
        }
        _ => panic!("expected the MQTT connect"),
    }
    assert_eq!(subscribe_topic(s.step(SessionEvent::MqttConnected)), Some(TOPIC_CMD));
    assert_eq!(subscribe_topic(s.step(SessionEvent::Subscribed)), Some(TOPIC_CONFIG));
    assert_eq!(subscribe_topic(s.step(SessionEvent::Subscribed)), Some(TOPIC_OTA));
    assert_eq!(publish(s.step(SessionEvent::Subscribed)), Some((TOPIC_STATE, STATUS_ONLINE)));
    assert!(matches!(s.step(SessionEvent::Published), Some(SessionAction::Poll)));
    assert!(matches!(s.step(SessionEvent::Idle), Some(SessionAction::Poll)));
}

#[test]
fn session_answers_messages_on_the_state_topic() {
    let (mut s, _) = MqttSession::new(SETTINGS);
    s.step(SessionEvent::TcpConnected);
    s.step(SessionEvent::MqttConnected);
    s.step(SessionEvent::Subscribed);
    s.step(SessionEvent::Subscribed);
    s.step(SessionEvent::Subscribed);
    s.step(SessionEvent::Published);

    let reply = s.step(SessionEvent::Message { topic: "device/cmd", payload: b"OFF" });
    assert_eq!(publish(reply), Some((TOPIC_STATE, STATUS_OFF)));
    // While replying, a message is not taken.
    assert!(s.step(SessionEvent::Message { topic: "device/cmd", payload: b"ON" }).is_none());
    assert!(matches!(s.step(SessionEvent::Published), Some(SessionAction::Poll)));

    let ignored = s.step(SessionEvent::Message { topic: "elsewhere", payload: b"ON" });
    assert!(matches!(ignored, Some(SessionAction::Poll)));
    let bad = s.step(SessionEvent::Message { topic: "device/cmd", payload: b"\xc3" });
    assert!(matches!(bad, Some(SessionAction::Poll)));
}

#[test]
fn session_recovers_from_failures() {
    let (mut s, _) = MqttSession::new(SETTINGS);
    assert!(matches!(s.step(SessionEvent::TcpConnectFailed), Some(SessionAction::WaitToReconnect)));
    assert!(s.step(SessionEvent::TcpConnected).is_none());
    assert!(matches!(s.step(SessionEvent::ReconnectDelayElapsed), Some(SessionAction::OpenConnection { broker_ip: [10, 0, 0, 7], port: 1884 })));
    s.step(SessionEvent::TcpConnected);
    assert!(matches!(s.step(SessionEvent::MqttConnectFailed), Some(SessionAction::WaitToReconnect)));
    s.step(SessionEvent::ReconnectDelayElapsed);
    s.step(SessionEvent::TcpConnected);
    s.step(SessionEvent::MqttConnected);
    s.step(SessionEvent::Subscribed);
    s.step(SessionEvent::Subscribed);
    s.step(SessionEvent::Subscribed);
    s.step(SessionEvent::Published);
    assert!(matches!(s.step(SessionEvent::PollFailed), Some(SessionAction::OpenConnection { broker_ip: [10, 0, 0, 7], port: 1884 })));
    assert!(matches!(s.step(SessionEvent::TcpConnected), Some(SessionAction::ConnectMqtt { client_id: "node-7", .. })));
}
