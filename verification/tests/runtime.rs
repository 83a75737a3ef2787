use esp32_netcfg::mqtt::QoS;
use esp32_netcfg::runtime::{
    MqttRuntime, RuntimeAction, RuntimeError, RuntimeEvent, RuntimePhase, RuntimeState,
};

#[test]
fn runtime_connects_subscribes_and_ticks() {
    let mut rt = MqttRuntime::new(7u32);
    assert_eq!(*rt.module(), 7);
    assert_eq!(rt.start(true), RuntimeAction::SetLastWill);
    assert_eq!(rt.step(RuntimeEvent::Done(true)), Some(RuntimeAction::Connect));
    assert_eq!(rt.step(RuntimeEvent::Connected { topics: 2 }), Some(RuntimeAction::Subscribe { index: 0, qos: QoS::AtMostOnce }));
    assert_eq!(rt.step(RuntimeEvent::Done(true)), Some(RuntimeAction::Subscribe { index: 1, qos: QoS::AtMostOnce }));
    assert_eq!(rt.step(RuntimeEvent::Done(true)), Some(RuntimeAction::StartModule));
    assert_eq!(rt.step(RuntimeEvent::Done(true)), Some(RuntimeAction::TickModule));
    assert_eq!(
        rt.step(RuntimeEvent::Ticked { now: 1000, interval: 250 }),
        Some(RuntimeAction::FlushRequests)
    );
    assert_eq!(rt.step(RuntimeEvent::Flushed { now: 1100 }), Some(RuntimeAction::Wait(150)));
    assert_eq!(rt.step(RuntimeEvent::Polled { needs_publish: false }), Some(RuntimeAction::FlushRequests));
    assert_eq!(rt.step(RuntimeEvent::Flushed { now: 1300 }), Some(RuntimeAction::Wait(0)));
    assert_eq!(rt.step(RuntimeEvent::TimerFired), Some(RuntimeAction::TickModule));
}

#[test]
fn runtime_publishes_requests_and_module_output() {
    let mut rt = MqttRuntime::new(());
    assert_eq!(rt.start(false), RuntimeAction::Connect);
    assert_eq!(rt.step(RuntimeEvent::Connected { topics: 0 }), Some(RuntimeAction::StartModule));
    rt.step(RuntimeEvent::Done(true));
    rt.step(RuntimeEvent::Ticked { now: 0, interval: 10 });
    rt.step(RuntimeEvent::Flushed { now: 0 });
    assert_eq!(rt.step(RuntimeEvent::Request), Some(RuntimeAction::PublishRequest));
    assert_eq!(rt.step(RuntimeEvent::Done(true)), Some(RuntimeAction::FlushRequests));
    rt.step(RuntimeEvent::Flushed { now: 4 });
    assert_eq!(rt.step(RuntimeEvent::Polled { needs_publish: true }), Some(RuntimeAction::PublishModule));
    assert_eq!(rt.step(RuntimeEvent::Done(true)), Some(RuntimeAction::FlushRequests));
    // An event that does not belong to the phase changes nothing.
    assert_eq!(rt.step(RuntimeEvent::TimerFired), None);
    assert_eq!(rt.step(RuntimeEvent::Flushed { now: 5 }), Some(RuntimeAction::Wait(5)));
}

#[test]
fn runtime_stops_on_failures() {
    let mut rt = MqttRuntime::new(0u8);
    rt.start(true);
    assert_eq!(
        rt.step(RuntimeEvent::Done(false)),
        Some(RuntimeAction::Stop(RuntimeError::BufferTooSmall))
    );
    assert_eq!(rt.step(RuntimeEvent::Done(true)), None);

    let mut rt = MqttRuntime::new(0u8);
    rt.start(false);
    assert_eq!(rt.step(RuntimeEvent::Done(false)), Some(RuntimeAction::Stop(RuntimeError::Client)));

    let mut rt = MqttRuntime::new(0u8);
    rt.start(false);
    rt.step(RuntimeEvent::Connected { topics: 3 });
    rt.step(RuntimeEvent::Done(true));
    assert_eq!(rt.step(RuntimeEvent::Done(false)), Some(RuntimeAction::Stop(RuntimeError::Client)));
}

#[test]
fn idle_runtime_ignores_events_and_module_is_mutable() {
    let mut rt = MqttRuntime::new(1i32);
    assert_eq!(rt.step(RuntimeEvent::Done(false)), None);
    *rt.module_mut() += 41;
    assert_eq!(*rt.module(), 42);
    let s = RuntimeState { phase: RuntimePhase::Waiting, topics: 1, deadline: 9 };
    assert_eq!(s.phase, RuntimePhase::Waiting);
}
