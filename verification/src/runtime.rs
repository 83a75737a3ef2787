//! The decisions of the MQTT runtime's event loop: connect, subscribe to the
//! topics the module registered, start the module, then multiplex incoming
//! messages, queued publish requests and the module's periodic tick. Times
//! are ticks of the system clock.
use vstd::prelude::*;

use crate::mqtt::QoS;

verus! {

/// Ticks from `now` until `deadline`; none once it has passed.
pub open spec fn ticks_until(now: u64, deadline: u64) -> u64 {
    if now >= deadline {
        0
    } else {
        (deadline - now) as u64
    }
}

/// Ticks from `now` until `deadline`; none once it has passed.
pub fn remaining_until(now: u64, deadline: u64) -> (r: u64)
    ensures
        r == ticks_until(now, deadline),
        now >= deadline ==> r == 0,
        now < deadline ==> r == deadline - now,
{
    if now >= deadline {
        0
    } else {
        deadline - now
    }
}

/// The deadline of the next tick, `interval` ticks from `now`.
pub fn next_tick_deadline(now: u64, interval: u64) -> (r: u64)
    requires
        now + interval <= u64::MAX,
    ensures
        r == now + interval,
{
    now + interval
}

/// Where the event loop stands.
#[derive(Clone, Copy, PartialEq, Eq, Structural, Debug)]
pub enum RuntimePhase {
    /// Not started.
    Idle,
    /// Handing the module's last will to the client.
    SettingLastWill,
    /// Connecting the client to the broker.
    Connecting,
    /// Subscribing to the registered topic of this index.
    Subscribing(usize),
    /// Running the module's start hook and publishing what it queued.
    Starting,
    /// Running the module's tick hook and publishing what it queued.
    Ticking,
    /// Publishing the requests already queued by controllers.
    Flushing,
    /// Waiting for a message, a publish request or the tick deadline.
    Waiting,
    /// Publishing a request received while waiting.
    PublishingRequest,
    /// Running the module's publish hook after a message and publishing
    /// what it queued.
    PublishingModule,
    /// Stopped with an error.
    Stopped,
}

/// Why the event loop stopped.
#[derive(Clone, Copy, PartialEq, Eq, Structural, Debug)]
pub enum RuntimeError {
    /// The module's last will does not fit in the client's buffer.
    BufferTooSmall,
    /// The client failed.
    Client,
}

/// What the event loop has just learned.
#[derive(Clone, Copy, PartialEq, Eq, Structural, Debug)]
pub enum RuntimeEvent {
    /// The step asked for succeeded or failed.
    Done(bool),
    /// The client connected, and the module registered this many topics.
    Connected { topics: usize },
    /// The tick hook asked for the next tick `interval` ticks after `now`,
    /// and what it queued was published.
    Ticked { now: u64, interval: u64 },
    /// The queued requests were published; the time is `now`.
    Flushed { now: u64 },
    /// Polling returned, with a message or without one; `needs_publish`
    /// tells whether the module asked to publish at once.
    Polled { needs_publish: bool },
    /// A publish request arrived.
    Request,
    /// The tick deadline passed.
    TimerFired,
}

/// What the event loop does next.
#[derive(Clone, Copy, PartialEq, Eq, Structural, Debug)]
pub enum RuntimeAction {
    /// Hand the module's last will to the client.
    SetLastWill,
    /// Connect to the broker, then collect the module's topics.
    Connect,
    /// Subscribe to the registered topic of this index, with this delivery
    /// guarantee.
    Subscribe { index: usize, qos: QoS },
    /// Run the start hook and publish what it queued.
    StartModule,
    /// Run the tick hook and publish what it queued.
    TickModule,
    /// Publish the requests already queued.
    FlushRequests,
    /// Wait for a message, a request or this many ticks.
    Wait(u64),
    /// Publish the request received.
    PublishRequest,
    /// Run the publish hook and publish what it queued.
    PublishModule,
    /// Stop with this error.
    Stop(RuntimeError),
}

/// The event loop's state: its phase, the number of registered topics and
/// the deadline of the next tick.
#[derive(Clone, Copy, PartialEq, Eq, Structural, Debug)]
pub struct RuntimeState {
    pub phase: RuntimePhase,
    pub topics: usize,
    pub deadline: u64,
}

pub open spec fn with_phase(s: RuntimeState, phase: RuntimePhase) -> RuntimeState {
    RuntimeState { phase, ..s }
}

/// The stop that a failed step leads to.
pub open spec fn failure(s: RuntimeState) -> Option<(RuntimeState, RuntimeAction)> {
    let error = if s.phase == RuntimePhase::SettingLastWill {
        RuntimeError::BufferTooSmall
    } else {
        RuntimeError::Client
    };
    Some((with_phase(s, RuntimePhase::Stopped), RuntimeAction::Stop(error)))
}

/// What the loop does on an event, and the state it moves to; `None` when
/// the event does not belong to the phase (nothing changes then).
pub open spec fn runtime_transition(s: RuntimeState, e: RuntimeEvent) -> Option<
    (RuntimeState, RuntimeAction),
> {
    match (s.phase, e) {
        (RuntimePhase::SettingLastWill, RuntimeEvent::Done(true)) => Some(
            (with_phase(s, RuntimePhase::Connecting), RuntimeAction::Connect),
        ),
        (RuntimePhase::Connecting, RuntimeEvent::Connected { topics }) => if topics > 0 {
            Some(
                (
                    RuntimeState { phase: RuntimePhase::Subscribing(0), topics, ..s },
                    RuntimeAction::Subscribe { index: 0, qos: QoS::AtMostOnce },
                ),
            )
        } else {
            Some(
                (
                    RuntimeState { phase: RuntimePhase::Starting, topics, ..s },
                    RuntimeAction::StartModule,
                ),
            )
        },
        (RuntimePhase::Subscribing(i), RuntimeEvent::Done(true)) => if i + 1 < s.topics {
            Some(
                (
                    with_phase(s, RuntimePhase::Subscribing((i + 1) as usize)),
                    RuntimeAction::Subscribe { index: (i + 1) as usize, qos: QoS::AtMostOnce },
                ),
            )
        } else {
            Some((with_phase(s, RuntimePhase::Starting), RuntimeAction::StartModule))
        },
        (RuntimePhase::Starting, RuntimeEvent::Done(true)) => Some(
            (with_phase(s, RuntimePhase::Ticking), RuntimeAction::TickModule),
        ),
        (RuntimePhase::Ticking, RuntimeEvent::Ticked { now, interval }) => Some(
            (
                RuntimeState {
                    phase: RuntimePhase::Flushing,
                    deadline: (now + interval) as u64,
                    ..s
                },
                RuntimeAction::FlushRequests,
            ),
        ),
        (RuntimePhase::Flushing, RuntimeEvent::Flushed { now }) => Some(
            (
                with_phase(s, RuntimePhase::Waiting),
                RuntimeAction::Wait(ticks_until(now, s.deadline)),
            ),
        ),
        (RuntimePhase::Waiting, RuntimeEvent::Polled { needs_publish }) => if needs_publish {
            Some((with_phase(s, RuntimePhase::PublishingModule), RuntimeAction::PublishModule))
        } else {
            Some((with_phase(s, RuntimePhase::Flushing), RuntimeAction::FlushRequests))
        },
        (RuntimePhase::Waiting, RuntimeEvent::Request) => Some(
            (with_phase(s, RuntimePhase::PublishingRequest), RuntimeAction::PublishRequest),
        ),
        (RuntimePhase::Waiting, RuntimeEvent::TimerFired) => Some(
            (with_phase(s, RuntimePhase::Ticking), RuntimeAction::TickModule),
        ),
        (RuntimePhase::PublishingRequest, RuntimeEvent::Done(true)) => Some(
            (with_phase(s, RuntimePhase::Flushing), RuntimeAction::FlushRequests),
        ),
        (RuntimePhase::PublishingModule, RuntimeEvent::Done(true)) => Some(
            (with_phase(s, RuntimePhase::Flushing), RuntimeAction::FlushRequests),
        ),
        (RuntimePhase::Idle, _) => None,
        (RuntimePhase::Stopped, _) => None,
        (_, RuntimeEvent::Done(false)) => failure(s),
        _ => None,
    }
}

/// A subscription index stays below the number of registered topics.
pub open spec fn runtime_state_wf(s: RuntimeState) -> bool {
    s.phase matches RuntimePhase::Subscribing(i) ==> i < s.topics
}

/// Every failed step of a started loop stops it: a last will that does
/// not fit with `BufferTooSmall`, any other failure with the client's
/// error.
pub proof fn lemma_runtime_failure_stops(s: RuntimeState)
    requires
        s.phase != RuntimePhase::Idle,
        s.phase != RuntimePhase::Stopped,
    ensures
        runtime_transition(s, RuntimeEvent::Done(false)) matches Some((next, action)) && next.phase
            == RuntimePhase::Stopped && action == RuntimeAction::Stop(
            if s.phase == RuntimePhase::SettingLastWill {
                RuntimeError::BufferTooSmall
            } else {
                RuntimeError::Client
            },
        ),
{
}

/// Once connected, the loop subscribes to every registered topic, in
/// order and at most once, and then starts the module.
pub proof fn lemma_runtime_subscribes_in_order(s: RuntimeState, i: usize)
    requires
        runtime_state_wf(s),
        s.phase == RuntimePhase::Subscribing(i),
    ensures
        i + 1 < s.topics ==> runtime_transition(s, RuntimeEvent::Done(true)) == Some(
            (with_phase(s, RuntimePhase::Subscribing((i + 1) as usize)), RuntimeAction::Subscribe { index: (i + 1) as usize, qos: QoS::AtMostOnce }),
        ),
        i + 1 == s.topics ==> runtime_transition(s, RuntimeEvent::Done(true)) == Some(
            (with_phase(s, RuntimePhase::Starting), RuntimeAction::StartModule),
        ),
{
}

/// The loop never waits past the tick deadline set by the last tick: the
/// wait after publishing queued requests at `now` ends at the deadline,
/// or at once when it has passed.
pub proof fn lemma_runtime_wait_ends_at_deadline(
    s: RuntimeState,
    now: u64,
    tick_now: u64,
    interval: u64,
)
    requires
        s.phase == RuntimePhase::Ticking,
        tick_now + interval <= u64::MAX,
    ensures
        ({
            let (flushing, _) = runtime_transition(
                s,
                RuntimeEvent::Ticked { now: tick_now, interval },
            ).unwrap();
            let (_, action) = runtime_transition(flushing, RuntimeEvent::Flushed { now }).unwrap();
            &&& now < tick_now + interval ==> action == RuntimeAction::Wait(
                (tick_now + interval - now) as u64,
            )
            &&& now >= tick_now + interval ==> action == RuntimeAction::Wait(0)
        }),
{
}

/// The MQTT runtime's event loop decisions, with the module it drives.
pub struct MqttRuntime<M> {
    module: M,
    state: RuntimeState,
}

impl<M> MqttRuntime<M> {
    pub closed spec fn state(&self) -> RuntimeState {
        self.state
    }

    pub closed spec fn module_value(&self) -> M {
        self.module
    }

    /// A runtime that has not started, driving `module`.
    pub fn new(module: M) -> (r: Self)
        ensures
            r.module_value() == module,
            r.state() == (RuntimeState { phase: RuntimePhase::Idle, topics: 0, deadline: 0 }),
    {
        MqttRuntime { module, state: RuntimeState { phase: RuntimePhase::Idle, topics: 0, deadline: 0 } }
    }

    /// Starts the loop: the last will first when the module has one,
    /// otherwise the connection.
    pub fn start(&mut self, has_last_will: bool) -> (r: RuntimeAction)
        ensures
            final(self).module_value() == old(self).module_value(),
            final(self).state() == (RuntimeState {
                phase: if has_last_will {
                    RuntimePhase::SettingLastWill
                } else {
                    RuntimePhase::Connecting
                },
                topics: 0,
                deadline: 0,
            }),
            r == if has_last_will {
                RuntimeAction::SetLastWill
            } else {
                RuntimeAction::Connect
            },
    {
        if has_last_will {
            self.state = RuntimeState { phase: RuntimePhase::SettingLastWill, topics: 0, deadline: 0 };
            RuntimeAction::SetLastWill
        } else {
            self.state = RuntimeState { phase: RuntimePhase::Connecting, topics: 0, deadline: 0 };
            RuntimeAction::Connect
        }
    }

    /// Takes in what the loop learned and says what it does next.
    pub fn step(&mut self, event: RuntimeEvent) -> (r: Option<RuntimeAction>)
        requires
            runtime_state_wf(old(self).state()),
            event matches RuntimeEvent::Ticked { now, interval } ==> now + interval <= u64::MAX,
        ensures
            runtime_state_wf(final(self).state()),
            final(self).module_value() == old(self).module_value(),
            match runtime_transition(old(self).state(), event) {
                Some((next, action)) => final(self).state() == next && r == Some(action),
                None => final(self).state() == old(self).state() && r is None,
            },
    {
        let s = self.state;
        let next: Option<(RuntimeState, RuntimeAction)> = match (s.phase, event) {
            (RuntimePhase::SettingLastWill, RuntimeEvent::Done(true)) => Some(
                (RuntimeState { phase: RuntimePhase::Connecting, ..s }, RuntimeAction::Connect),
            ),
            (RuntimePhase::Connecting, RuntimeEvent::Connected { topics }) => if topics > 0 {
                Some(
                    (
                        RuntimeState { phase: RuntimePhase::Subscribing(0), topics, ..s },
                        RuntimeAction::Subscribe { index: 0, qos: QoS::AtMostOnce },
                    ),
                )
            } else {
                Some(
                    (
                        RuntimeState { phase: RuntimePhase::Starting, topics, ..s },
                        RuntimeAction::StartModule,
                    ),
                )
            },
            (RuntimePhase::Subscribing(i), RuntimeEvent::Done(true)) => if i + 1 < s.topics {
                Some(
                    (
                        RuntimeState { phase: RuntimePhase::Subscribing(i + 1), ..s },
                        RuntimeAction::Subscribe { index: i + 1, qos: QoS::AtMostOnce },
                    ),
                )
            } else {
                Some((RuntimeState { phase: RuntimePhase::Starting, ..s }, RuntimeAction::StartModule))
            },
            (RuntimePhase::Starting, RuntimeEvent::Done(true)) => Some(
                (RuntimeState { phase: RuntimePhase::Ticking, ..s }, RuntimeAction::TickModule),
            ),
            (RuntimePhase::Ticking, RuntimeEvent::Ticked { now, interval }) => Some(
                (
                    RuntimeState {
                        phase: RuntimePhase::Flushing,
                        deadline: next_tick_deadline(now, interval),
                        ..s
                    },
                    RuntimeAction::FlushRequests,
                ),
            ),
            (RuntimePhase::Flushing, RuntimeEvent::Flushed { now }) => Some(
                (
                    RuntimeState { phase: RuntimePhase::Waiting, ..s },
                    RuntimeAction::Wait(remaining_until(now, s.deadline)),
                ),
            ),
            (RuntimePhase::Waiting, RuntimeEvent::Polled { needs_publish }) => if needs_publish {
                Some(
                    (
                        RuntimeState { phase: RuntimePhase::PublishingModule, ..s },
                        RuntimeAction::PublishModule,
                    ),
                )
            } else {
                Some((RuntimeState { phase: RuntimePhase::Flushing, ..s }, RuntimeAction::FlushRequests))
            },
            (RuntimePhase::Waiting, RuntimeEvent::Request) => Some(
                (
                    RuntimeState { phase: RuntimePhase::PublishingRequest, ..s },
                    RuntimeAction::PublishRequest,
                ),
            ),
            (RuntimePhase::Waiting, RuntimeEvent::TimerFired) => Some(
                (RuntimeState { phase: RuntimePhase::Ticking, ..s }, RuntimeAction::TickModule),
            ),
            (RuntimePhase::PublishingRequest, RuntimeEvent::Done(true)) => Some(
                (RuntimeState { phase: RuntimePhase::Flushing, ..s }, RuntimeAction::FlushRequests),
            ),
            (RuntimePhase::PublishingModule, RuntimeEvent::Done(true)) => Some(
                (RuntimeState { phase: RuntimePhase::Flushing, ..s }, RuntimeAction::FlushRequests),
            ),
            (RuntimePhase::Idle, _) => None,
            (RuntimePhase::Stopped, _) => None,
            (_, RuntimeEvent::Done(false)) => {
                let error = if s.phase == RuntimePhase::SettingLastWill {
                    RuntimeError::BufferTooSmall
                } else {
                    RuntimeError::Client
                };
                Some((RuntimeState { phase: RuntimePhase::Stopped, ..s }, RuntimeAction::Stop(error)))
            },
            _ => None,
        };
        match next {
            Some((state, action)) => {
                self.state = state;
                Some(action)
            },
            None => None,
        }
    }

    /// The module driven.
    pub fn module(&self) -> (r: &M)
        ensures
            *r == self.module_value(),
    {
        &self.module
    }

    /// The module driven, to change it.
    pub fn module_mut(&mut self) -> (r: &mut M)
        ensures
            *r == old(self).module_value(),
            final(self).module_value() == *final(r),
            final(self).state() == old(self).state(),
    {
        &mut self.module
    }
}

} // verus!
