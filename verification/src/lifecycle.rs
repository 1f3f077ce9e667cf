//! The server lifecycle: `Starting -> Serving -> Draining -> Stopped`.
//!
//! The transport loop performs the outside work (binding, accepting,
//! completing requests, watching for signals) and feeds each observation in
//! as an [`Event`]; [`Lifecycle::step`] decides the next phase and what to do
//! about the event. A shutdown signal stops the acceptance of new
//! connections; the process exits only once every request in flight has
//! completed.

use vstd::prelude::*;

verus! {

/// The phase of the server process.
#[derive(Clone, Copy, PartialEq, Eq, Structural, Debug)]
pub enum Phase {
    /// Configuration parsed, listener not bound yet.
    Starting,
    /// Accepting and dispatching requests.
    Serving,
    /// A termination signal was observed: no new connections, in-flight
    /// requests run to completion.
    Draining,
    /// Terminal: the process exits.
    Stopped,
}

/// An observation handed in by the transport loop.
#[derive(Clone, Copy, PartialEq, Eq, Structural, Debug)]
pub enum Event {
    /// The listener was bound successfully.
    BindSucceeded,
    /// The listener could not be bound (port in use, invalid address,
    /// permission denied).
    BindFailed,
    /// A new connection asks to be accepted.
    ConnectionArrived,
    /// A request that was in flight has delivered its full response.
    RequestCompleted,
    /// An interrupt or terminate signal was observed.
    ShutdownSignal,
}

/// What the transport loop is told to do in response to an event.
#[derive(Clone, Copy, PartialEq, Eq, Structural, Debug)]
pub enum Effect {
    /// Start accepting connections.
    BeginServing,
    /// Accept the connection and dispatch the request.
    AcceptConnection,
    /// Turn the connection away: the server is draining.
    RefuseConnection,
    /// Exit the process with status 0.
    ExitSuccess,
    /// Report the startup failure and exit with a non-zero status.
    ExitFailure,
    /// Nothing to do for this event in this phase.
    Ignore,
}

/// The lifecycle state: the current phase and how many requests are in
/// flight.
#[derive(Clone, Copy, PartialEq, Eq, Structural, Debug)]
pub struct Lifecycle {
    pub phase: Phase,
    pub in_flight: u64,
}

/// Requests are only ever in flight while the server is serving or draining.
pub open spec fn inv(s: Lifecycle) -> bool {
    (s.phase == Phase::Starting || s.phase == Phase::Stopped) ==> s.in_flight == 0
}

/// The transition function of the lifecycle machine, one case per
/// (phase, event) pair.
pub open spec fn step_spec(s: Lifecycle, e: Event) -> (Lifecycle, Effect) {
    match (s.phase, e) {
        (Phase::Starting, Event::BindSucceeded) => (
            Lifecycle { phase: Phase::Serving, ..s },
            Effect::BeginServing,
        ),
        (Phase::Starting, Event::BindFailed) => (
            Lifecycle { phase: Phase::Stopped, ..s },
            Effect::ExitFailure,
        ),
        (Phase::Serving, Event::ConnectionArrived) => (
            Lifecycle { in_flight: (s.in_flight + 1) as u64, ..s },
            Effect::AcceptConnection,
        ),
        (Phase::Serving, Event::RequestCompleted) => (
            if s.in_flight > 0 {
                Lifecycle { in_flight: (s.in_flight - 1) as u64, ..s }
            } else {
                s
            },
            Effect::Ignore,
        ),
        (Phase::Serving, Event::ShutdownSignal) => (
            if s.in_flight == 0 {
                Lifecycle { phase: Phase::Stopped, ..s }
            } else {
                Lifecycle { phase: Phase::Draining, ..s }
            },
            if s.in_flight == 0 {
                Effect::ExitSuccess
            } else {
                Effect::RefuseConnection
            },
        ),
        (Phase::Draining, Event::ConnectionArrived) => (s, Effect::RefuseConnection),
        (Phase::Draining, Event::RequestCompleted) => (
            if s.in_flight <= 1 {
                Lifecycle { phase: Phase::Stopped, in_flight: 0 }
            } else {
                Lifecycle { in_flight: (s.in_flight - 1) as u64, ..s }
            },
            if s.in_flight <= 1 {
                Effect::ExitSuccess
            } else {
                Effect::Ignore
            },
        ),
        (Phase::Draining, Event::ShutdownSignal) => (s, Effect::Ignore),
        _ => (s, Effect::Ignore),
    }
}

impl Lifecycle {
    /// A fresh lifecycle: configuration parsed, nothing bound, nothing in
    /// flight.
    pub fn new() -> (s: Lifecycle)
        ensures
            s.phase == Phase::Starting,
            s.in_flight == 0,
            inv(s),
    {
        Lifecycle { phase: Phase::Starting, in_flight: 0 }
    }

    /// Advance the machine by one observed event and say what to do about it.
    pub fn step(&mut self, e: Event) -> (eff: Effect)
        requires
            old(self).in_flight < u64::MAX,
        ensures
            (*final(self), eff) == step_spec(*old(self), e),
            inv(*old(self)) ==> inv(*final(self)),
    {
        match (self.phase, e) {
            (Phase::Starting, Event::BindSucceeded) => {
                self.phase = Phase::Serving;
                Effect::BeginServing
            },
            (Phase::Starting, Event::BindFailed) => {
                self.phase = Phase::Stopped;
                Effect::ExitFailure
            },
            (Phase::Serving, Event::ConnectionArrived) => {
                self.in_flight = self.in_flight + 1;
                Effect::AcceptConnection
            },
            (Phase::Serving, Event::RequestCompleted) => {
                if self.in_flight > 0 {
                    self.in_flight = self.in_flight - 1;
                }
                Effect::Ignore
            },
            (Phase::Serving, Event::ShutdownSignal) => {
                if self.in_flight == 0 {
                    self.phase = Phase::Stopped;
                    Effect::ExitSuccess
                } else {
                    self.phase = Phase::Draining;
                    Effect::RefuseConnection
                }
            },
            (Phase::Draining, Event::ConnectionArrived) => Effect::RefuseConnection,
            (Phase::Draining, Event::RequestCompleted) => {
                if self.in_flight <= 1 {
                    self.phase = Phase::Stopped;
                    self.in_flight = 0;
                    Effect::ExitSuccess
                } else {
                    self.in_flight = self.in_flight - 1;
                    Effect::Ignore
                }
            },
            (Phase::Draining, Event::ShutdownSignal) => Effect::Ignore,
            _ => Effect::Ignore,
        }
    }
}

/// While the server drains, no connection is accepted: a connection that
/// arrives after a shutdown signal is refused and leaves the state unchanged.
pub proof fn lemma_draining_refuses_connections(s: Lifecycle)
    requires
        s.phase == Phase::Draining,
    ensures
        step_spec(s, Event::ConnectionArrived).1 == Effect::RefuseConnection,
        step_spec(s, Event::ConnectionArrived).0 == s,
{
}

/// Whichever signal arrives first wins: a further shutdown signal during the
/// drain changes nothing and has no effect.
pub proof fn lemma_second_signal_has_no_effect(s: Lifecycle)
    requires
        s.phase == Phase::Draining,
    ensures
        step_spec(s, Event::ShutdownSignal).0 == s,
        step_spec(s, Event::ShutdownSignal).1 == Effect::Ignore,
{
}

/// The process exits with status 0 only once every request in flight has
/// delivered its response: a successful exit leaves zero requests in flight,
/// and a draining server with requests outstanding never exits on this step.
pub proof fn lemma_exit_only_after_drain(s: Lifecycle, e: Event)
    ensures
        step_spec(s, e).1 == Effect::ExitSuccess ==> step_spec(s, e).0.in_flight == 0
            && step_spec(s, e).0.phase == Phase::Stopped,
        s.phase == Phase::Draining && s.in_flight > 1 ==> step_spec(s, e).0.phase
            == Phase::Draining,
{
}

/// Only a shutdown signal takes the server out of the serving phase: while no
/// signal has been observed, connections keep being accepted.
pub proof fn lemma_serving_until_signal(s: Lifecycle, e: Event)
    requires
        s.phase == Phase::Serving,
        e != Event::ShutdownSignal,
    ensures
        step_spec(s, e).0.phase == Phase::Serving,
        e == Event::ConnectionArrived ==> step_spec(s, e).1 == Effect::AcceptConnection,
{
}

} // verus!
