//! The lifecycle of one tunnel connection: open the relay side, open the
//! local side, bridge, and — on every exit path — release the admission slot
//! exactly once.

use vstd::prelude::*;
use crate::admission::AdmissionCounter;

verus! {

/// Why a connection closed. `None` in [`ConnectionPhase::Closed`] means the
/// bridge ended gracefully.
#[derive(Clone, Copy, PartialEq, Eq, Structural, Debug)]
pub enum ConnectionError {
    RelayConnectFailed,
    LocalConnectFailed,
    BridgeIo,
}

/// The connection's state machine: connecting (relay side, then local side),
/// bridging, closed. `Closed` is terminal and is reached exactly once.
#[derive(Clone, Copy, Debug)]
pub enum ConnectionPhase {
    ConnectingRelay,
    ConnectingLocal,
    Bridging,
    Closed { error: Option<ConnectionError> },
}

/// What happened outside: a connect attempt came back, or the bridge ended.
/// `ok` is whether the operation succeeded.
#[derive(Clone, Copy, Debug)]
pub enum ConnectionEvent {
    RelayConnect { ok: bool },
    LocalConnect { ok: bool },
    BridgeEnd { ok: bool },
}

/// The transition relation of the lifecycle. `None` means the event is not
/// legal in that phase; otherwise the result is the next phase and whether
/// this transition releases the connection's admission slot.
pub open spec fn spec_step(phase: ConnectionPhase, event: ConnectionEvent) -> Option<
    (ConnectionPhase, bool),
> {
    match (phase, event) {
        (ConnectionPhase::ConnectingRelay, ConnectionEvent::RelayConnect { ok }) => if ok {
            Some((ConnectionPhase::ConnectingLocal, false))
        } else {
            Some(
                (
                    ConnectionPhase::Closed {
                        error: Some(ConnectionError::RelayConnectFailed),
                    },
                    true,
                ),
            )
        },
        (ConnectionPhase::ConnectingLocal, ConnectionEvent::LocalConnect { ok }) => if ok {
            Some((ConnectionPhase::Bridging, false))
        } else {
            Some(
                (
                    ConnectionPhase::Closed {
                        error: Some(ConnectionError::LocalConnectFailed),
                    },
                    true,
                ),
            )
        },
        (ConnectionPhase::Bridging, ConnectionEvent::BridgeEnd { ok }) => Some(
            (
                ConnectionPhase::Closed {
                    error: if ok {
                        None
                    } else {
                        Some(ConnectionError::BridgeIo)
                    },
                },
                true,
            ),
        ),
        _ => None,
    }
}

/// One tunnel connection, created when an admission slot was acquired for it
/// and holding that slot until it closes.
pub struct TunnelConnection {
    state: ConnectionPhase,
}

impl TunnelConnection {
    pub closed spec fn phase(self) -> ConnectionPhase {
        self.state
    }

    /// A connection holds its admission slot until it is closed.
    pub open spec fn holds_slot(self) -> bool {
        !(self.phase() is Closed)
    }

    /// A fresh connection, about to open its relay-side socket. The caller
    /// must have acquired one admission slot for it.
    pub fn new() -> (c: TunnelConnection)
        ensures
            c.phase() == ConnectionPhase::ConnectingRelay,
            c.holds_slot(),
    {
        TunnelConnection { state: ConnectionPhase::ConnectingRelay }
    }

    /// Whether `event` is legal in the current phase, decidable at run time.
    pub fn can_step(&self, event: ConnectionEvent) -> (ok: bool)
        ensures
            ok == (spec_step(self.phase(), event) is Some),
    {
        match (self.state, event) {
            (ConnectionPhase::ConnectingRelay, ConnectionEvent::RelayConnect { .. }) => true,
            (ConnectionPhase::ConnectingLocal, ConnectionEvent::LocalConnect { .. }) => true,
            (ConnectionPhase::Bridging, ConnectionEvent::BridgeEnd { .. }) => true,
            _ => false,
        }
    }

    /// Advance the lifecycle by one event, releasing the admission slot on
    /// the shared counter exactly when the connection reaches `Closed`.
    ///
    /// The counter is positive because this connection still holds the slot
    /// acquired for it.
    pub fn step(&mut self, event: ConnectionEvent, counter: &mut AdmissionCounter) -> (released:
        bool)
        requires
            spec_step(old(self).phase(), event) is Some,
            old(counter).inv(),
            old(counter).count() >= 1,
        ensures
            Some((final(self).phase(), released)) == spec_step(old(self).phase(), event),
            released <==> final(self).phase() is Closed,
            final(counter).inv(),
            final(counter).cap() == old(counter).cap(),
            released ==> final(counter).count() == old(counter).count() - 1,
            !released ==> final(counter).count() == old(counter).count(),
    {
        let next: ConnectionPhase = match (self.state, event) {
            (ConnectionPhase::ConnectingRelay, ConnectionEvent::RelayConnect { ok }) => if ok {
                ConnectionPhase::ConnectingLocal
            } else {
                ConnectionPhase::Closed { error: Some(ConnectionError::RelayConnectFailed) }
            },
            (ConnectionPhase::ConnectingLocal, ConnectionEvent::LocalConnect { ok }) => if ok {
                ConnectionPhase::Bridging
            } else {
                ConnectionPhase::Closed { error: Some(ConnectionError::LocalConnectFailed) }
            },
            (ConnectionPhase::Bridging, ConnectionEvent::BridgeEnd { ok }) => {
                ConnectionPhase::Closed {
                    error: if ok {
                        None
                    } else {
                        Some(ConnectionError::BridgeIo)
                    },
                }
            },
            _ => {
                proof {
                    assert(false);
                }
                ConnectionPhase::ConnectingRelay
            },
        };
        self.state = next;
        let released: bool = match next {
            ConnectionPhase::Closed { .. } => true,
            _ => false,
        };
        if released {
            counter.release();
        }
        released
    }

    /// Whether the connection has reached its terminal state.
    pub fn is_closed(&self) -> (b: bool)
        ensures
            b == (self.phase() is Closed),
    {
        match self.state {
            ConnectionPhase::Closed { .. } => true,
            _ => false,
        }
    }

    /// The error a closed connection ended with, `None` while it is still
    /// running or when it closed gracefully.
    pub fn close_error(&self) -> (e: Option<ConnectionError>)
        ensures
            (match self.phase() {
                ConnectionPhase::Closed { error } => e == error,
                _ => e is None,
            }),
    {
        match self.state {
            ConnectionPhase::Closed { error } => error,
            _ => None,
        }
    }
}

/// Law: `Closed` is terminal — no event is legal in it, so the slot released
/// on closing can never be released a second time through this machine.
pub proof fn lemma_closed_is_terminal(error: Option<ConnectionError>, event: ConnectionEvent)
    ensures
        spec_step(ConnectionPhase::Closed { error }, event) is None,
{
}

/// Law: a legal transition releases the admission slot exactly when it is
/// the transition into `Closed` — so every path from creation to the
/// terminal state releases the slot exactly once, connect failures included.
pub proof fn lemma_release_exactly_on_close(phase: ConnectionPhase, event: ConnectionEvent)
    requires
        spec_step(phase, event) is Some,
    ensures
        !(phase is Closed),
        (spec_step(phase, event) matches Some(next) ==> (next.1 <==> next.0 is Closed)),
{
}

/// Run the lifecycle over a whole sequence of events: the phase reached and
/// how many of the steps released the admission slot. `None` when some event
/// is not legal in the phase it meets.
pub open spec fn run_steps(phase: ConnectionPhase, events: Seq<ConnectionEvent>) -> Option<
    (ConnectionPhase, nat),
>
    decreases events.len(),
{
    if events.len() == 0 {
        Some((phase, 0))
    } else {
        match spec_step(phase, events[0]) {
            Some(next) => match run_steps(next.0, events.drop_first()) {
                Some(rest) => Some((rest.0, (rest.1 + if next.1 {
                    1nat
                } else {
                    0nat
                }) as nat)),
                None => None,
            },
            None => None,
        }
    }
}

/// Law (balance): along any legal run of the lifecycle that starts before
/// `Closed`, the admission slot is released exactly once if the run ends
/// closed — whichever failure or success path it took — and never otherwise.
pub proof fn lemma_lifecycle_releases_once(phase: ConnectionPhase, events: Seq<ConnectionEvent>)
    requires
        run_steps(phase, events) is Some,
        !(phase is Closed),
    ensures
        (run_steps(phase, events) matches Some(r) ==> r.1 == (if r.0 is Closed {
            1nat
        } else {
            0nat
        })),
    decreases events.len(),
{
    if events.len() != 0 {
        let next = spec_step(phase, events[0]).unwrap();
        lemma_release_exactly_on_close(phase, events[0]);
        if next.0 is Closed {
            if events.drop_first().len() != 0 {
                assert(spec_step(next.0, events.drop_first()[0]) is None);
            }
        } else {
            lemma_lifecycle_releases_once(next.0, events.drop_first());
        }
    }
}

} // verus!
